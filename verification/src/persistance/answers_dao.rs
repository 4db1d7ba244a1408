//! The answers store.

use vstd::prelude::*;

use crate::errors::{DBError, DBErrorView};
use crate::identifier::{parsed_text, rendered_text, Identifier};
use crate::models::{Answer, AnswerDetail};
use crate::persistance::backend::{AnswerRecord, BackendError};

verus! {

/// A store of answers, each of which refers to one question.
///
/// The contracts say what every store owes its callers, whatever backend it
/// keeps its rows in: an identifier is checked before anything else, text
/// that names none is refused with [`DBError::InvalidUUID`] and the text, an
/// answer to a question that is not stored is refused with
/// [`DBError::InvalidUUID`] and the canonical text of the identifier, and any
/// other failure is [`DBError::Other`].
pub trait AnswersDao {
    /// What holds of the store between operations.
    spec fn valid(&self) -> bool;

    /// Stores an answer and hands it back with the identifier and the time
    /// of creation that the backend gave it.
    fn create_answer(&mut self, answer: Answer) -> (created: Result<AnswerDetail, DBError>)
        requires
            old(self).valid(),
        ensures
            final(self).valid(),
            parsed_text(answer.question_uuid@) is None ==> (created matches Err(error) && error@
                == DBErrorView::InvalidUUID(answer.question_uuid@)),
            parsed_text(answer.question_uuid@) matches Some(id) ==> (created matches Err(error)
                ==> error@ == DBErrorView::Other || error@ == DBErrorView::InvalidUUID(
                rendered_text(id),
            )),
    ;

    /// Deletes the answer that `answer_uuid` names, where there is one.
    fn delete_answer(&mut self, answer_uuid: String) -> (deleted: Result<(), DBError>)
        requires
            old(self).valid(),
        ensures
            final(self).valid(),
            parsed_text(answer_uuid@) is None ==> (deleted matches Err(error) && error@
                == DBErrorView::InvalidUUID(answer_uuid@)),
            parsed_text(answer_uuid@) is Some ==> (deleted matches Err(error) ==> error@
                == DBErrorView::Other),
    ;

    /// The answers that refer to the question that `question_uuid` names.
    fn get_answers(&self, question_uuid: String) -> (got: Result<Vec<AnswerDetail>, DBError>)
        requires
            self.valid(),
        ensures
            parsed_text(question_uuid@) is None ==> (got matches Err(error) && error@
                == DBErrorView::InvalidUUID(question_uuid@)),
            parsed_text(question_uuid@) is Some ==> (got matches Err(error) ==> error@
                == DBErrorView::Other),
    ;
}

/// An answer whose question has a well-formed identifier: what the backend
/// is asked to insert.
#[derive(Debug, Clone, PartialEq, Eq)]
pub struct NewAnswer {
    pub question_uuid: Identifier,
    pub content: String,
}

/// Checks the identifier of the question that a new answer names, before the
/// backend is asked.
pub fn answer_to_create(answer: Answer) -> (checked: Result<NewAnswer, DBError>)
    ensures
        parsed_text(answer.question_uuid@) matches Some(value) ==> (checked matches Ok(insert)
            && insert.question_uuid@ == value && insert.content@ == answer.content@),
        parsed_text(answer.question_uuid@) is None ==> (checked matches Err(error) && error@
            == DBErrorView::InvalidUUID(answer.question_uuid@)),
{
    match Identifier::parse(answer.question_uuid.as_str()) {
        Ok(question_uuid) => Ok(NewAnswer { question_uuid, content: answer.content }),
        Err(error) => Err(error),
    }
}

/// Reads the backend's answer to the insertion of an answer for the question
/// `question_uuid`.
///
/// The inserted row is handed back with its generated fields. Where the
/// backend refused the row because no such question exists, the failure is
/// [`DBError::InvalidUUID`] with the canonical text of `question_uuid`: to the
/// caller the reference is as unusable as malformed text. Every other
/// failure of the backend is [`DBError::Other`].
pub fn answer_created(
    question_uuid: Identifier,
    outcome: Result<AnswerRecord, BackendError>,
) -> (created: Result<AnswerDetail, DBError>)
    ensures
        outcome matches Ok(record) ==> (created matches Ok(detail) && detail@
            == record@.detail()),
        outcome matches Err(failure) ==> (created matches Err(error) && error@ == (
        if failure@.is_foreign_key_violation() {
            DBErrorView::InvalidUUID(rendered_text(question_uuid@))
        } else {
            DBErrorView::Other
        })),
{
    match outcome {
        Ok(record) => Ok(record.detail()),
        Err(failure) => {
            if failure.is_foreign_key_violation() {
                Err(DBError::InvalidUUID(question_uuid.render()))
            } else {
                Err(DBError::Other)
            }
        },
    }
}

/// Reads the backend's answer to the deletion of an answer. The backend
/// answers with the number of rows it deleted.
///
/// Deleting succeeds whether or not a row was there to delete; every failure
/// of the backend is [`DBError::Other`].
pub fn answer_deleted(outcome: Result<u64, BackendError>) -> (deleted: Result<(), DBError>)
    ensures
        outcome is Ok ==> deleted == Ok::<(), DBError>(()),
        outcome is Err ==> deleted == Err::<(), DBError>(DBError::Other),
{
    match outcome {
        Ok(_) => Ok(()),
        Err(_) => Err(DBError::Other),
    }
}

/// Reads the backend's answer to the selection of the answers of one
/// question.
///
/// The rows are handed back one for one and in the backend's order, none of
/// them where the backend found none; every failure of the backend is
/// [`DBError::Other`].
pub fn answers_got(outcome: Result<Vec<AnswerRecord>, BackendError>) -> (got: Result<
    Vec<AnswerDetail>,
    DBError,
>)
    ensures
        outcome matches Ok(records) ==> (got matches Ok(details) && details@.len()
            == records@.len() && forall|i: int|
            0 <= i < records@.len() ==> (#[trigger] details@[i])@ == records@[i]@.detail()),
        outcome is Err ==> got == Err::<Vec<AnswerDetail>, DBError>(DBError::Other),
{
    match outcome {
        Ok(records) => {
            let mut details: Vec<AnswerDetail> = Vec::new();
            let mut i: usize = 0;
            while i < records.len()
                invariant
                    i <= records@.len(),
                    details@.len() == i,
                    forall|k: int|
                        0 <= k < i ==> (#[trigger] details@[k])@ == records@[k]@.detail(),
                decreases records@.len() - i,
            {
                details.push(records[i].detail());
                i = i + 1;
            }
            Ok(details)
        },
        Err(_) => Err(DBError::Other),
    }
}

} // verus!
