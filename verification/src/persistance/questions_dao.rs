//! The questions store.

use vstd::prelude::*;

use crate::errors::{DBError, DBErrorView};
use crate::identifier::parsed_text;
use crate::models::{Question, QuestionDetail};
use crate::persistance::backend::{BackendError, QuestionRecord};

verus! {

/// A store of questions.
///
/// The contracts say what every store owes its callers, whatever backend it
/// keeps its rows in: an identifier is checked before anything else, text
/// that names none is refused with [`DBError::InvalidUUID`] and the text, and
/// any other failure is [`DBError::Other`].
pub trait QuestionsDao {
    /// What holds of the store between operations.
    spec fn valid(&self) -> bool;

    /// Stores a question and hands it back with the identifier and the time
    /// of creation that the backend gave it.
    fn create_question(&mut self, question: Question) -> (created: Result<
        QuestionDetail,
        DBError,
    >)
        requires
            old(self).valid(),
        ensures
            final(self).valid(),
            created matches Err(error) ==> error@ == DBErrorView::Other,
    ;

    /// Deletes the question that `question_uuid` names, where there is one.
    fn delete_question(&mut self, question_uuid: String) -> (deleted: Result<(), DBError>)
        requires
            old(self).valid(),
        ensures
            final(self).valid(),
            parsed_text(question_uuid@) is None ==> (deleted matches Err(error) && error@
                == DBErrorView::InvalidUUID(question_uuid@)),
            parsed_text(question_uuid@) is Some ==> (deleted matches Err(error) ==> error@
                == DBErrorView::Other),
    ;

    /// All stored questions.
    fn get_questions(&self) -> (listed: Result<Vec<QuestionDetail>, DBError>)
        requires
            self.valid(),
        ensures
            listed matches Err(error) ==> error@ == DBErrorView::Other,
    ;
}

/// Reads the backend's answer to the insertion of a question.
///
/// The inserted row is handed back with its generated fields; every failure
/// of the backend is [`DBError::Other`].
pub fn question_created(outcome: Result<QuestionRecord, BackendError>) -> (created: Result<
    QuestionDetail,
    DBError,
>)
    ensures
        outcome matches Ok(record) ==> (created matches Ok(detail) && detail@
            == record@.detail()),
        outcome is Err ==> created == Err::<QuestionDetail, DBError>(DBError::Other),
{
    match outcome {
        Ok(record) => Ok(record.detail()),
        Err(_) => Err(DBError::Other),
    }
}

/// Reads the backend's answer to the selection of all questions.
///
/// The rows are handed back one for one and in the backend's order; every
/// failure of the backend is [`DBError::Other`].
pub fn questions_listed(outcome: Result<Vec<QuestionRecord>, BackendError>) -> (listed: Result<
    Vec<QuestionDetail>,
    DBError,
>)
    ensures
        outcome matches Ok(records) ==> (listed matches Ok(details) && details@.len()
            == records@.len() && forall|i: int|
            0 <= i < records@.len() ==> (#[trigger] details@[i])@ == records@[i]@.detail()),
        outcome is Err ==> listed == Err::<Vec<QuestionDetail>, DBError>(DBError::Other),
{
    match outcome {
        Ok(records) => {
            let mut details: Vec<QuestionDetail> = Vec::new();
            let mut i: usize = 0;
            while i < records.len()
                invariant
                    i <= records@.len(),
                    details@.len() == i,
                    forall|k: int|
                        0 <= k < i ==> (#[trigger] details@[k])@ == records@[k]@.detail(),
                decreases records@.len() - i,
            {
                details.push(records[i].detail());
                i = i + 1;
            }
            Ok(details)
        },
        Err(_) => Err(DBError::Other),
    }
}

/// Reads the backend's answer to the deletion of a question. The backend
/// answers with the number of rows it deleted.
///
/// Deleting succeeds whether or not a row was there to delete; every failure
/// of the backend is [`DBError::Other`].
pub fn question_deleted(outcome: Result<u64, BackendError>) -> (deleted: Result<(), DBError>)
    ensures
        outcome is Ok ==> deleted == Ok::<(), DBError>(()),
        outcome is Err ==> deleted == Err::<(), DBError>(DBError::Other),
{
    match outcome {
        Ok(_) => Ok(()),
        Err(_) => Err(DBError::Other),
    }
}

} // verus!
