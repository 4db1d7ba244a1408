//! The questions store and the answers store over a backend in memory.
//!
//! Each operation runs as it does over a database: the identifier is checked,
//! the backend is asked once, and its answer is read.

use vstd::prelude::*;

use crate::errors::{DBError, DBErrorView};
use crate::identifier::{lemma_rendered_text_injective, parsed_text, rendered_text, Identifier};
use crate::models::{Answer, AnswerDetail, Question, QuestionDetail};
use crate::persistance::answers_dao::{
    answer_created, answer_deleted, answer_to_create, answers_got, AnswersDao,
};
use crate::persistance::backend::{answer_views, question_views};
use crate::persistance::memory::MemoryBackend;
use crate::persistance::questions_dao::{
    question_created, question_deleted, questions_listed, QuestionsDao,
};
use crate::persistance::state::{lemma_insert_answer, lemma_insert_question, StoreState};

verus! {

/// The questions store and the answers store over one backend in memory.
pub struct MemoryStore {
    backend: MemoryBackend,
}

impl View for MemoryStore {
    type V = StoreState;

    closed spec fn view(&self) -> StoreState {
        self.backend@
    }
}

impl MemoryStore {
    /// The stores over a backend without rows.
    pub fn new() -> (store: MemoryStore)
        ensures
            store@ == StoreState::empty(),
            store@.wf(),
    {
        MemoryStore { backend: MemoryBackend::new() }
    }
}

impl QuestionsDao for MemoryStore {
    open spec fn valid(&self) -> bool {
        self@.wf()
    }

    /// Stores a question and hands it back with the identifier and the time
    /// of creation that the backend gave it.
    ///
    /// The identifier is one that the backend has never handed out before,
    /// so its text differs from that of every identifier seen so far, and the
    /// time of creation is not empty. Fails with [`DBError::Other`], without
    /// a change, only when the backend has run out of numbers.
    fn create_question(&mut self, question: Question) -> (created: Result<
        QuestionDetail,
        DBError,
    >)
        ensures
            final(self)@.wf(),
            old(self)@.issued < u64::MAX ==> (created matches Ok(detail)
                && detail@ == old(self)@.new_question(question@).detail()
                && final(self)@ == old(self)@.insert_question(question@)),
            old(self)@.issued >= u64::MAX ==> (created == Err::<QuestionDetail, DBError>(
                DBError::Other,
            ) && final(self)@ == old(self)@),
            created matches Ok(detail) ==> detail@.created_at.len() > 0,
            created matches Ok(detail) ==> forall|id: u128|
                old(self)@.has_issued(id) ==> detail@.question_uuid != #[trigger] rendered_text(
                    id,
                ),
    {
        let ghost before = self@;
        let outcome = self.backend.insert_question(question);
        proof {
            if before.issued < u64::MAX {
                lemma_insert_question(before, question@);
                let fresh = before.new_question(question@).question_uuid;
                assert forall|id: u128| before.has_issued(id) implies rendered_text(fresh)
                    != #[trigger] rendered_text(id) by {
                    if rendered_text(fresh) == rendered_text(id) {
                        lemma_rendered_text_injective(fresh, id);
                    }
                }
            }
        }
        question_created(outcome)
    }

    /// All stored questions, in the order of their insertion.
    fn get_questions(&self) -> (listed: Result<Vec<QuestionDetail>, DBError>)
        ensures
            listed matches Ok(details) && details@.len() == self@.questions.len()
                && forall|i: int|
                0 <= i < details@.len() ==> (#[trigger] details@[i])@
                    == self@.questions[i].detail(),
    {
        let outcome = self.backend.select_questions();
        proof {
            let rows = outcome->Ok_0;
            assert forall|i: int| 0 <= i < rows@.len() implies (#[trigger] rows@[i])@
                == self@.questions[i] by {
                assert(question_views(rows@)[i] == rows@[i]@);
            }
        }
        questions_listed(outcome)
    }

    /// Deletes the question that `question_uuid` names, and the answers that
    /// refer to it.
    ///
    /// Succeeds on every canonical text, whether or not such a question is
    /// stored. Text that names no identifier is refused with
    /// [`DBError::InvalidUUID`] and changes nothing.
    fn delete_question(&mut self, question_uuid: String) -> (deleted: Result<(), DBError>)
        ensures
            final(self)@.wf(),
            parsed_text(question_uuid@) matches Some(id) ==> (deleted == Ok::<(), DBError>(())
                && final(self)@ == old(self)@.delete_question(id)),
            parsed_text(question_uuid@) is None ==> (deleted matches Err(error) && error@
                == DBErrorView::InvalidUUID(question_uuid@) && final(self)@ == old(self)@),
    {
        match Identifier::parse(question_uuid.as_str()) {
            Ok(id) => question_deleted(self.backend.delete_question(id)),
            Err(error) => Err(error),
        }
    }
}

impl AnswersDao for MemoryStore {
    open spec fn valid(&self) -> bool {
        self@.wf()
    }

    /// Stores an answer and hands it back with the identifier and the time
    /// of creation that the backend gave it.
    ///
    /// The question is checked first: text that names no identifier is
    /// refused with [`DBError::InvalidUUID`], which carries the text. Text
    /// that names an identifier of no stored question is refused with
    /// [`DBError::InvalidUUID`] too, which then carries the canonical text of
    /// that identifier. Nothing changes in either case. Fails otherwise with
    /// [`DBError::Other`], without a change, only when the backend has run
    /// out of numbers.
    fn create_answer(&mut self, answer: Answer) -> (created: Result<AnswerDetail, DBError>)
        ensures
            final(self)@.wf(),
            match parsed_text(answer.question_uuid@) {
                None => created matches Err(error) && error@ == DBErrorView::InvalidUUID(
                    answer.question_uuid@,
                ) && final(self)@ == old(self)@,
                Some(id) => if !old(self)@.has_question(id) {
                    created matches Err(error) && error@ == DBErrorView::InvalidUUID(
                        rendered_text(id),
                    ) && final(self)@ == old(self)@
                } else if old(self)@.issued < u64::MAX {
                    created matches Ok(detail) && detail@ == old(self)@.new_answer(
                        id,
                        answer.content@,
                    ).detail() && final(self)@ == old(self)@.insert_answer(id, answer.content@)
                } else {
                    created == Err::<AnswerDetail, DBError>(DBError::Other) && final(self)@
                        == old(self)@
                },
            },
            created matches Ok(detail) ==> detail@.created_at.len() > 0,
            created matches Ok(detail) ==> forall|id: u128|
                old(self)@.has_issued(id) ==> detail@.answer_uuid != #[trigger] rendered_text(id),
    {
        let ghost before = self@;
        match answer_to_create(answer) {
            Ok(insert) => {
                let question_uuid = insert.question_uuid;
                let ghost content = insert.content@;
                let outcome = self.backend.insert_answer(insert);
                proof {
                    if before.has_question(question_uuid@) && before.issued < u64::MAX {
                        lemma_insert_answer(before, question_uuid@, content);
                        let fresh = before.new_answer(question_uuid@, content).answer_uuid;
                        assert forall|id: u128| before.has_issued(id) implies rendered_text(fresh)
                            != #[trigger] rendered_text(id) by {
                            if rendered_text(fresh) == rendered_text(id) {
                                lemma_rendered_text_injective(fresh, id);
                            }
                        }
                    }
                }
                answer_created(question_uuid, outcome)
            },
            Err(error) => Err(error),
        }
    }

    /// Deletes the answer that `answer_uuid` names.
    ///
    /// Succeeds on every canonical text, whether or not such an answer is
    /// stored. Text that names no identifier is refused with
    /// [`DBError::InvalidUUID`] and changes nothing.
    fn delete_answer(&mut self, answer_uuid: String) -> (deleted: Result<(), DBError>)
        ensures
            final(self)@.wf(),
            parsed_text(answer_uuid@) matches Some(id) ==> (deleted == Ok::<(), DBError>(())
                && final(self)@ == old(self)@.delete_answer(id)),
            parsed_text(answer_uuid@) is None ==> (deleted matches Err(error) && error@
                == DBErrorView::InvalidUUID(answer_uuid@) && final(self)@ == old(self)@),
    {
        match Identifier::parse(answer_uuid.as_str()) {
            Ok(id) => answer_deleted(self.backend.delete_answer(id)),
            Err(error) => Err(error),
        }
    }

    /// The answers that refer to the question that `question_uuid` names, in
    /// the order of their insertion.
    ///
    /// Succeeds on every canonical text, with no answers where none refers
    /// to the question, whether or not the question is stored. Text that
    /// names no identifier is refused with [`DBError::InvalidUUID`].
    fn get_answers(&self, question_uuid: String) -> (got: Result<Vec<AnswerDetail>, DBError>)
        ensures
            parsed_text(question_uuid@) matches Some(id) ==> (got matches Ok(details)
                && details@.len() == self@.answers_of(id).len() && forall|i: int|
                0 <= i < details@.len() ==> (#[trigger] details@[i])@ == self@.answers_of(
                    id,
                )[i].detail()),
            parsed_text(question_uuid@) is None ==> (got matches Err(error) && error@
                == DBErrorView::InvalidUUID(question_uuid@)),
    {
        match Identifier::parse(question_uuid.as_str()) {
            Ok(id) => {
                let outcome = self.backend.select_answers(id);
                proof {
                    let rows = outcome->Ok_0;
                    assert forall|i: int| 0 <= i < rows@.len() implies (#[trigger] rows@[i])@
                        == self@.answers_of(id@)[i] by {
                        assert(answer_views(rows@)[i] == rows@[i]@);
                    }
                }
                answers_got(outcome)
            },
            Err(error) => Err(error),
        }
    }
}

} // verus!
