//! A storage backend that keeps its rows in memory, in the order in which
//! they were inserted. It stands in for a database wherever none is at hand.

use vstd::prelude::*;
use vstd::string::StringExecFns;

use crate::errors::postgres_error_codes::FOREIGN_KEY_VIOLATION;
use crate::identifier::Identifier;
use crate::models::Question;
use crate::persistance::answers_dao::NewAnswer;
use crate::persistance::backend::{
    answer_views, question_views, AnswerRecord, BackendError, QuestionRecord,
};
use crate::persistance::state::{
    answer_elsewhere, answer_to, decimal_char, decimal_text, lemma_delete_answer,
    lemma_delete_question, lemma_insert_answer, lemma_insert_question, other_answer,
    other_question, StoreState,
};

verus! {

/// The text of one decimal digit.
fn decimal_digit(digit: u64) -> (text: &'static str)
    requires
        digit < 10,
    ensures
        text@ == seq![decimal_char(digit as nat)],
{
    proof {
        reveal_strlit("0");
        reveal_strlit("1");
        reveal_strlit("2");
        reveal_strlit("3");
        reveal_strlit("4");
        reveal_strlit("5");
        reveal_strlit("6");
        reveal_strlit("7");
        reveal_strlit("8");
        reveal_strlit("9");
    }
    let text = if digit == 0 {
        "0"
    } else if digit == 1 {
        "1"
    } else if digit == 2 {
        "2"
    } else if digit == 3 {
        "3"
    } else if digit == 4 {
        "4"
    } else if digit == 5 {
        "5"
    } else if digit == 6 {
        "6"
    } else if digit == 7 {
        "7"
    } else if digit == 8 {
        "8"
    } else {
        "9"
    };
    assert(text@ =~= seq![decimal_char(digit as nat)]);
    text
}

/// The decimal text of `number`, without leading zeros.
pub fn decimal(number: u64) -> (text: String)
    ensures
        text@ == decimal_text(number as nat),
    decreases number,
{
    if number < 10 {
        String::from_str(decimal_digit(number))
    } else {
        let mut text = decimal(number / 10);
        text.append(decimal_digit(number % 10));
        assert(text@ =~= decimal_text(number as nat));
        text
    }
}

/// A storage backend that keeps its rows in memory.
pub struct MemoryBackend {
    questions: Vec<QuestionRecord>,
    answers: Vec<AnswerRecord>,
    issued: u64,
}

impl View for MemoryBackend {
    type V = StoreState;

    closed spec fn view(&self) -> StoreState {
        StoreState {
            questions: question_views(self.questions@),
            answers: answer_views(self.answers@),
            issued: self.issued as nat,
        }
    }
}

impl MemoryBackend {
    /// A backend without rows.
    pub fn new() -> (backend: MemoryBackend)
        ensures
            backend@ == StoreState::empty(),
            backend@.wf(),
    {
        let backend = MemoryBackend { questions: Vec::new(), answers: Vec::new(), issued: 0 };
        assert(backend@.questions =~= Seq::empty());
        assert(backend@.answers =~= Seq::empty());
        backend
    }

    /// Whether a question with this identifier is stored.
    pub fn has_question(&self, id: Identifier) -> (found: bool)
        ensures
            found == self@.has_question(id@),
    {
        let mut i: usize = 0;
        while i < self.questions.len()
            invariant
                i <= self.questions@.len(),
                forall|k: int|
                    0 <= k < i ==> (#[trigger] self@.questions[k]).question_uuid != id@,
            decreases self.questions@.len() - i,
        {
            if self.questions[i].question_uuid.value == id.value {
                assert(self@.questions[i as int].question_uuid == id@);
                return true;
            }
            i = i + 1;
        }
        false
    }

    /// Inserts a question, with the next number as its identifier and as
    /// its time of creation. Fails, without a code and without a change,
    /// only when the numbers have run out.
    pub fn insert_question(&mut self, question: Question) -> (inserted: Result<
        QuestionRecord,
        BackendError,
    >)
        requires
            old(self)@.wf(),
        ensures
            final(self)@.wf(),
            old(self)@.issued < u64::MAX ==> (inserted matches Ok(row)
                && row@ == old(self)@.new_question(question@)
                && final(self)@ == old(self)@.insert_question(question@)),
            old(self)@.issued >= u64::MAX ==> (inserted matches Err(failure)
                && failure@.code is None
                && final(self)@ == old(self)@),
    {
        if self.issued == u64::MAX {
            return Err(BackendError { code: None });
        }
        let number = self.issued + 1;
        let row = QuestionRecord {
            question_uuid: Identifier::from_u128(number as u128),
            title: question.title,
            description: question.description,
            created_at: decimal(number),
        };
        let copy = row.duplicate();
        proof {
            lemma_insert_question(old(self)@, question@);
            assert(question_views(self.questions@.push(row)) =~= question_views(
                self.questions@,
            ).push(row@));
        }
        self.issued = number;
        self.questions.push(row);
        Ok(copy)
    }

    /// All questions, in the order of their insertion.
    pub fn select_questions(&self) -> (selected: Result<Vec<QuestionRecord>, BackendError>)
        ensures
            selected matches Ok(rows) && question_views(rows@) == self@.questions,
    {
        let mut rows: Vec<QuestionRecord> = Vec::new();
        let mut i: usize = 0;
        while i < self.questions.len()
            invariant
                i <= self.questions@.len(),
                rows@.len() == i,
                forall|k: int| 0 <= k < i ==> (#[trigger] rows@[k])@ == self.questions@[k]@,
            decreases self.questions@.len() - i,
        {
            rows.push(self.questions[i].duplicate());
            i = i + 1;
        }
        assert(question_views(rows@) =~= self@.questions);
        Ok(rows)
    }

    /// Deletes the question `id`, where it is stored, and the answers that
    /// refer to it. Gives the number of questions deleted.
    pub fn delete_question(&mut self, id: Identifier) -> (deleted: Result<u64, BackendError>)
        requires
            old(self)@.wf(),
        ensures
            final(self)@.wf(),
            final(self)@ == old(self)@.delete_question(id@),
            deleted matches Ok(count)
                && count == old(self)@.questions.len() - final(self)@.questions.len(),
    {
        let mut questions: Vec<QuestionRecord> = Vec::new();
        let mut i: usize = 0;
        while i < self.questions.len()
            invariant
                i <= self.questions@.len(),
                self.questions@ == old(self).questions@,
                question_views(questions@) == question_views(self.questions@.take(i as int)).filter(
                    other_question(id@),
                ),
            decreases self.questions@.len() - i,
        {
            proof {
                let seen = self.questions@.take(i as int);
                let row = self.questions@[i as int];
                assert(self.questions@.take(i + 1) =~= seen.push(row));
                assert(question_views(seen.push(row)) =~= question_views(seen).push(row@));
                question_views(seen).lemma_filter_push(row@, other_question(id@));
            }
            if self.questions[i].question_uuid.value != id.value {
                let ghost before = questions@;
                let copy = self.questions[i].duplicate();
                questions.push(copy);
                assert(question_views(before.push(copy)) =~= question_views(before).push(copy@));
            }
            i = i + 1;
        }
        let mut answers: Vec<AnswerRecord> = Vec::new();
        let mut j: usize = 0;
        while j < self.answers.len()
            invariant
                j <= self.answers@.len(),
                self.answers@ == old(self).answers@,
                answer_views(answers@) == answer_views(self.answers@.take(j as int)).filter(
                    answer_elsewhere(id@),
                ),
            decreases self.answers@.len() - j,
        {
            proof {
                let seen = self.answers@.take(j as int);
                let row = self.answers@[j as int];
                assert(self.answers@.take(j + 1) =~= seen.push(row));
                assert(answer_views(seen.push(row)) =~= answer_views(seen).push(row@));
                answer_views(seen).lemma_filter_push(row@, answer_elsewhere(id@));
            }
            if self.answers[j].question_uuid.value != id.value {
                let ghost before = answers@;
                let copy = self.answers[j].duplicate();
                answers.push(copy);
                assert(answer_views(before.push(copy)) =~= answer_views(before).push(copy@));
            }
            j = j + 1;
        }
        proof {
            assert(self.questions@.take(self.questions@.len() as int) =~= self.questions@);
            assert(self.answers@.take(self.answers@.len() as int) =~= self.answers@);
            lemma_delete_question(old(self)@, id@);
            old(self)@.questions.lemma_filter_len(other_question(id@));
        }
        let count = self.questions.len() - questions.len();
        self.questions = questions;
        self.answers = answers;
        Ok(count as u64)
    }

    /// Inserts an answer, with the next number as its identifier and as its
    /// time of creation. Where the question it refers to is not stored, the
    /// row is refused with the code of a foreign-key violation and nothing
    /// changes. Fails otherwise, without a code and without a change, only
    /// when the numbers have run out.
    pub fn insert_answer(&mut self, insert: NewAnswer) -> (inserted: Result<
        AnswerRecord,
        BackendError,
    >)
        requires
            old(self)@.wf(),
        ensures
            final(self)@.wf(),
            if !old(self)@.has_question(insert.question_uuid@) {
                inserted matches Err(failure) && failure@.is_foreign_key_violation()
                    && final(self)@ == old(self)@
            } else if old(self)@.issued < u64::MAX {
                inserted matches Ok(row)
                    && row@ == old(self)@.new_answer(insert.question_uuid@, insert.content@)
                    && final(self)@ == old(self)@.insert_answer(
                        insert.question_uuid@,
                        insert.content@,
                    )
            } else {
                inserted matches Err(failure) && failure@.code is None
                    && final(self)@ == old(self)@
            },
    {
        if !self.has_question(insert.question_uuid) {
            return Err(BackendError { code: Some(String::from_str(FOREIGN_KEY_VIOLATION)) });
        }
        if self.issued == u64::MAX {
            return Err(BackendError { code: None });
        }
        let number = self.issued + 1;
        let row = AnswerRecord {
            answer_uuid: Identifier::from_u128(number as u128),
            question_uuid: insert.question_uuid,
            content: insert.content,
            created_at: decimal(number),
        };
        let copy = row.duplicate();
        proof {
            lemma_insert_answer(old(self)@, insert.question_uuid@, insert.content@);
            assert(answer_views(self.answers@.push(row)) =~= answer_views(self.answers@).push(
                row@,
            ));
        }
        self.issued = number;
        self.answers.push(row);
        Ok(copy)
    }

    /// Deletes the answer `id`, where it is stored. Gives the number of
    /// answers deleted.
    pub fn delete_answer(&mut self, id: Identifier) -> (deleted: Result<u64, BackendError>)
        requires
            old(self)@.wf(),
        ensures
            final(self)@.wf(),
            final(self)@ == old(self)@.delete_answer(id@),
            deleted matches Ok(count)
                && count == old(self)@.answers.len() - final(self)@.answers.len(),
    {
        let mut answers: Vec<AnswerRecord> = Vec::new();
        let mut j: usize = 0;
        while j < self.answers.len()
            invariant
                j <= self.answers@.len(),
                self.answers@ == old(self).answers@,
                answer_views(answers@) == answer_views(self.answers@.take(j as int)).filter(
                    other_answer(id@),
                ),
            decreases self.answers@.len() - j,
        {
            proof {
                let seen = self.answers@.take(j as int);
                let row = self.answers@[j as int];
                assert(self.answers@.take(j + 1) =~= seen.push(row));
                assert(answer_views(seen.push(row)) =~= answer_views(seen).push(row@));
                answer_views(seen).lemma_filter_push(row@, other_answer(id@));
            }
            if self.answers[j].answer_uuid.value != id.value {
                let ghost before = answers@;
                let copy = self.answers[j].duplicate();
                answers.push(copy);
                assert(answer_views(before.push(copy)) =~= answer_views(before).push(copy@));
            }
            j = j + 1;
        }
        proof {
            assert(self.answers@.take(self.answers@.len() as int) =~= self.answers@);
            lemma_delete_answer(old(self)@, id@);
            old(self)@.answers.lemma_filter_len(other_answer(id@));
        }
        let count = self.answers.len() - answers.len();
        self.answers = answers;
        Ok(count as u64)
    }

    /// The answers that refer to the question `question_uuid`, in the order
    /// of their insertion. Whether the question is stored is not looked at.
    pub fn select_answers(&self, question_uuid: Identifier) -> (selected: Result<
        Vec<AnswerRecord>,
        BackendError,
    >)
        ensures
            selected matches Ok(rows) && answer_views(rows@) == self@.answers_of(question_uuid@),
    {
        let mut rows: Vec<AnswerRecord> = Vec::new();
        let mut j: usize = 0;
        while j < self.answers.len()
            invariant
                j <= self.answers@.len(),
                answer_views(rows@) == answer_views(self.answers@.take(j as int)).filter(
                    answer_to(question_uuid@),
                ),
            decreases self.answers@.len() - j,
        {
            proof {
                let seen = self.answers@.take(j as int);
                let row = self.answers@[j as int];
                assert(self.answers@.take(j + 1) =~= seen.push(row));
                assert(answer_views(seen.push(row)) =~= answer_views(seen).push(row@));
                answer_views(seen).lemma_filter_push(row@, answer_to(question_uuid@));
            }
            if self.answers[j].question_uuid.value == question_uuid.value {
                let ghost before = rows@;
                let copy = self.answers[j].duplicate();
                rows.push(copy);
                assert(answer_views(before.push(copy)) =~= answer_views(before).push(copy@));
            }
            j = j + 1;
        }
        proof {
            assert(self.answers@.take(self.answers@.len() as int) =~= self.answers@);
        }
        Ok(rows)
    }
}

} // verus!
