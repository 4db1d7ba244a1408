//! The mathematical model of a storage backend: two tables of rows, what
//! inserting and deleting do to them, and what holds of them at all times.
//!
//! The backend numbers the rows it inserts: the number of a row is its
//! identifier, and the number in decimal is its time of creation. Deleting a
//! question deletes the answers that refer to it, so that every answer always
//! refers to a question that is there.

use vstd::prelude::*;

use crate::models::QuestionView;
use crate::persistance::backend::{AnswerRecordView, QuestionRecordView};

verus! {

/// The decimal digit that stands for `digit`.
pub open spec fn decimal_char(digit: nat) -> char
    recommends
        digit < 10,
{
    ('0' as int + digit) as char
}

/// The decimal text of `number`, without leading zeros.
pub open spec fn decimal_text(number: nat) -> Seq<char>
    decreases number,
{
    if number < 10 {
        seq![decimal_char(number)]
    } else {
        decimal_text(number / 10).push(decimal_char(number % 10))
    }
}

/// Whether the keys of the rows grow from each row to the next.
pub open spec fn increasing<A>(rows: Seq<A>, key: spec_fn(A) -> int) -> bool {
    forall|i: int, j: int|
        0 <= i < j < rows.len() ==> key(#[trigger] rows[i]) < key(#[trigger] rows[j])
}

/// The key by which the rows of the questions table are told apart.
pub open spec fn question_key() -> spec_fn(QuestionRecordView) -> int {
    |row: QuestionRecordView| row.question_uuid as int
}

/// The key by which the rows of the answers table are told apart.
pub open spec fn answer_key() -> spec_fn(AnswerRecordView) -> int {
    |row: AnswerRecordView| row.answer_uuid as int
}

/// Accepts the questions other than `id`.
pub open spec fn other_question(id: u128) -> spec_fn(QuestionRecordView) -> bool {
    |row: QuestionRecordView| row.question_uuid != id
}

/// Accepts the answers other than `id`.
pub open spec fn other_answer(id: u128) -> spec_fn(AnswerRecordView) -> bool {
    |row: AnswerRecordView| row.answer_uuid != id
}

/// Accepts the answers that refer to the question `id`.
pub open spec fn answer_to(id: u128) -> spec_fn(AnswerRecordView) -> bool {
    |row: AnswerRecordView| row.question_uuid == id
}

/// Accepts the answers that refer to a question other than `id`.
pub open spec fn answer_elsewhere(id: u128) -> spec_fn(AnswerRecordView) -> bool {
    |row: AnswerRecordView| row.question_uuid != id
}

/// Mathematical model of the backend: its two tables and the number of rows
/// it has inserted so far.
pub struct StoreState {
    pub questions: Seq<QuestionRecordView>,
    pub answers: Seq<AnswerRecordView>,
    pub issued: nat,
}

impl StoreState {
    /// The backend before anything was inserted.
    pub open spec fn empty() -> StoreState {
        StoreState { questions: Seq::empty(), answers: Seq::empty(), issued: 0 }
    }

    /// Whether a question with this identifier is stored.
    pub open spec fn has_question(self, id: u128) -> bool {
        exists|i: int|
            0 <= i < self.questions.len() && (#[trigger] self.questions[i]).question_uuid == id
    }

    /// Whether an answer with this identifier is stored.
    pub open spec fn has_answer(self, id: u128) -> bool {
        exists|i: int| 0 <= i < self.answers.len() && (#[trigger] self.answers[i]).answer_uuid == id
    }

    /// Whether the backend has handed out this identifier, for a row that is
    /// stored or for one that has been deleted since.
    pub open spec fn has_issued(self, id: u128) -> bool {
        1 <= id <= self.issued
    }

    /// What always holds of the backend: identifiers are the numbers handed
    /// out so far, no two rows of a table share one, every row has a time of
    /// creation, and every answer refers to a stored question.
    pub open spec fn wf(self) -> bool {
        &&& self.issued <= u64::MAX
        &&& forall|i: int|
            0 <= i < self.questions.len() ==> self.has_issued(
                (#[trigger] self.questions[i]).question_uuid,
            ) && self.questions[i].created_at.len() > 0
        &&& forall|i: int|
            0 <= i < self.answers.len() ==> self.has_issued(
                (#[trigger] self.answers[i]).answer_uuid,
            ) && self.answers[i].created_at.len() > 0 && self.has_question(
                self.answers[i].question_uuid,
            )
        &&& increasing(self.questions, question_key())
        &&& increasing(self.answers, answer_key())
    }

    /// The row that inserting `question` adds.
    pub open spec fn new_question(self, question: QuestionView) -> QuestionRecordView {
        QuestionRecordView {
            question_uuid: (self.issued + 1) as u128,
            title: question.title,
            description: question.description,
            created_at: decimal_text(self.issued + 1),
        }
    }

    /// The backend after `question` was inserted.
    pub open spec fn insert_question(self, question: QuestionView) -> StoreState {
        StoreState {
            questions: self.questions.push(self.new_question(question)),
            answers: self.answers,
            issued: self.issued + 1,
        }
    }

    /// The backend after the question `id` was deleted, and with it the
    /// answers that refer to it.
    pub open spec fn delete_question(self, id: u128) -> StoreState {
        StoreState {
            questions: self.questions.filter(other_question(id)),
            answers: self.answers.filter(answer_elsewhere(id)),
            issued: self.issued,
        }
    }

    /// The row that inserting an answer to the question `question_uuid` adds.
    pub open spec fn new_answer(self, question_uuid: u128, content: Seq<char>) -> AnswerRecordView {
        AnswerRecordView {
            answer_uuid: (self.issued + 1) as u128,
            question_uuid,
            content,
            created_at: decimal_text(self.issued + 1),
        }
    }

    /// The backend after an answer to the question `question_uuid` was
    /// inserted.
    pub open spec fn insert_answer(self, question_uuid: u128, content: Seq<char>) -> StoreState {
        StoreState {
            questions: self.questions,
            answers: self.answers.push(self.new_answer(question_uuid, content)),
            issued: self.issued + 1,
        }
    }

    /// The backend after the answer `id` was deleted.
    pub open spec fn delete_answer(self, id: u128) -> StoreState {
        StoreState {
            questions: self.questions,
            answers: self.answers.filter(other_answer(id)),
            issued: self.issued,
        }
    }

    /// The stored answers that refer to the question `question_uuid`, in the
    /// order of their insertion.
    pub open spec fn answers_of(self, question_uuid: u128) -> Seq<AnswerRecordView> {
        self.answers.filter(answer_to(question_uuid))
    }
}

/// A decimal text is never empty.
pub proof fn lemma_decimal_text_not_empty(number: nat)
    ensures
        decimal_text(number).len() > 0,
    decreases number,
{
    if number >= 10 {
        lemma_decimal_text_not_empty(number / 10);
    }
}

/// Filtering keeps the order of the keys, keeps only rows of the sequence
/// that the filter accepts, and keeps every such row.
pub proof fn lemma_filter_rows<A>(rows: Seq<A>, key: spec_fn(A) -> int, keep: spec_fn(A) -> bool)
    requires
        increasing(rows, key),
    ensures
        increasing(rows.filter(keep), key),
        forall|k: int|
            0 <= k < rows.filter(keep).len() ==> keep(#[trigger] rows.filter(keep)[k])
                && rows.contains(rows.filter(keep)[k]),
        forall|i: int|
            0 <= i < rows.len() && keep(rows[i]) ==> rows.filter(keep).contains(#[trigger] rows[i]),
    decreases rows.len(),
{
    reveal(Seq::filter);
    let kept = rows.filter(keep);
    if rows.len() > 0 {
        let rest = rows.drop_last();
        let last = rows.last();
        let kept_rest = rest.filter(keep);
        assert(increasing(rest, key)) by {
            assert forall|i: int, j: int| 0 <= i < j < rest.len() implies key(#[trigger] rest[i])
                < key(#[trigger] rest[j]) by {
                assert(rest[i] == rows[i] && rest[j] == rows[j]);
            }
        }
        lemma_filter_rows(rest, key, keep);
        assert forall|k: int| 0 <= k < kept.len() implies keep(#[trigger] kept[k])
            && rows.contains(kept[k]) by {
            if k < kept_rest.len() {
                assert(kept[k] == kept_rest[k]);
                assert(rest.contains(kept_rest[k]));
                let i = choose|i: int| 0 <= i < rest.len() && rest[i] == kept_rest[k];
                assert(rows[i] == kept[k]);
            } else {
                assert(kept[k] == rows[rows.len() - 1]);
            }
        }
        assert forall|i: int| 0 <= i < rows.len() && keep(rows[i]) implies kept.contains(
            #[trigger] rows[i],
        ) by {
            if i < rest.len() {
                assert(rest[i] == rows[i]);
                assert(kept_rest.contains(rest[i]));
                let k = choose|k: int| 0 <= k < kept_rest.len() && kept_rest[k] == rest[i];
                assert(kept[k] == rows[i]);
            } else {
                assert(kept[kept.len() - 1] == rows[i]);
            }
        }
        assert forall|i: int, j: int| 0 <= i < j < kept.len() implies key(#[trigger] kept[i]) < key(
            #[trigger] kept[j],
        ) by {
            if j < kept_rest.len() {
                assert(kept[i] == kept_rest[i] && kept[j] == kept_rest[j]);
            } else {
                assert(kept[j] == last);
                assert(kept[i] == kept_rest[i]);
                assert(rest.contains(kept_rest[i]));
                let a = choose|a: int| 0 <= a < rest.len() && rest[a] == kept_rest[i];
                assert(rows[a] == kept[i]);
                assert(rows[rows.len() - 1] == last);
            }
        }
    }
}

/// A filter that accepts every row of a sequence leaves it as it is.
pub proof fn lemma_filter_keeps_all<A>(rows: Seq<A>, keep: spec_fn(A) -> bool)
    requires
        forall|i: int| 0 <= i < rows.len() ==> keep(#[trigger] rows[i]),
    ensures
        rows.filter(keep) == rows,
    decreases rows.len(),
{
    reveal(Seq::filter);
    if rows.len() > 0 {
        assert(keep(rows[rows.len() - 1]));
        lemma_filter_keeps_all(rows.drop_last(), keep);
        assert(rows.drop_last().push(rows.last()) =~= rows);
    }
}

/// A filter that accepts no row of a sequence leaves nothing.
pub proof fn lemma_filter_keeps_none<A>(rows: Seq<A>, keep: spec_fn(A) -> bool)
    requires
        forall|i: int| 0 <= i < rows.len() ==> !keep(#[trigger] rows[i]),
    ensures
        rows.filter(keep) == Seq::<A>::empty(),
    decreases rows.len(),
{
    reveal(Seq::filter);
    if rows.len() > 0 {
        assert(!keep(rows[rows.len() - 1]));
        lemma_filter_keeps_none(rows.drop_last(), keep);
    }
}

/// Inserting a question keeps the backend well formed. The new row has an
/// identifier that the backend has never handed out before, and a time of
/// creation.
pub proof fn lemma_insert_question(state: StoreState, question: QuestionView)
    requires
        state.wf(),
        state.issued < u64::MAX,
    ensures
        state.insert_question(question).wf(),
        !state.has_issued(state.new_question(question).question_uuid),
        !state.has_question(state.new_question(question).question_uuid),
        state.insert_question(question).has_question(state.new_question(question).question_uuid),
        state.new_question(question).created_at.len() > 0,
{
    let after = state.insert_question(question);
    let row = state.new_question(question);
    lemma_decimal_text_not_empty(state.issued + 1);
    assert(after.questions[after.questions.len() - 1] == row);
    assert forall|i: int| 0 <= i < after.questions.len() implies after.has_issued(
        (#[trigger] after.questions[i]).question_uuid,
    ) && after.questions[i].created_at.len() > 0 by {
        if i < state.questions.len() {
            assert(after.questions[i] == state.questions[i]);
        }
    }
    assert forall|i: int| 0 <= i < after.answers.len() implies after.has_issued(
        (#[trigger] after.answers[i]).answer_uuid,
    ) && after.answers[i].created_at.len() > 0 && after.has_question(
        after.answers[i].question_uuid,
    ) by {
        let at = choose|k: int|
            0 <= k < state.questions.len() && (#[trigger] state.questions[k]).question_uuid
                == state.answers[i].question_uuid;
        assert(after.questions[at] == state.questions[at]);
    }
    assert forall|i: int, j: int| 0 <= i < j < after.questions.len() implies question_key()(
        #[trigger] after.questions[i],
    ) < question_key()(#[trigger] after.questions[j]) by {
        assert(after.questions[i] == state.questions[i]);
        if j < state.questions.len() {
            assert(after.questions[j] == state.questions[j]);
        }
    }
}

/// Inserting an answer to a stored question keeps the backend well formed.
/// The new row has an identifier that the backend has never handed out
/// before, and a time of creation.
pub proof fn lemma_insert_answer(state: StoreState, question_uuid: u128, content: Seq<char>)
    requires
        state.wf(),
        state.issued < u64::MAX,
        state.has_question(question_uuid),
    ensures
        state.insert_answer(question_uuid, content).wf(),
        !state.has_issued(state.new_answer(question_uuid, content).answer_uuid),
        !state.has_answer(state.new_answer(question_uuid, content).answer_uuid),
        state.new_answer(question_uuid, content).created_at.len() > 0,
{
    let after = state.insert_answer(question_uuid, content);
    lemma_decimal_text_not_empty(state.issued + 1);
    assert forall|i: int| 0 <= i < after.answers.len() implies after.has_issued(
        (#[trigger] after.answers[i]).answer_uuid,
    ) && after.answers[i].created_at.len() > 0 && after.has_question(
        after.answers[i].question_uuid,
    ) by {
        if i < state.answers.len() {
            assert(after.answers[i] == state.answers[i]);
            assert(state.has_question(state.answers[i].question_uuid));
        } else {
            assert(after.answers[i] == state.new_answer(question_uuid, content));
        }
        assert(after.questions == state.questions);
    }
    assert forall|i: int, j: int| 0 <= i < j < after.answers.len() implies answer_key()(
        #[trigger] after.answers[i],
    ) < answer_key()(#[trigger] after.answers[j]) by {
        assert(after.answers[i] == state.answers[i]);
        if j < state.answers.len() {
            assert(after.answers[j] == state.answers[j]);
        }
    }
}

/// Deleting a question keeps the backend well formed and leaves neither the
/// question nor an answer to it.
pub proof fn lemma_delete_question(state: StoreState, id: u128)
    requires
        state.wf(),
    ensures
        state.delete_question(id).wf(),
        !state.delete_question(id).has_question(id),
        state.delete_question(id).answers_of(id) == Seq::<AnswerRecordView>::empty(),
        forall|other: u128|
            other != id ==> state.delete_question(id).has_question(other) == state.has_question(
                other,
            ),
{
    let after = state.delete_question(id);
    lemma_filter_rows(state.questions, question_key(), other_question(id));
    lemma_filter_rows(state.answers, answer_key(), answer_elsewhere(id));
    assert forall|i: int| 0 <= i < after.questions.len() implies after.has_issued(
        (#[trigger] after.questions[i]).question_uuid,
    ) && after.questions[i].created_at.len() > 0 by {
        assert(state.questions.contains(after.questions[i]));
    }
    assert forall|other: u128| other != id implies after.has_question(other)
        == state.has_question(other) by {
        if state.has_question(other) {
            let at = choose|k: int|
                0 <= k < state.questions.len() && (#[trigger] state.questions[k]).question_uuid
                    == other;
            assert(other_question(id)(state.questions[at]));
            assert(after.questions.contains(state.questions[at]));
        }
        if after.has_question(other) {
            let at = choose|k: int|
                0 <= k < after.questions.len() && (#[trigger] after.questions[k]).question_uuid
                    == other;
            assert(state.questions.contains(after.questions[at]));
        }
    }
    assert forall|i: int| 0 <= i < after.answers.len() implies after.has_issued(
        (#[trigger] after.answers[i]).answer_uuid,
    ) && after.answers[i].created_at.len() > 0 && after.has_question(
        after.answers[i].question_uuid,
    ) by {
        assert(state.answers.contains(after.answers[i]));
        assert(answer_elsewhere(id)(after.answers[i]));
        let at = choose|k: int|
            0 <= k < state.answers.len() && state.answers[k] == after.answers[i];
        assert(state.has_question(state.answers[at].question_uuid));
    }
    if after.has_question(id) {
        let at = choose|k: int|
            0 <= k < after.questions.len() && (#[trigger] after.questions[k]).question_uuid == id;
        assert(other_question(id)(after.questions[at]));
    }
    assert forall|i: int| 0 <= i < after.answers.len() implies !answer_to(id)(
        #[trigger] after.answers[i],
    ) by {
        assert(answer_elsewhere(id)(after.answers[i]));
    }
    lemma_filter_keeps_none(after.answers, answer_to(id));
}

/// Deleting an answer keeps the backend well formed and leaves no answer
/// with that identifier.
pub proof fn lemma_delete_answer(state: StoreState, id: u128)
    requires
        state.wf(),
    ensures
        state.delete_answer(id).wf(),
        !state.delete_answer(id).has_answer(id),
{
    let after = state.delete_answer(id);
    lemma_filter_rows(state.answers, answer_key(), other_answer(id));
    assert forall|i: int| 0 <= i < after.answers.len() implies after.has_issued(
        (#[trigger] after.answers[i]).answer_uuid,
    ) && after.answers[i].created_at.len() > 0 && after.has_question(
        after.answers[i].question_uuid,
    ) by {
        assert(state.answers.contains(after.answers[i]));
        let at = choose|k: int|
            0 <= k < state.answers.len() && state.answers[k] == after.answers[i];
        assert(state.has_question(state.answers[at].question_uuid));
        assert(after.questions == state.questions);
        assert(state.has_issued(state.answers[at].answer_uuid));
    }
    if after.has_answer(id) {
        let at = choose|k: int|
            0 <= k < after.answers.len() && (#[trigger] after.answers[k]).answer_uuid == id;
        assert(other_answer(id)(after.answers[at]));
    }
}

/// Deleting the same question a second time changes nothing.
pub proof fn lemma_delete_question_twice(state: StoreState, id: u128)
    ensures
        state.delete_question(id).delete_question(id) == state.delete_question(id),
{
    let once = state.delete_question(id);
    assert forall|i: int| 0 <= i < once.questions.len() implies other_question(id)(
        #[trigger] once.questions[i],
    ) by {
        state.questions.lemma_filter_pred(other_question(id), i);
    }
    assert forall|i: int| 0 <= i < once.answers.len() implies answer_elsewhere(id)(
        #[trigger] once.answers[i],
    ) by {
        state.answers.lemma_filter_pred(answer_elsewhere(id), i);
    }
    lemma_filter_keeps_all(once.questions, other_question(id));
    lemma_filter_keeps_all(once.answers, answer_elsewhere(id));
}

/// Deleting a question that is not stored changes nothing, provided that
/// every answer refers to a stored question.
pub proof fn lemma_delete_absent_question(state: StoreState, id: u128)
    requires
        state.wf(),
        !state.has_question(id),
    ensures
        state.delete_question(id) == state,
{
    assert forall|i: int| 0 <= i < state.answers.len() implies answer_elsewhere(id)(
        #[trigger] state.answers[i],
    ) by {
        assert(state.has_question(state.answers[i].question_uuid));
    }
    lemma_filter_keeps_all(state.questions, other_question(id));
    lemma_filter_keeps_all(state.answers, answer_elsewhere(id));
}

/// Deleting the same answer a second time changes nothing.
pub proof fn lemma_delete_answer_twice(state: StoreState, id: u128)
    ensures
        state.delete_answer(id).delete_answer(id) == state.delete_answer(id),
{
    let once = state.delete_answer(id);
    assert forall|i: int| 0 <= i < once.answers.len() implies other_answer(id)(
        #[trigger] once.answers[i],
    ) by {
        state.answers.lemma_filter_pred(other_answer(id), i);
    }
    lemma_filter_keeps_all(once.answers, other_answer(id));
}

/// A question to which no stored answer refers has an empty run of answers,
/// whether or not the question itself is stored.
pub proof fn lemma_no_answers(state: StoreState, question_uuid: u128)
    requires
        forall|i: int|
            0 <= i < state.answers.len() ==> (#[trigger] state.answers[i]).question_uuid
                != question_uuid,
    ensures
        state.answers_of(question_uuid) == Seq::<AnswerRecordView>::empty(),
{
    lemma_filter_keeps_none(state.answers, answer_to(question_uuid));
}

} // verus!
