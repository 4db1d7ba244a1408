//! The answers of a storage backend, as plain values.

use vstd::prelude::*;
use vstd::string::StringExecFns;

use crate::errors::postgres_error_codes::FOREIGN_KEY_VIOLATION;
use crate::identifier::{rendered_text, Identifier};
use crate::models::{AnswerDetail, AnswerDetailView, QuestionDetail, QuestionDetailView};

verus! {

/// A failure of the backend. `code` is the code by which the backend names
/// the condition, where it names one.
#[derive(Debug, Clone, PartialEq, Eq)]
pub struct BackendError {
    pub code: Option<String>,
}

/// Mathematical model of a [`BackendError`].
pub struct BackendErrorView {
    pub code: Option<Seq<char>>,
}

impl BackendErrorView {
    /// Whether the backend refused a row because it refers to a key that
    /// does not exist.
    pub open spec fn is_foreign_key_violation(self) -> bool {
        self.code == Some(FOREIGN_KEY_VIOLATION@)
    }
}

impl View for BackendError {
    type V = BackendErrorView;

    open spec fn view(&self) -> BackendErrorView {
        BackendErrorView {
            code: match self.code {
                Some(code) => Some(code@),
                None => None,
            },
        }
    }
}

impl BackendError {
    /// Whether the backend refused a row because it refers to a key that
    /// does not exist. Only that one code counts; a failure without a code
    /// never does.
    pub fn is_foreign_key_violation(&self) -> (violation: bool)
        ensures
            violation == self@.is_foreign_key_violation(),
    {
        match &self.code {
            Some(code) => *code == String::from_str(FOREIGN_KEY_VIOLATION),
            None => false,
        }
    }
}

/// A row of the questions table.
#[derive(Debug, Clone, PartialEq, Eq)]
pub struct QuestionRecord {
    pub question_uuid: Identifier,
    pub title: String,
    pub description: String,
    pub created_at: String,
}

/// Mathematical model of a [`QuestionRecord`].
pub struct QuestionRecordView {
    pub question_uuid: u128,
    pub title: Seq<char>,
    pub description: Seq<char>,
    pub created_at: Seq<char>,
}

impl QuestionRecordView {
    /// The row as a caller sees it: the identifier in its canonical text,
    /// the other fields unchanged.
    pub open spec fn detail(self) -> QuestionDetailView {
        QuestionDetailView {
            question_uuid: rendered_text(self.question_uuid),
            title: self.title,
            description: self.description,
            created_at: self.created_at,
        }
    }
}

impl View for QuestionRecord {
    type V = QuestionRecordView;

    open spec fn view(&self) -> QuestionRecordView {
        QuestionRecordView {
            question_uuid: self.question_uuid@,
            title: self.title@,
            description: self.description@,
            created_at: self.created_at@,
        }
    }
}

impl QuestionRecord {
    /// A second row with the same fields.
    pub fn duplicate(&self) -> (copy: QuestionRecord)
        ensures
            copy == *self,
    {
        QuestionRecord {
            question_uuid: self.question_uuid,
            title: self.title.clone(),
            description: self.description.clone(),
            created_at: self.created_at.clone(),
        }
    }

    /// The row as a caller sees it.
    pub fn detail(&self) -> (detail: QuestionDetail)
        ensures
            detail@ == self@.detail(),
    {
        QuestionDetail {
            question_uuid: self.question_uuid.render(),
            title: self.title.clone(),
            description: self.description.clone(),
            created_at: self.created_at.clone(),
        }
    }
}

/// The models of a run of question rows.
pub open spec fn question_views(rows: Seq<QuestionRecord>) -> Seq<QuestionRecordView> {
    rows.map_values(|row: QuestionRecord| row@)
}

/// The models of a run of answer rows.
pub open spec fn answer_views(rows: Seq<AnswerRecord>) -> Seq<AnswerRecordView> {
    rows.map_values(|row: AnswerRecord| row@)
}

/// A row of the answers table.
#[derive(Debug, Clone, PartialEq, Eq)]
pub struct AnswerRecord {
    pub answer_uuid: Identifier,
    pub question_uuid: Identifier,
    pub content: String,
    pub created_at: String,
}

/// Mathematical model of an [`AnswerRecord`].
pub struct AnswerRecordView {
    pub answer_uuid: u128,
    pub question_uuid: u128,
    pub content: Seq<char>,
    pub created_at: Seq<char>,
}

impl AnswerRecordView {
    /// The row as a caller sees it: both identifiers in their canonical
    /// text, the other fields unchanged.
    pub open spec fn detail(self) -> AnswerDetailView {
        AnswerDetailView {
            answer_uuid: rendered_text(self.answer_uuid),
            question_uuid: rendered_text(self.question_uuid),
            content: self.content,
            created_at: self.created_at,
        }
    }
}

impl View for AnswerRecord {
    type V = AnswerRecordView;

    open spec fn view(&self) -> AnswerRecordView {
        AnswerRecordView {
            answer_uuid: self.answer_uuid@,
            question_uuid: self.question_uuid@,
            content: self.content@,
            created_at: self.created_at@,
        }
    }
}

impl AnswerRecord {
    /// A second row with the same fields.
    pub fn duplicate(&self) -> (copy: AnswerRecord)
        ensures
            copy == *self,
    {
        AnswerRecord {
            answer_uuid: self.answer_uuid,
            question_uuid: self.question_uuid,
            content: self.content.clone(),
            created_at: self.created_at.clone(),
        }
    }

    /// The row as a caller sees it.
    pub fn detail(&self) -> (detail: AnswerDetail)
        ensures
            detail@ == self@.detail(),
    {
        AnswerDetail {
            answer_uuid: self.answer_uuid.render(),
            question_uuid: self.question_uuid.render(),
            content: self.content.clone(),
            created_at: self.created_at.clone(),
        }
    }
}

} // verus!
