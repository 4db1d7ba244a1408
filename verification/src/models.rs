//! What callers hand to the stores and what the stores hand back.

use vstd::prelude::*;

verus! {

/// A question as a caller submits it.
#[derive(Debug, Clone, PartialEq, Eq)]
pub struct Question {
    pub title: String,
    pub description: String,
}

/// Mathematical model of a [`Question`].
pub struct QuestionView {
    pub title: Seq<char>,
    pub description: Seq<char>,
}

impl View for Question {
    type V = QuestionView;

    open spec fn view(&self) -> QuestionView {
        QuestionView { title: self.title@, description: self.description@ }
    }
}

/// A stored question as a caller sees it: every field is text.
#[derive(Debug, Clone, PartialEq, Eq)]
pub struct QuestionDetail {
    pub question_uuid: String,
    pub title: String,
    pub description: String,
    pub created_at: String,
}

/// Mathematical model of a [`QuestionDetail`].
pub struct QuestionDetailView {
    pub question_uuid: Seq<char>,
    pub title: Seq<char>,
    pub description: Seq<char>,
    pub created_at: Seq<char>,
}

impl View for QuestionDetail {
    type V = QuestionDetailView;

    open spec fn view(&self) -> QuestionDetailView {
        QuestionDetailView {
            question_uuid: self.question_uuid@,
            title: self.title@,
            description: self.description@,
            created_at: self.created_at@,
        }
    }
}

/// An answer as a caller submits it. The question is named by text that has
/// not been checked yet.
#[derive(Debug, Clone, PartialEq, Eq)]
pub struct Answer {
    pub question_uuid: String,
    pub content: String,
}

/// Mathematical model of an [`Answer`].
pub struct AnswerView {
    pub question_uuid: Seq<char>,
    pub content: Seq<char>,
}

impl View for Answer {
    type V = AnswerView;

    open spec fn view(&self) -> AnswerView {
        AnswerView { question_uuid: self.question_uuid@, content: self.content@ }
    }
}

/// A stored answer as a caller sees it: every field is text.
#[derive(Debug, Clone, PartialEq, Eq)]
pub struct AnswerDetail {
    pub answer_uuid: String,
    pub question_uuid: String,
    pub content: String,
    pub created_at: String,
}

/// Mathematical model of an [`AnswerDetail`].
pub struct AnswerDetailView {
    pub answer_uuid: Seq<char>,
    pub question_uuid: Seq<char>,
    pub content: Seq<char>,
    pub created_at: Seq<char>,
}

impl View for AnswerDetail {
    type V = AnswerDetailView;

    open spec fn view(&self) -> AnswerDetailView {
        AnswerDetailView {
            answer_uuid: self.answer_uuid@,
            question_uuid: self.question_uuid@,
            content: self.content@,
            created_at: self.created_at@,
        }
    }
}

} // verus!
