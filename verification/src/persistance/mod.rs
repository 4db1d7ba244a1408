//! The stores: what is asked of the storage backend and what its answers
//! mean.
//!
//! [`questions_dao::QuestionsDao`] and [`answers_dao::AnswersDao`] say what a
//! store owes its callers. A store operation has at most one exchange with its
//! backend; the functions beside the two traits are the halves around that
//! exchange: the check that runs before the backend is asked, and the reading
//! of what the backend answered. The backend is asked with an
//! [`Identifier`](crate::identifier::Identifier), never with text, so text that
//! names no identifier cannot reach it.
//!
//! [`backend`] holds the answers of a backend as plain values, [`state`] the
//! mathematical model of a backend, [`memory`] a backend in memory, and
//! [`store`] the two stores over it.

pub mod answers_dao;
pub mod backend;
pub mod memory;
pub mod questions_dao;
pub mod state;
pub mod store;
