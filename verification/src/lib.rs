//! Verified core of a question-and-answer persistence layer.
//!
//! The crate validates identifiers, keeps a small taxonomy of errors, reads
//! what a storage backend answered and turns its rows into the values handed
//! to callers. It also holds a backend in memory with the two stores over it.
//!
//! Every function carries a contract that Verus proves, with two exceptions:
//! the private functions of [`identifier`] that call the `uuid` parser and
//! formatter. Their contracts are believed; they say what those calls return
//! on canonical text and on a 128-bit value.
//!
//! Talking to a database is left to the caller. A store operation is made of
//! a check before the exchange with the backend ([`identifier::Identifier::parse`],
//! [`persistance::answers_dao::answer_to_create`]) and of the reading of the
//! backend's answer (the functions of [`persistance::questions_dao`] and
//! [`persistance::answers_dao`]); [`persistance::store::MemoryStore`] runs
//! both around a backend in memory.

pub mod errors;
pub mod identifier;
pub mod models;
pub mod persistance;
