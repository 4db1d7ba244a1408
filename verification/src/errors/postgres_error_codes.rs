//! SQLSTATE codes of PostgreSQL that the stores tell apart.
//!
//! See <https://www.postgresql.org/docs/current/errcodes-appendix.html>.

use vstd::prelude::*;

verus! {

/// The code reported when a row refers to a key that no row of the referenced
/// table holds.
pub const FOREIGN_KEY_VIOLATION: &'static str = "23503";

} // verus!
