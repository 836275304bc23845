//! The engine's error taxonomy.
//!
//! Every error is terminal for the call that raised it: nothing is retried
//! internally, and no operation leaves a partial effect behind. An idempotent
//! no-op (a toggle already in the desired state) is a success, never an error.

use vstd::prelude::*;

verus! {

/// What went wrong with an engine operation.
#[derive(Clone, Copy, Debug, PartialEq, Eq, Structural)]
pub enum Error {
    /// Opinion text rejected: empty, or longer than the grapheme bound.
    Validation,
    /// The target, opinion or actor does not exist.
    NotFound,
    /// The actor's windowed allowance is used up.
    QuotaExhausted,
    /// The underlying store failed.
    Store,
}

impl Error {
    /// A short human-readable description of the error.
    pub fn description(&self) -> (r: String)
        ensures
            self is Validation ==> r@ == "invalid content"@,
            self is NotFound ==> r@ == "not found"@,
            self is QuotaExhausted ==> r@ == "quota exhausted"@,
            self is Store ==> r@ == "store error"@,
    {
        match self {
            Error::Validation => String::from_str("invalid content"),
            Error::NotFound => String::from_str("not found"),
            Error::QuotaExhausted => String::from_str("quota exhausted"),
            Error::Store => String::from_str("store error"),
        }
    }
}

} // verus!
