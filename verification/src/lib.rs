//! Content indexing and relationship toggle engine for a social-content
//! service: a deterministic tag/mention tokenizer, idempotent
//! counter-synchronized relationship toggles (like, bookmark, follow),
//! a short-text opinion subsystem with ranked retrieval, and a
//! time-windowed per-user action quota.
//!
//! The persistent store behind the engine is modelled as in-memory state;
//! callers that keep the state in an external database perform each
//! operation inside one atomic unit, which is what the contracts here
//! describe.

pub mod auth;
pub mod error;
pub mod logger;
pub mod opinion;
pub mod post;
pub mod quota;
pub mod seq_facts;
pub mod toggle;
pub mod tokenizer;
pub mod user;

use vstd::prelude::*;

verus! {

/// True for the characters a token may consist of: ASCII letters and digits.
pub open spec fn spec_is_token_char(c: char) -> bool {
    ('a' <= c && c <= 'z') || ('A' <= c && c <= 'Z') || ('0' <= c && c <= '9')
}

/// Case-folds an ASCII letter; leaves every other character unchanged.
pub open spec fn spec_fold_char(c: char) -> char {
    if 'A' <= c && c <= 'Z' {
        ((c as u8) + 32) as char
    } else {
        c
    }
}

/// Tests whether `c` may appear inside a tag or mention token.
pub fn is_token_char(c: char) -> (r: bool)
    ensures
        r == spec_is_token_char(c),
{
    ('a' <= c && c <= 'z') || ('A' <= c && c <= 'Z') || ('0' <= c && c <= '9')
}

/// Case-folds an ASCII letter.
pub fn fold_char(c: char) -> (r: char)
    ensures
        r == spec_fold_char(c),
{
    if 'A' <= c && c <= 'Z' {
        ((c as u8) + 32) as char
    } else {
        c
    }
}

/// Relies on `String::push`: appends one character at the end.
#[verifier::external_body]
pub(crate) fn push_char(s: &mut String, c: char)
    ensures
        final(s)@ == old(s)@.push(c),
{
    s.push(c)
}

} // verus!
