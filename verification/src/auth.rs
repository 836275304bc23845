//! Claims carried by a signed session token.
//!
//! The engine never validates credentials itself: token signing and checking
//! live with the caller, which resolves a bearer credential to an
//! authenticated actor id. Only the claim values and their expiry arithmetic
//! are computed here.

use vstd::prelude::*;

verus! {

/// Seconds in a day.
pub const DAY_SECS: usize = 86400;

/// The claims a session token carries. They are claims, not facts, until the
/// token's signature has been checked by the caller.
#[derive(Debug)]
pub struct UserClaims {
    /// The user's handle.
    pub handle: String,
    /// The user's primary key.
    pub id: i64,
    /// Expiry, as seconds since the Unix epoch.
    pub exp: usize,
}

impl UserClaims {
    /// Claims for `handle`/`id` expiring `maxage_days` days after `now_secs`
    /// (both in seconds since the Unix epoch).
    pub fn new(handle: String, id: i64, now_secs: usize, maxage_days: usize) -> (r: UserClaims)
        requires
            now_secs + maxage_days * DAY_SECS <= usize::MAX,
        ensures
            r.handle == handle,
            r.id == id,
            r.exp == now_secs + maxage_days * DAY_SECS,
    {
        UserClaims { handle, id, exp: now_secs + maxage_days * DAY_SECS }
    }

    /// Whether the claims are expired at `now_secs`.
    pub fn expired(&self, now_secs: usize) -> (r: bool)
        ensures
            r == (self.exp < now_secs),
    {
        self.exp < now_secs
    }
}

} // verus!
