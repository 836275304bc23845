//! Time-windowed action allowance: each user may throw five tomatoes per
//! rolling twenty-four-hour window.
//!
//! The per-user state is `(tomatoes, last_reset)`. The first check that sees
//! more than a full window elapsed refills the allowance to five and moves
//! `last_reset` forward; because the refill is conditional on the stored
//! `last_reset` it happens at most once per elapsed window, however many
//! concurrent callers observe the stale state. Consumption decrements only a
//! positive allowance, in the same atomic step as the check.

use vstd::prelude::*;

verus! {

use crate::error::Error;

/// Milliseconds in the reset window: one day.
pub const WINDOW_MS: i64 = 86400000;

/// The largest timestamp the quota accepts, far in the future; keeps
/// `last_reset + WINDOW_MS` inside `i64`.
pub const MAX_TIMESTAMP_MS: i64 = 253402300799999;

/// The allowance a fresh window grants.
pub const FULL_ALLOWANCE: u8 = 5;

/// One user's quota: the remaining allowance and when it was last refilled.
#[derive(Clone, Copy, Debug, PartialEq, Eq, Structural)]
pub struct QuotaState {
    pub tomatoes: u8,
    pub last_reset: i64,
}

impl QuotaState {
    /// Well-formed: the allowance stays within zero to five and the reset
    /// time is a plausible timestamp.
    pub open spec fn wf(self) -> bool {
        &&& self.tomatoes <= FULL_ALLOWANCE
        &&& 0 <= self.last_reset <= MAX_TIMESTAMP_MS
    }

    /// A new user's quota: a full allowance, window anchored at `now_ms`.
    pub fn new(now_ms: i64) -> (q: QuotaState)
        requires
            0 <= now_ms <= MAX_TIMESTAMP_MS,
        ensures
            q.wf(),
            q.tomatoes == FULL_ALLOWANCE,
            q.last_reset == now_ms,
    {
        QuotaState { tomatoes: FULL_ALLOWANCE, last_reset: now_ms }
    }
}

/// Whether a full window has elapsed since the last refill: strictly more
/// than twenty-four hours.
pub open spec fn spec_window_elapsed(q: QuotaState, now_ms: i64) -> bool {
    now_ms - q.last_reset > WINDOW_MS
}

/// The quota after one reset check at `now_ms`: refilled and re-anchored when
/// the window has elapsed, untouched otherwise.
pub open spec fn spec_reset(q: QuotaState, now_ms: i64) -> QuotaState {
    if spec_window_elapsed(q, now_ms) {
        QuotaState { tomatoes: FULL_ALLOWANCE, last_reset: now_ms }
    } else {
        q
    }
}

/// The quota after one consumption attempt at `now_ms`, and whether it
/// succeeded: the reset check runs first, then a positive allowance is
/// decremented; an empty allowance fails and changes nothing further.
pub open spec fn spec_consume(q: QuotaState, now_ms: i64) -> (QuotaState, bool) {
    let r = spec_reset(q, now_ms);
    if r.tomatoes > 0 {
        (QuotaState { tomatoes: (r.tomatoes - 1) as u8, ..r }, true)
    } else {
        (r, false)
    }
}

/// Refills the allowance to five when more than a full window has elapsed
/// since the last refill; otherwise leaves the quota untouched.
pub fn reset_daily_tomatoes(q: &mut QuotaState, now_ms: i64)
    requires
        old(q).wf(),
        0 <= now_ms <= MAX_TIMESTAMP_MS,
    ensures
        final(q).wf(),
        *final(q) == spec_reset(*old(q), now_ms),
{
    if now_ms - q.last_reset > WINDOW_MS {
        q.tomatoes = FULL_ALLOWANCE;
        q.last_reset = now_ms;
    }
}

/// Consumes one tomato of `q` at `now_ms` and credits it to the target's
/// received count, after the window check. Fails with `QuotaExhausted`, and
/// credits nothing, exactly when the (possibly refilled) allowance is empty.
pub fn throw_tomato(q: &mut QuotaState, now_ms: i64, post_tomatoes: &mut u64) -> (r: Result<
    (),
    Error,
>)
    requires
        old(q).wf(),
        0 <= now_ms <= MAX_TIMESTAMP_MS,
        *old(post_tomatoes) < u64::MAX,
    ensures
        final(q).wf(),
        *final(q) == spec_consume(*old(q), now_ms).0,
        r is Ok <==> spec_consume(*old(q), now_ms).1,
        r is Err ==> r == Result::<(), Error>::Err(Error::QuotaExhausted),
        *final(post_tomatoes) as int == if r is Ok {
            *old(post_tomatoes) + 1
        } else {
            *old(post_tomatoes) as int
        },
{
    reset_daily_tomatoes(q, now_ms);
    if q.tomatoes == 0 {
        return Err(Error::QuotaExhausted);
    }
    q.tomatoes = q.tomatoes - 1;
    *post_tomatoes = *post_tomatoes + 1;
    Ok(())
}

/// Reads the remaining allowance and how many seconds are left until the
/// window next allows a refill. Runs the reset check first, like every quota
/// operation, so the deadline is never in the past.
pub fn get_tomatoes(q: &mut QuotaState, now_ms: i64) -> (r: (u8, i64))
    requires
        old(q).wf(),
        0 <= now_ms <= MAX_TIMESTAMP_MS,
    ensures
        final(q).wf(),
        *final(q) == spec_reset(*old(q), now_ms),
        r.0 == final(q).tomatoes,
        r.1 == (final(q).last_reset + WINDOW_MS - now_ms) / 1000,
        r.1 >= 0,
{
    reset_daily_tomatoes(q, now_ms);
    (q.tomatoes, (q.last_reset + WINDOW_MS - now_ms) / 1000)
}

/// Relies on `chrono::Utc::now` and `DateTime::timestamp_millis`: the wall
/// clock as milliseconds since the Unix epoch. Nothing can be promised about
/// the value it reads.
#[verifier::external_body]
fn now_utc_millis() -> i64 {
    chrono::Utc::now().timestamp_millis()
}

/// What one clock-timed consumption at `now_ms` leaves behind: exactly the
/// effect of `throw_tomato` at that instant.
pub open spec fn clock_throw_post(
    q0: QuotaState,
    q1: QuotaState,
    c0: u64,
    c1: u64,
    r: Result<(), Error>,
    now_ms: i64,
) -> bool {
    &&& 0 <= now_ms <= MAX_TIMESTAMP_MS
    &&& q1 == spec_consume(q0, now_ms).0
    &&& (r is Ok) == spec_consume(q0, now_ms).1
    &&& (r is Err ==> r == Result::<(), Error>::Err(Error::QuotaExhausted))
    &&& c1 as int == (if r is Ok {
        c0 + 1
    } else {
        c0 as int
    })
}

/// Consumes one tomato at the time the system clock reads now, crediting the
/// target's received count. A clock reading outside the representable
/// timestamp range fails with `Store` and changes nothing; otherwise this is
/// `throw_tomato` at that reading.
pub fn throw_tomato_at_clock(q: &mut QuotaState, post_tomatoes: &mut u64) -> (r: Result<(), Error>)
    requires
        old(q).wf(),
        *old(post_tomatoes) < u64::MAX,
    ensures
        final(q).wf(),
        (r == Result::<(), Error>::Err(Error::Store) && *final(q) == *old(q)
            && *final(post_tomatoes) == *old(post_tomatoes)) || (exists|now_ms: i64| clock_throw_post(
            *old(q),
            *final(q),
            *old(post_tomatoes),
            *final(post_tomatoes),
            r,
            now_ms,
        )),
{
    let now_ms = now_utc_millis();
    if now_ms < 0 || now_ms > MAX_TIMESTAMP_MS {
        return Err(Error::Store);
    }
    let r = throw_tomato(q, now_ms, post_tomatoes);
    proof {
        assert(clock_throw_post(
            *old(q),
            *q,
            *old(post_tomatoes),
            *post_tomatoes,
            r,
            now_ms,
        ));
    }
    r
}

/// Law: after a refill, every further check inside the next full window — in
/// particular every concurrent check serialized just after the first — leaves
/// the quota exactly as the refill left it: the reset happens at most once
/// per elapsed window.
pub proof fn lemma_reset_once_per_window(q: QuotaState, now1: i64, now2: i64)
    requires
        spec_window_elapsed(q, now1),
        now1 <= now2 <= now1 + WINDOW_MS,
    ensures
        spec_reset(q, now1).tomatoes == FULL_ALLOWANCE,
        spec_reset(spec_reset(q, now1), now2) == spec_reset(q, now1),
{
}

/// The quota after a serialized run of reset checks at the given instants.
pub open spec fn spec_reset_chain(q: QuotaState, times: Seq<i64>) -> QuotaState
    decreases times.len(),
{
    if times.len() == 0 {
        q
    } else {
        spec_reset_chain(spec_reset(q, times[0]), times.drop_first())
    }
}

/// Reset checks at instants inside the current window all leave the quota
/// untouched.
pub proof fn lemma_reset_chain_noop(q: QuotaState, times: Seq<i64>)
    requires
        forall|i: int| 0 <= i < times.len() ==> #[trigger] times[i] <= q.last_reset + WINDOW_MS,
    ensures
        spec_reset_chain(q, times) == q,
    decreases times.len(),
{
    if times.len() > 0 {
        assert(times[0] <= q.last_reset + WINDOW_MS);
        assert(spec_reset(q, times[0]) == q);
        assert forall|i: int| 0 <= i < times.drop_first().len() implies #[trigger] times.drop_first()[i]
            <= q.last_reset + WINDOW_MS by {
            assert(times.drop_first()[i] == times[i + 1]);
        }
        lemma_reset_chain_noop(q, times.drop_first());
    }
}

/// Law: in a serialized run of reset checks — the order into which concurrent
/// checks must be serialized — whose first instant sees the window elapsed
/// and whose later instants lie within one window of it, only the first check
/// refills: the run leaves exactly the state of that first refill.
pub proof fn lemma_reset_chain_once(q: QuotaState, times: Seq<i64>)
    requires
        times.len() >= 1,
        spec_window_elapsed(q, times[0]),
        forall|i: int| 1 <= i < times.len() ==> #[trigger] times[i] <= times[0] + WINDOW_MS,
    ensures
        spec_reset_chain(q, times) == spec_reset(q, times[0]),
        spec_reset_chain(q, times).tomatoes == FULL_ALLOWANCE,
        spec_reset_chain(q, times).last_reset == times[0],
{
    let refilled = spec_reset(q, times[0]);
    assert forall|i: int| 0 <= i < times.drop_first().len() implies #[trigger] times.drop_first()[i]
        <= refilled.last_reset + WINDOW_MS by {
        assert(times.drop_first()[i] == times[i + 1]);
    }
    lemma_reset_chain_noop(refilled, times.drop_first());
}

/// Law: from a full allowance, five consumptions inside the window all
/// succeed and the sixth fails with an exhausted quota. `times` are the five
/// consumption instants, in order, none of them past the window.
pub proof fn lemma_five_then_exhausted(q: QuotaState, times: Seq<i64>, t6: i64)
    requires
        q.wf(),
        q.tomatoes == FULL_ALLOWANCE,
        times.len() == 5,
        forall|i: int| 0 <= i < 5 ==> q.last_reset <= #[trigger] times[i],
        forall|i: int| 0 <= i < 5 ==> #[trigger] times[i] <= q.last_reset + WINDOW_MS,
        q.last_reset <= t6 <= q.last_reset + WINDOW_MS,
    ensures
        ({
            let s1 = spec_consume(q, times[0]);
            let s2 = spec_consume(s1.0, times[1]);
            let s3 = spec_consume(s2.0, times[2]);
            let s4 = spec_consume(s3.0, times[3]);
            let s5 = spec_consume(s4.0, times[4]);
            let s6 = spec_consume(s5.0, t6);
            s1.1 && s2.1 && s3.1 && s4.1 && s5.1 && !s6.1 && s6.0.tomatoes == 0
        }),
{
}

} // verus!
