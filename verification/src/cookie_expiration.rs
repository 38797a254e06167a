//! Expiration policy: Max-Age / Expires / session precedence, and evaluation
//! against a point in time.
//!
//! Instants are UTC Unix timestamps in whole seconds. The ambient clock is an
//! external collaborator behind a trusted wrapper; every rule is also exposed
//! with the instant as an explicit argument, where the contract is exact.

use vstd::prelude::*;

verus! {

/// The earliest instant the expiration model represents
/// (-9999-01-01T00:00:00Z, the lower bound of the calendar timestamps the
/// persisted form can carry). A non-positive Max-Age collapses to it.
pub const EARLIEST_INSTANT: i64 = -377705116800;

/// The latest instant the expiration model represents
/// (9999-12-31T23:59:59Z). An out-of-range large Max-Age clamps to it.
pub const LATEST_INSTANT: i64 = 253402300799;

/// When a cookie stops being usable: at an absolute UTC instant (a persistent
/// cookie), or only when the session ends.
#[derive(Clone, Copy, Debug, PartialEq, Eq, Structural)]
pub enum CookieExpiration {
    AtUtc(i64),
    SessionEnd,
}

/// The expiration derived from a Max-Age delta at instant `now`: a
/// non-positive delta collapses to the earliest representable instant, and an
/// out-of-range sum clamps to the bounds instead of overflowing.
pub open spec fn spec_from_max_age(now: int, delta_seconds: int) -> CookieExpiration {
    if delta_seconds <= 0 {
        CookieExpiration::AtUtc(EARLIEST_INSTANT)
    } else if now + delta_seconds > LATEST_INSTANT as int {
        CookieExpiration::AtUtc(LATEST_INSTANT)
    } else if now + delta_seconds < EARLIEST_INSTANT as int {
        CookieExpiration::AtUtc(EARLIEST_INSTANT)
    } else {
        CookieExpiration::AtUtc((now + delta_seconds) as i64)
    }
}

/// Whether the expiration is at or before instant `t`; a session cookie never
/// expires by any supplied instant.
pub open spec fn spec_expires_by(e: CookieExpiration, t: int) -> bool {
    match e {
        CookieExpiration::AtUtc(when) => when <= t,
        CookieExpiration::SessionEnd => false,
    }
}

/// The current UTC instant in whole seconds.
///
/// Relies on `time::OffsetDateTime::now_utc` and `unix_timestamp`: the value
/// depends on the ambient clock, but any `OffsetDateTime` lies within the
/// calendar years -9999 to 9999, so the timestamp lies within the model's
/// bounds.
#[verifier::external_body]
pub(crate) fn now_utc_seconds() -> (r: i64)
    ensures
        EARLIEST_INSTANT <= r <= LATEST_INSTANT,
{
    time::OffsetDateTime::now_utc().unix_timestamp()
}

impl CookieExpiration {
    /// The expiration a Max-Age attribute of `delta_seconds` yields at
    /// instant `now`.
    pub fn from_max_age(now: i64, delta_seconds: i64) -> (r: CookieExpiration)
        ensures
            r == spec_from_max_age(now as int, delta_seconds as int),
    {
        if delta_seconds <= 0 {
            CookieExpiration::AtUtc(EARLIEST_INSTANT)
        } else {
            match now.checked_add(delta_seconds) {
                None => CookieExpiration::AtUtc(LATEST_INSTANT),
                Some(sum) => {
                    if sum > LATEST_INSTANT {
                        CookieExpiration::AtUtc(LATEST_INSTANT)
                    } else if sum < EARLIEST_INSTANT {
                        CookieExpiration::AtUtc(EARLIEST_INSTANT)
                    } else {
                        CookieExpiration::AtUtc(sum)
                    }
                },
            }
        }
    }

    /// The expiration an absolute Expires attribute yields.
    pub fn from_expires(instant: i64) -> (r: CookieExpiration)
        ensures
            r == CookieExpiration::AtUtc(instant),
    {
        CookieExpiration::AtUtc(instant)
    }

    /// Whether this expiration is at or before instant `t`.
    pub fn expires_by(&self, t: i64) -> (r: bool)
        ensures
            r == spec_expires_by(*self, t as int),
    {
        match self {
            CookieExpiration::AtUtc(when) => *when <= t,
            CookieExpiration::SessionEnd => false,
        }
    }

    /// Whether this expiration is at or before the current instant; always
    /// false for a session cookie, always true once forced to the earliest
    /// representable instant.
    pub fn is_expired(&self) -> (r: bool)
        ensures
            *self is SessionEnd ==> !r,
            *self == CookieExpiration::AtUtc(EARLIEST_INSTANT) ==> r,
            exists|t: i64|
                #![auto]
                EARLIEST_INSTANT <= t <= LATEST_INSTANT && r == spec_expires_by(*self, t as int),
    {
        self.expires_by(now_utc_seconds())
    }
}

/// An overflowing Max-Age clamps instead of overflowing: the derived instant
/// always lies within the representable bounds, and a positive delta never
/// yields a session cookie.
pub proof fn lemma_max_age_in_bounds(now: int, delta_seconds: int)
    ensures
        spec_from_max_age(now, delta_seconds) matches CookieExpiration::AtUtc(when)
            && EARLIEST_INSTANT <= when <= LATEST_INSTANT,
{
}

} // verus!
