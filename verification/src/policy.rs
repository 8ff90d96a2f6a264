//! The limits that the whole library goes by.
//!
//! Instants and spans of time are counted in nanoseconds of a clock that never
//! runs backwards.

use vstd::prelude::*;

verus! {

/// Nanoseconds in a second.
pub const NANOS_PER_SECOND: u128 = 1_000_000_000;

/// How long a session lasts, in seconds: fourteen days.
pub const SESSION_LIFETIME_SECS: u64 = 1_209_600;

/// How long a session lasts, in nanoseconds.
pub const SESSION_LIFETIME: u128 = 1_209_600 * NANOS_PER_SECOND;

/// How many failed logins a client may make within one window.
pub const MAX_LOGIN_ATTEMPTS: u32 = 8;

/// How long failed logins are held against a client: fifteen minutes.
pub const LOGIN_ATTEMPT_WINDOW: u128 = 900 * NANOS_PER_SECOND;

/// How long a login may wait for its second factor: five minutes.
pub const PENDING_2FA_LIFETIME: u128 = 300 * NANOS_PER_SECOND;

/// How many backup codes are issued at a time.
pub const BACKUP_CODE_COUNT: usize = 8;

/// The time that has passed at `now` since `then`; none if `then` lies ahead.
pub open spec fn elapsed(then: u128, now: u128) -> int {
    if then <= now {
        now - then
    } else {
        0
    }
}

/// Whether less than `lifetime` has passed at `now` since `then`.
pub open spec fn fresh(then: u128, now: u128, lifetime: u128) -> bool {
    elapsed(then, now) < lifetime
}

/// Whether less than `lifetime` has passed at `now` since `then`.
pub fn is_fresh(then: u128, now: u128, lifetime: u128) -> (b: bool)
    ensures
        b == fresh(then, now, lifetime),
{
    let age: u128 = if then <= now {
        now - then
    } else {
        0
    };
    age < lifetime
}

} // verus!
