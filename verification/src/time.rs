//! Lengths of time.

use core::time::Duration;
use vstd::prelude::*;

verus! {

/// The nanoseconds that a `Duration` holds.
pub uninterp spec fn nanos(d: Duration) -> nat;

/// The nanoseconds of so many seconds.
pub open spec fn seconds(n: nat) -> nat {
    n * 1_000_000_000
}

/// The whole seconds in so many nanoseconds.
pub open spec fn whole_seconds(n: nat) -> nat {
    n / 1_000_000_000
}

/// The nanoseconds of the longest `Duration`.
pub open spec fn longest() -> nat {
    seconds(u64::MAX as nat) + 999_999_999
}

/// `Duration::from_secs`: so many seconds and nothing more.
pub assume_specification[ Duration::from_secs ](secs: u64) -> (d: Duration)
    ensures
        nanos(d) == seconds(secs as nat),
;

/// `Duration::as_secs`: the whole seconds, without what is left of the last.
pub assume_specification[ Duration::as_secs ](d: &Duration) -> (secs: u64)
    ensures
        secs == whole_seconds(nanos(*d)),
;

/// `Duration::as_nanos`: all of it in nanoseconds.
pub assume_specification[ Duration::as_nanos ](d: &Duration) -> (r: u128)
    ensures
        r == nanos(*d),
;

/// `Duration::checked_mul`: so many times as long, unless that is longer than
/// the longest `Duration`.
pub assume_specification[ Duration::checked_mul ](d: Duration, times: u32) -> (r: Option<Duration>)
    ensures
        match r {
            Some(product) => nanos(product) == nanos(d) * times && nanos(product) <= longest(),
            None => nanos(d) * times > longest(),
        },
;

/// A number of seconds is a thousand million times as many nanoseconds, and is
/// found again in them; what is less than a second more changes nothing.
pub proof fn law_seconds(n: nat, rest: nat)
    requires
        rest < 1_000_000_000,
    ensures
        seconds(n) == n * 1_000_000_000,
        whole_seconds(seconds(n)) == n,
        whole_seconds(seconds(n) + rest) == n,
{
}

} // verus!
