//! How long to wait, in milliseconds.

use vstd::arithmetic::power2::{lemma2_to64, lemma_pow2_unfold, pow2};
use vstd::prelude::*;

verus! {

/// The first interval between attempts.
pub const INITIAL_INTERVAL: u64 = 200;

/// By how much an interval grows from one attempt to the next.
pub const INTERVAL_INCREASE_FACTOR: u64 = 2;

/// The longest interval between attempts.
pub const MAX_INTERVAL: u64 = 5_000;

/// How long the first attempt to traverse a NAT waits for an answer.
pub const INITIAL_TIMEOUT: u64 = 15;

/// The longest that an attempt to traverse a NAT waits for an answer.
pub const MAX_TIMEOUT: u64 = 60_000;

/// The smaller of two numbers.
pub open spec fn at_most(n: nat, bound: nat) -> nat {
    if n <= bound {
        n
    } else {
        bound
    }
}

/// The interval after one of `interval`: twice as long, up to [`MAX_INTERVAL`].
pub open spec fn longer_interval(interval: nat) -> nat {
    at_most(interval * INTERVAL_INCREASE_FACTOR as nat, MAX_INTERVAL as nat)
}

/// The timeout after one of `timeout`: longer by a fifth, in whole milliseconds, up to
/// [`MAX_TIMEOUT`].
pub open spec fn longer_timeout(timeout: nat) -> nat {
    at_most(timeout * 6 / 5, MAX_TIMEOUT as nat)
}

/// The interval after one of `interval`.
pub fn next_interval(interval: u64) -> (next: u64)
    requires
        interval <= MAX_INTERVAL,
    ensures
        next == longer_interval(interval as nat),
        next == (if 2 * interval <= 5_000 {
            2 * interval
        } else {
            5_000
        }),
{
    let doubled = interval * INTERVAL_INCREASE_FACTOR;
    if doubled <= MAX_INTERVAL {
        doubled
    } else {
        MAX_INTERVAL
    }
}

/// The timeout after one of `timeout`.
pub fn next_timeout(timeout: u64) -> (next: u64)
    requires
        timeout <= MAX_TIMEOUT,
    ensures
        next == longer_timeout(timeout as nat),
        6 * timeout < 300_005 ==> 5 * next <= 6 * timeout < 5 * next + 5,
        6 * timeout >= 300_005 ==> next == 60_000,
{
    let grown = timeout * 6 / 5;
    if grown <= MAX_TIMEOUT {
        grown
    } else {
        MAX_TIMEOUT
    }
}

/// The interval after `n` waits in vain.
pub open spec fn interval_after(n: nat) -> nat
    decreases n,
{
    if n == 0 {
        INITIAL_INTERVAL as nat
    } else {
        longer_interval(interval_after((n - 1) as nat))
    }
}

/// How long the attempt after `n` waits in vain waits.
pub open spec fn timeout_after(n: nat) -> nat
    decreases n,
{
    if n == 0 {
        INITIAL_TIMEOUT as nat
    } else {
        longer_timeout(timeout_after((n - 1) as nat))
    }
}

/// Intervals double until they reach [`MAX_INTERVAL`], and then stay the same.
pub proof fn intervals_double(n: nat)
    ensures
        interval_after(n) == at_most(INITIAL_INTERVAL as nat * pow2(n), MAX_INTERVAL as nat),
    decreases n,
{
    if n == 0 {
        lemma2_to64();
    } else {
        intervals_double((n - 1) as nat);
        lemma_pow2_unfold(n);
        let power = pow2((n - 1) as nat);
        assert(200 * (2 * power) == 2 * (200 * power));
    }
}

/// No interval is longer than [`MAX_INTERVAL`].
pub(crate) proof fn lemma_interval_at_most(n: nat)
    ensures
        interval_after(n) <= MAX_INTERVAL,
{
}

/// Timeouts grow.
proof fn lemma_timeout_grows(n: nat)
    ensures
        timeout_after(n) <= timeout_after(n + 1),
        timeout_after(n) <= MAX_TIMEOUT,
    decreases n,
{
    if n > 0 {
        lemma_timeout_grows((n - 1) as nat);
    }
}

/// The timeouts of the last attempts.
pub(crate) proof fn lemma_longest_timeout()
    ensures
        timeout_after(19) == 436,
        timeout_after(20) == 523,
{
    assert(timeout_after(0) == 15);
    assert(timeout_after(1) == 18);
    assert(timeout_after(2) == 21);
    assert(timeout_after(3) == 25);
    assert(timeout_after(4) == 30);
    assert(timeout_after(5) == 36);
    assert(timeout_after(6) == 43);
    assert(timeout_after(7) == 51);
    assert(timeout_after(8) == 61);
    assert(timeout_after(9) == 73);
    assert(timeout_after(10) == 87);
    assert(timeout_after(11) == 104);
    assert(timeout_after(12) == 124);
    assert(timeout_after(13) == 148);
    assert(timeout_after(14) == 177);
    assert(timeout_after(15) == 212);
    assert(timeout_after(16) == 254);
    assert(timeout_after(17) == 304);
    assert(timeout_after(18) == 364);
    assert(timeout_after(19) == 436);
    assert(timeout_after(20) == 523);
}

/// Later attempts wait longer.
pub(crate) proof fn lemma_timeout_monotonic(m: nat, n: nat)
    requires
        m <= n,
    ensures
        timeout_after(m) <= timeout_after(n),
    decreases n - m,
{
    if m < n {
        lemma_timeout_grows(m);
        lemma_timeout_monotonic(m + 1, n);
    }
}

/// An interval is followed by twice as much, but never by more than five seconds.
pub proof fn intervals_are_doubled_and_capped(interval: nat)
    ensures
        2 * interval <= 5_000 ==> longer_interval(interval) == 2 * interval,
        2 * interval > 5_000 ==> longer_interval(interval) == 5_000,
{
}

/// A timeout is followed by six fifths of it, less what is left of the last millisecond, but never
/// by more than a minute.
pub proof fn timeouts_grow_by_a_fifth(timeout: nat)
    ensures
        6 * timeout < 300_005 ==> 5 * longer_timeout(timeout) <= 6 * timeout < 5 * longer_timeout(
            timeout,
        ) + 5,
        6 * timeout >= 300_005 ==> longer_timeout(timeout) == 60_000,
{
}

/// The waits and the intervals start with 15 and 200 milliseconds, and each is longer than the one
/// before it by the same rule, however many there were.
pub proof fn backoff_goes_on_by_one_rule(n: nat)
    ensures
        timeout_after(0) == 15,
        interval_after(0) == 200,
        ({
            let (timeout, next) = (timeout_after(n), timeout_after(n + 1));
            if 6 * timeout < 300_005 {
                5 * next <= 6 * timeout < 5 * next + 5
            } else {
                next == 60_000
            }
        }),
        ({
            let (interval, next) = (interval_after(n), interval_after(n + 1));
            if 2 * interval <= 5_000 {
                next == 2 * interval
            } else {
                next == 5_000
            }
        }),
{
    timeouts_grow_by_a_fifth(timeout_after(n));
    intervals_are_doubled_and_capped(interval_after(n));
}

} // verus!
