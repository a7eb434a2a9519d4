//! Exponential backoff policy for the bus watchers' supervising retry loops:
//! growth, the cap, and the reset rule.

use crate::domain::time::Duration;
use vstd::prelude::*;

verus! {

/// Seconds before the first retry after a watcher's attempt ends.
pub const INITIAL_DELAY: u64 = 1;

/// The delay never grows past this many seconds: a bus that is genuinely gone
/// does not make the watcher spin, and one that comes back is not kept waiting
/// long.
pub const MAX_DELAY: u64 = 60;

/// An attempt that ran at least this many seconds counts as a working session:
/// the next failure's backoff starts over at `INITIAL_DELAY` instead of
/// inheriting a delay built up from an earlier, unrelated outage.
pub const HEALTHY_RUN: u64 = 60;

/// The nanoseconds to wait after a wait of `current` nanoseconds.
pub open spec fn delay_after(current: nat) -> nat {
    if 2 * current <= MAX_DELAY * 1_000_000_000 {
        2 * current
    } else {
        (MAX_DELAY * 1_000_000_000) as nat
    }
}

/// The delay to use after `current`: doubles, capped at `MAX_DELAY`.
pub fn next_delay(current: Duration) -> (next: Duration)
    ensures
        next@ == delay_after(current@),
{
    let doubled = current.saturating_double();
    let cap = Duration::from_secs(MAX_DELAY);
    if doubled.as_nanos() <= cap.as_nanos() {
        doubled
    } else {
        cap
    }
}

/// Whether an attempt that ran for `ran_for` counts as a working session and
/// should reset the backoff to `INITIAL_DELAY` before the next failure.
pub fn is_healthy_run(ran_for: Duration) -> (r: bool)
    ensures
        r == (ran_for@ >= HEALTHY_RUN * 1_000_000_000),
{
    ran_for.as_nanos() >= HEALTHY_RUN as u128 * 1_000_000_000
}

/// The nanoseconds to wait before the retry that follows `failures` failed ones.
pub open spec fn delay_before(failures: nat) -> nat
    decreases failures,
{
    if failures == 0 {
        (INITIAL_DELAY * 1_000_000_000) as nat
    } else {
        delay_after(delay_before((failures - 1) as nat))
    }
}

/// The delay never shrinks while failures go on, never passes the cap, and
/// stays at the cap once there.
pub proof fn delays_grow_to_the_cap(failures: nat)
    ensures
        delay_before(failures) <= delay_before(failures + 1),
        INITIAL_DELAY * 1_000_000_000 <= delay_before(failures) <= MAX_DELAY * 1_000_000_000,
        failures >= 6 ==> delay_before(failures) == MAX_DELAY * 1_000_000_000,
    decreases failures,
{
    if failures > 0 {
        delays_grow_to_the_cap((failures - 1) as nat);
        if failures == 6 {
            reveal_with_fuel(delay_before, 8);
        }
    }
}

} // verus!
