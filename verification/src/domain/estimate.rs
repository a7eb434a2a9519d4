//! Estimates remaining battery time from observed percent-change history.
//!
//! Most peripheral battery readings cannot support a time estimate at all:
//! BlueZ's GATT Battery Service often reports coarse buckets (100/70/40/10)
//! rather than a real percent, a sleeping device does not discharge at its
//! in-use rate even though the clock keeps moving, and the default 60 s
//! poll interval against a single-digit-percent-per-hour discharge means most
//! consecutive samples are identical. The only usable signal is the edges —
//! the moments the percent was seen to change — observed over a long enough
//! window to distinguish a real discharge rate from a bucket edge or poll
//! jitter. Everything here refuses rather than guesses whenever that
//! evidence is thin — a wrong number is worse than no number.

use crate::domain::double;
use crate::domain::time::{self, BootTime, Duration};
use crate::domain::types::{BatteryReading, ChargeState};
use crate::i18n::{self, Lang, Phrase};
use crate::strings;
use vstd::prelude::*;
use vstd::string::*;

verus! {

/// Below this span between the first and last edge, the trend cannot be told
/// apart from a coincidence of poll timing.
pub const MIN_WINDOW_SECS: u64 = 1800;

/// Two edges are the fewest that bound a measured interval.
pub const MIN_EDGES: usize = 2;

/// A single drop larger than this is not plausible organic discharge at the
/// default poll interval — it is the signature of a coarse-bucket reading
/// (BlueZ Battery Service devices commonly report 100/70/40/10 or similar)
/// or a recalibration jump.
pub const MAX_PLAUSIBLE_STEP: u8 = 5;

/// Longer estimates are shown as "more than this many days": the evidence
/// behind them is a handful of edges days apart.
pub const MAX_SHOWN_DAYS: u64 = 4;

#[derive(Debug, Clone, Copy, PartialEq, Eq, Structural)]
pub enum Estimate {
    /// Not discharging, a coarse reading, or not enough evidence yet.
    Unknown,
    /// On the charger: nothing is running out.
    Charging,
    Remaining(Duration),
}

/// Whether the step into point `k` is a drop that ordinary use explains.
pub open spec fn plausible_drop(history: Seq<(BootTime, u8)>, k: int) -> bool {
    1 <= history[k - 1].1 - history[k].1 <= MAX_PLAUSIBLE_STEP
}

/// The edge the measured window starts at: the last one whose step is
/// implausible (a rise, or too large a drop), else the first edge. The first
/// point is no edge: it is when a level was first seen, not when it was reached.
pub open spec fn window_start(history: Seq<(BootTime, u8)>) -> int
    decreases history.len(),
{
    if history.len() <= 2 {
        1
    } else if !plausible_drop(history, history.len() - 1) {
        history.len() - 1
    } else {
        window_start(history.drop_last())
    }
}

/// The nanoseconds between the window's first edge and the last one.
pub open spec fn window_span(history: Seq<(BootTime, u8)>) -> nat {
    time::elapsed(history.last().0, history[window_start(history)].0)
}

/// The percent lost between the window's first edge and the last one.
pub open spec fn window_drop(history: Seq<(BootTime, u8)>) -> int {
    history[window_start(history)].1 - history.last().1
}

/// Whether there is enough evidence to estimate from.
pub open spec fn has_evidence(history: Seq<(BootTime, u8)>, current: BatteryReading) -> bool {
    &&& current.state == ChargeState::Discharging
    &&& !current.coarse
    &&& history.len() >= 2
    &&& history.len() - window_start(history) >= MIN_EDGES
    &&& window_span(history) >= MIN_WINDOW_SECS * 1_000_000_000
}

/// A span rounded to the precision a noisy signal supports: whole hours from 45
/// minutes up, else the nearest quarter hour, at least one.
pub open spec fn coarse_secs(nanos: nat) -> nat {
    let mins = nanos / 1_000_000_000 / 60;
    if mins < 45 {
        let rounded = ((mins + 7) / 15) * 15;
        (if rounded < 15 {
            15
        } else {
            rounded
        }) * 60
    } else {
        ((mins + 30) / 60) * 3600
    }
}

/// Estimates remaining discharge time from a device's change-point history:
/// one point per observed percent, oldest first.
///
/// The first point is when a level was first *seen*, not when it was reached,
/// so the rate is measured between edges only, from the first to the last.
/// An implausible step — a rise, or a drop above `MAX_PLAUSIBLE_STEP` —
/// restarts the window at that edge rather than disabling the estimate.
pub fn estimate(history: &[(BootTime, u8)], current: BatteryReading) -> (r: Estimate)
    ensures
        !has_evidence(history@, current) ==> r == Estimate::Unknown,
        has_evidence(history@, current) ==> {
            &&& window_drop(history@) >= 1
            &&& r matches Estimate::Remaining(d) && d@ == coarse_secs(
                double::time_left(
                    current.percent as nat,
                    window_span(history@),
                    window_drop(history@) as nat,
                ),
            ) * 1_000_000_000
        },
{
    if current.state != ChargeState::Discharging || current.coarse {
        return Estimate::Unknown;
    }
    if history.len() < 2 {
        return Estimate::Unknown;
    }
    let mut start: usize = 1;
    let mut i: usize = 2;
    assert(history@.take(2).len() == 2);
    while i < history.len()
        invariant
            1 <= start < i <= history@.len(),
            start == window_start(history@.take(i as int)),
            forall|k: int| start < k < i ==> plausible_drop(history@, k),
        decreases history@.len() - i,
    {
        let before: u8 = history[i - 1].1;
        let after: u8 = history[i].1;
        assert(history@.take(i + 1).drop_last() == history@.take(i as int));
        assert(plausible_drop(history@.take(i + 1), i as int) == plausible_drop(
            history@,
            i as int,
        ));
        if after >= before || before - after > MAX_PLAUSIBLE_STEP {
            start = i;
        }
        i += 1;
    }
    assert(history@.take(i as int) == history@);
    let first = history[start];
    let last = history[history.len() - 1];
    let span = last.0.saturating_duration_since(first.0);
    if history.len() - start < MIN_EDGES || span.as_nanos() < MIN_WINDOW_SECS as u128
        * 1_000_000_000 {
        return Estimate::Unknown;
    }
    proof {
        drops_add_up(history@, start as int, history@.len() - 1);
    }
    let drop: u8 = first.1 - last.1;
    let left: u128 = double::lasting(current.percent, span.as_nanos(), drop);
    let secs: u64 = (left / 1_000_000_000) as u64;
    Estimate::Remaining(round_coarse(Duration::from_secs(secs)))
}

/// Plausible drops from `from` to `to` lose at least one percent each.
proof fn drops_add_up(history: Seq<(BootTime, u8)>, from: int, to: int)
    requires
        0 <= from <= to < history.len(),
        forall|k: int| from < k <= to ==> plausible_drop(history, k),
    ensures
        history[from].1 - history[to].1 >= to - from,
    decreases to - from,
{
    if from < to {
        assert(plausible_drop(history, to));
        drops_add_up(history, from, to - 1);
    }
}

/// Rounds a duration to a coarse, honest precision: whole hours at or above
/// 45 minutes, otherwise the nearest 15 minutes (minimum 15m). Never returns
/// a value precise enough to look like `1h 47m` — that precision is not
/// supported by a signal this noisy.
pub fn round_coarse(d: Duration) -> (r: Duration)
    ensures
        r@ == coarse_secs(d@) * 1_000_000_000,
{
    let mins: u64 = d.as_secs() / 60;
    if mins < 45 {
        let rounded: u64 = ((mins + 7) / 15) * 15;
        if rounded < 15 {
            Duration::from_secs(15 * 60)
        } else {
            Duration::from_secs(rounded * 60)
        }
    } else {
        let hours: u64 = (mins + 30) / 60;
        Duration::from_secs(hours * 3600)
    }
}

/// A coarsely rounded remaining time in words.
pub open spec fn coarse_text(nanos: nat, lang: Lang) -> Seq<char> {
    let secs = coarse_secs(nanos);
    if secs > MAX_SHOWN_DAYS * 86_400 {
        ">"@ + strings::decimal(MAX_SHOWN_DAYS as nat) + i18n::wording(Phrase::Days, lang)
    } else if secs < 3600 {
        "~"@ + strings::decimal(secs / 60) + i18n::wording(Phrase::Minutes, lang)
    } else {
        "~"@ + strings::decimal(secs / 3600) + i18n::wording(Phrase::Hours, lang)
    }
}

/// Formats a coarsely-rounded duration as `~2h` or `~45m` (`~2 ч`, `~45 мин`),
/// or as `>4d` (`>4 д`) past `MAX_SHOWN_DAYS`.
pub fn format_coarse(d: Duration, lang: Lang) -> (r: String)
    ensures
        r@ == coarse_text(d@, lang),
{
    let secs: u64 = round_coarse(d).as_secs();
    assert(secs == coarse_secs(d@));
    if secs > MAX_SHOWN_DAYS * 86_400 {
        let mut r = ">".to_owned();
        r.append(strings::decimal_text(MAX_SHOWN_DAYS).as_str());
        r.append(i18n::phrase(Phrase::Days, lang));
        r
    } else if secs < 3600 {
        let mut r = "~".to_owned();
        r.append(strings::decimal_text(secs / 60).as_str());
        r.append(i18n::phrase(Phrase::Minutes, lang));
        r
    } else {
        let mut r = "~".to_owned();
        r.append(strings::decimal_text(secs / 3600).as_str());
        r.append(i18n::phrase(Phrase::Hours, lang));
        r
    }
}

/// An estimate is never more precise than a quarter hour below an hour and a
/// whole hour above, and never shorter than a quarter hour.
pub proof fn estimates_are_coarse(nanos: nat)
    ensures
        coarse_secs(nanos) >= 15 * 60,
        coarse_secs(nanos) < 3600 ==> coarse_secs(nanos) % (15 * 60) == 0,
        coarse_secs(nanos) >= 3600 ==> coarse_secs(nanos) % 3600 == 0,
{
}

/// A longer time is never estimated shorter.
pub proof fn coarse_is_monotone(a: nat, b: nat)
    requires
        a <= b,
    ensures
        coarse_secs(a) <= coarse_secs(b),
{
    let m = (a / 1_000_000_000 / 60) as int;
    let n = (b / 1_000_000_000 / 60) as int;
    vstd::arithmetic::div_mod::lemma_div_is_ordered(a as int, b as int, 1_000_000_000);
    vstd::arithmetic::div_mod::lemma_div_is_ordered(
        a as int / 1_000_000_000,
        b as int / 1_000_000_000,
        60,
    );
    assert(m <= n);
    if n < 45 {
        vstd::arithmetic::div_mod::lemma_div_is_ordered(m + 7, n + 7, 15);
    } else if m < 45 {
        vstd::arithmetic::div_mod::lemma_div_is_ordered(m + 7, 51, 15);
        vstd::arithmetic::div_mod::lemma_div_is_ordered(75, n + 30, 60);
    } else {
        vstd::arithmetic::div_mod::lemma_div_is_ordered(m + 30, n + 30, 60);
    }
}

/// The window has no implausible step behind its first edge, and starts at the
/// first edge or right after an implausible one.
pub proof fn window_holds_plausible_drops(history: Seq<(BootTime, u8)>)
    requires
        history.len() >= 2,
    ensures
        1 <= window_start(history) < history.len(),
        forall|k: int| window_start(history) < k < history.len() ==> plausible_drop(history, k),
        window_start(history) == 1 || !plausible_drop(history, window_start(history)),
    decreases history.len(),
{
    if history.len() > 2 && plausible_drop(history, history.len() - 1) {
        let shorter = history.drop_last();
        window_holds_plausible_drops(shorter);
        assert forall|k: int| window_start(history) < k < history.len() implies plausible_drop(
            history,
            k,
        ) by {
            if k < history.len() - 1 {
                assert(plausible_drop(shorter, k));
            }
        }
        if window_start(history) != 1 {
            assert(!plausible_drop(shorter, window_start(history)));
        }
    }
}

/// What was seen first does not count, neither when nor at which level: it is
/// not known how long that level had already lasted.
pub proof fn first_observation_does_not_count(
    history: Seq<(BootTime, u8)>,
    first: (BootTime, u8),
    current: BatteryReading,
)
    requires
        history.len() >= 2,
    ensures
        has_evidence(history.update(0, first), current) == has_evidence(history, current),
        window_span(history.update(0, first)) == window_span(history),
        window_drop(history.update(0, first)) == window_drop(history),
{
    window_holds_plausible_drops(history);
    same_edges_same_window(history, history.update(0, first));
}

proof fn same_edges_same_window(a: Seq<(BootTime, u8)>, b: Seq<(BootTime, u8)>)
    requires
        a.len() == b.len(),
        forall|k: int| 1 <= k < a.len() ==> (#[trigger] a[k]).1 == (#[trigger] b[k]).1,
    ensures
        window_start(a) == window_start(b),
    decreases a.len(),
{
    if a.len() > 2 {
        assert(a[a.len() - 2].1 == b[a.len() - 2].1 && a[a.len() - 1].1 == b[a.len() - 1].1);
        if plausible_drop(a, a.len() - 1) {
            same_edges_same_window(a.drop_last(), b.drop_last());
        }
    }
}

} // verus!
