//! Remaining time, and the history it is estimated from.

use crate::app::history;
use crate::app::supervisor::{self, Entry, SourceEvent};
use crate::domain::double;
use crate::domain::estimate::{self, Estimate};
use crate::domain::time::{self, BootTime};
use crate::domain::types::{BatteryReading, ChargeState, DeviceKey};
use crate::laws::registry;
use crate::laws::rounding;
use vstd::prelude::*;

verus! {

/// Whether the steps behind place `start` of a history are all drops of one to
/// five percent, and the step into it is none, unless it is the first edge.
pub open spec fn steady_since(h: Seq<(BootTime, u8)>, start: int) -> bool {
    &&& 1 <= start < h.len()
    &&& forall|k: int| start < k < h.len() ==> 1 <= h[k - 1].1 - (#[trigger] h[k]).1 <= 5
    &&& start == 1 || !(1 <= h[start - 1].1 - h[start].1 <= 5)
}

/// Every history of two points or more is steady since some edge.
pub proof fn a_history_is_steady_since_an_edge(h: Seq<(BootTime, u8)>)
    requires
        h.len() >= 2,
    ensures
        exists|start: int| #[trigger] steady_since(h, start),
{
    estimate::window_holds_plausible_drops(h);
    let start = estimate::window_start(h);
    assert forall|k: int| start < k < h.len() implies 1 <= h[k - 1].1 - (#[trigger] h[k]).1 <= 5 by {
        assert(estimate::plausible_drop(h, k));
    }
    assert(steady_since(h, start));
}

proof fn steady_is_the_window(h: Seq<(BootTime, u8)>, start: int)
    requires
        steady_since(h, start),
    ensures
        estimate::window_start(h) == start,
    decreases h.len(),
{
    if h.len() > 2 {
        if start == h.len() - 1 {
            assert(!estimate::plausible_drop(h, start));
        } else {
            assert(1 <= h[h.len() - 2].1 - h[h.len() - 1].1 <= 5);
            assert(estimate::plausible_drop(h, h.len() - 1));
            let shorter = h.drop_last();
            assert forall|k: int| start < k < shorter.len() implies 1 <= shorter[k - 1].1 - (
            #[trigger] shorter[k]).1 <= 5 by {
                assert(1 <= h[k - 1].1 - h[k].1 <= 5);
            }
            steady_is_the_window(shorter, start);
        }
    }
}

/// There is an estimate exactly for a device that discharges, whose reading is
/// no coarse one, and of which two edges or more at least half an hour apart are
/// known. It divides by the percent that was lost from the first of them to the
/// last, whatever the steps, over the time between the two.
pub proof fn the_rate_is_the_percent_lost_over_the_time_it_took(
    h: Seq<(BootTime, u8)>,
    current: BatteryReading,
    start: int,
)
    requires
        steady_since(h, start),
        0 <= h.last().0@ - h[start].0@ <= i64::MAX,
    ensures
        estimate::has_evidence(h, current) <==> {
            &&& current.state == ChargeState::Discharging
            &&& !current.coarse
            &&& start < h.len() - 1
            &&& h.last().0@ - h[start].0@ >= 1800 * 1_000_000_000
        },
        estimate::window_span(h) == h.last().0@ - h[start].0@,
        estimate::window_drop(h) == h[start].1 - h.last().1,
        estimate::window_drop(h) >= h.len() - 1 - start,
{
    steady_is_the_window(h, start);
    drops_add_up(h, start, h.len() - 1);
}

proof fn drops_add_up(h: Seq<(BootTime, u8)>, from: int, to: int)
    requires
        0 <= from <= to < h.len(),
        forall|k: int| from < k < h.len() ==> 1 <= h[k - 1].1 - (#[trigger] h[k]).1 <= 5,
    ensures
        h[from].1 - h[to].1 >= to - from,
    decreases to - from,
{
    if from < to {
        drops_add_up(h, from, to - 1);
        assert(1 <= h[to - 1].1 - h[to].1 <= 5);
    }
}

/// Two windows over the same time, one of which lost more: it is divided by that
/// much more.
pub proof fn a_faster_loss_is_divided_by_more(
    slow: Seq<(BootTime, u8)>,
    fast: Seq<(BootTime, u8)>,
    i: int,
    j: int,
)
    requires
        steady_since(slow, i),
        steady_since(fast, j),
        fast[j].1 - fast.last().1 > slow[i].1 - slow.last().1,
    ensures
        estimate::window_drop(fast) - estimate::window_drop(slow) == (fast[j].1 - fast.last().1) - (
        slow[i].1 - slow.last().1),
{
    steady_is_the_window(slow, i);
    steady_is_the_window(fast, j);
}

/// What is shown of a remaining time is the nearest hour from three quarters of
/// an hour on, else the nearest quarter of an hour, and a quarter at least.
pub proof fn shown_times_are_the_nearest(nanos: nat)
    ensures
        ({
            let mins = nanos as int / 60_000_000_000;
            let shown = estimate::coarse_secs(nanos) as int;
            &&& mins >= 45 ==> shown % 3600 == 0 && mins * 60 - 1800 < shown <= mins * 60 + 1800
            &&& mins < 45 ==> shown % 900 == 0 && shown >= 900
            &&& 8 <= mins < 45 ==> mins * 60 - 420 <= shown <= mins * 60 + 420
            &&& mins < 8 ==> shown == 900
        }),
{
    let mins = nanos as int / 60_000_000_000;
    assert(nanos / 1_000_000_000 / 60 == mins);
}

/// What an entry of a device whose last reading has evidence behind it is
/// published with.
pub proof fn a_device_with_evidence_has_its_estimate(
    e: Entry,
    start: int,
    r: Estimate,
)
    requires
        steady_since(e.history, start),
        start < e.history.len() - 1,
        1800 * 1_000_000_000 <= e.history.last().0@ - e.history[start].0@ <= i64::MAX,
        e.last_reading is Some,
        e.last_reading->0.state == ChargeState::Discharging,
        !e.last_reading->0.coarse,
        supervisor::is_estimate_of(e, r),
    ensures
        r is Remaining,
        r->Remaining_0@ == estimate::coarse_secs(
            double::time_left(
                e.last_reading->0.percent as nat,
                (e.history.last().0@ - e.history[start].0@) as nat,
                (e.history[start].1 - e.history.last().1) as nat,
            ),
        ) * 1_000_000_000,
{
    the_rate_is_the_percent_lost_over_the_time_it_took(e.history, e.last_reading->0, start);
}

/// What is published lasts as long as the percent there is takes to lose at the
/// rate of the window: its percent times the time over the percent lost in it,
/// to half a nanosecond and seven parts in two to the fifty-first, told as the
/// nearest quarter of an hour or hour.
pub proof fn an_estimate_is_the_percent_left_at_the_measured_rate(
    e: Entry,
    start: int,
    r: Estimate,
) -> (left: nat)
    requires
        steady_since(e.history, start),
        start < e.history.len() - 1,
        1800 * 1_000_000_000 <= e.history.last().0@ - e.history[start].0@ <= i64::MAX,
        e.last_reading is Some,
        e.last_reading->0.state == ChargeState::Discharging,
        !e.last_reading->0.coarse,
        supervisor::is_estimate_of(e, r),
    ensures
        ({
            let percent = e.last_reading->0.percent as int;
            let span = e.history.last().0@ - e.history[start].0@;
            let lost = e.history[start].1 - e.history.last().1;
            let fine = 0x8_0000_0000_0000int;
            &&& lost > 0
            &&& (2 * (left * lost) - lost) * fine <= 2 * (percent * span) * (fine + 7)
            &&& 2 * (percent * span) * fine <= (2 * (left * lost) + lost) * (fine + 7)
        }),
        ({
            let mins = left as int / 60_000_000_000;
            let shown = r->Remaining_0@ as int;
            &&& r is Remaining
            &&& shown % 900_000_000_000 == 0 && shown >= 900_000_000_000
            &&& mins >= 45 ==> shown % 3_600_000_000_000 == 0 && (mins - 30) * 60_000_000_000
                < shown <= (mins + 30) * 60_000_000_000
            &&& 8 <= mins < 45 ==> (mins - 7) * 60_000_000_000 <= shown <= (mins + 7)
                * 60_000_000_000
        }),
{
    a_device_with_evidence_has_its_estimate(e, start, r);
    the_rate_is_the_percent_lost_over_the_time_it_took(e.history, e.last_reading->0, start);
    let percent = e.last_reading->0.percent as nat;
    let span = (e.history.last().0@ - e.history[start].0@) as nat;
    let lost = (e.history[start].1 - e.history.last().1) as nat;
    rounding::the_time_left_is_the_quotient(percent, span, lost);
    let left = double::time_left(percent, span, lost);
    shown_times_are_the_nearest(left);
    left
}

/// A device that charges, is full, or reports in bands, or was never read, is
/// published without an estimate.
pub proof fn no_estimate_without_a_discharge(e: Entry, r: Estimate)
    requires
        supervisor::is_estimate_of(e, r),
        e.last_reading is None || e.last_reading->0.state != ChargeState::Discharging
            || e.last_reading->0.coarse,
    ensures
        r == Estimate::Unknown,
{
}

// --- the history -------------------------------------------------------------

/// Every observation is recorded: the history then ends in that percent. A
/// percent that fell, or the first one, is a point of its own, taken then; the
/// earlier points stand before it, the latest nineteen of them. One that rose
/// begins the history anew, and one that stayed the same leaves it.
pub proof fn every_observation_is_recorded(h: Seq<(BootTime, u8)>, now: BootTime, percent: u8)
    requires
        h.len() <= 20,
    ensures
        ({
            let new = history::observed(h, now, percent);
            &&& new.len() > 0
            &&& new.last().1 == percent
            &&& h.len() == 0 || percent > h.last().1 ==> new == seq![(now, percent)]
            &&& h.len() > 0 && percent == h.last().1 ==> new == h
            &&& h.len() > 0 && percent < h.last().1 ==> {
                &&& new.last() == (now, percent)
                &&& h.len() < 20 ==> new.drop_last() == h
                &&& h.len() == 20 ==> new.drop_last() == h.skip(1)
            }
        }),
{
    let new = history::observed(h, now, percent);
    if h.len() == 0 {
        assert(new =~= seq![(now, percent)]);
    } else if percent > h.last().1 {
        assert(new =~= seq![(now, percent)]);
    } else if percent < h.last().1 {
        if h.len() < 20 {
            assert(new.drop_last() =~= h);
        } else {
            assert(new.drop_last() =~= h.skip(1));
        }
    }
}

/// Every reading is recorded, whatever was read before: it is what the device
/// shows from then on, taken at that time, and its history ends in its percent.
pub proof fn every_reading_is_recorded(e: Entry, reading: BatteryReading, now: BootTime)
    requires
        e.history.len() <= 20,
    ensures
        ({
            let after = supervisor::polled(e, Some(reading), now);
            let h = e.history;
            let new = after.history;
            &&& after.last_reading == Some(reading)
            &&& after.last_seen == Some(now)
            &&& new.len() > 0 && new.last().1 == reading.percent
            &&& h.len() == 0 || reading.percent > h.last().1 ==> new == seq![
                (now, reading.percent),
            ]
            &&& h.len() > 0 && reading.percent == h.last().1 ==> new == h
            &&& h.len() > 0 && reading.percent < h.last().1 ==> {
                &&& new.last() == (now, reading.percent)
                &&& h.len() < 20 ==> new.drop_last() == h
                &&& h.len() == 20 ==> new.drop_last() == h.skip(1)
            }
        }),
{
    every_observation_is_recorded(e.history, now, reading.percent);
}

/// A failed poll adds no point and takes none.
pub proof fn a_failed_poll_records_nothing(e: Entry, now: BootTime)
    ensures
        supervisor::polled(e, None, now).history == e.history,
        supervisor::polled(e, None, now).last_reading == e.last_reading,
        supervisor::polled(e, None, now).last_seen == e.last_seen,
{
}

/// Readings that fall make up the history: after each, the points are those
/// readings at their times.
pub proof fn falling_readings_make_the_history(
    e: Entry,
    first: BatteryReading,
    second: BatteryReading,
    third: BatteryReading,
    a: BootTime,
    b: BootTime,
    c: BootTime,
)
    requires
        e.history.len() == 0,
        first.percent > second.percent > third.percent,
    ensures
        supervisor::polled(
            supervisor::polled(supervisor::polled(e, Some(first), a), Some(second), b),
            Some(third),
            c,
        ).history == seq![(a, first.percent), (b, second.percent), (c, third.percent)],
{
    let one = supervisor::polled(e, Some(first), a);
    let two = supervisor::polled(one, Some(second), b);
    let three = supervisor::polled(two, Some(third), c);
    assert(one.history =~= seq![(a, first.percent)]);
    assert(two.history =~= seq![(a, first.percent), (b, second.percent)]);
    assert(three.history =~= seq![
        (a, first.percent),
        (b, second.percent),
        (c, third.percent),
    ]);
}

/// A stored change point within the clock's reach is a point of the rebuilt
/// history, at its age before now: the latest one is its last.
pub proof fn the_latest_stored_point_is_the_last(
    rows: Seq<(i64, u8)>,
    now: BootTime,
    now_unix: i64,
)
    requires
        rows.len() > 0,
        rows[0].0 <= now_unix,
        (now_unix - rows[0].0) * 1_000_000_000 <= i64::MAX,
        now@ - (now_unix - rows[0].0) * 1_000_000_000 >= i64::MIN,
    ensures
        ({
            let h = history::seeded(rows, now, now_unix);
            let older = history::seeded(rows.drop_first(), now, now_unix);
            &&& h.len() > 0 && h.last().1 == rows[0].1
            &&& older.len() == 0 || older.last().1 != rows[0].1 ==> h.last().0@ == now@ - (now_unix
                - rows[0].0) * 1_000_000_000
        }),
{
    let older = history::seeded(rows.drop_first(), now, now_unix);
    let age = now_unix - rows[0].0;
    let at = history::clock_before(now, history::age_secs(now_unix, rows[0].0));
    assert(at == now@ - age * 1_000_000_000);
    time::in_range(now);
    time::point_reads(at);
}

/// Stored points that fall from the oldest to the latest, no more than a history
/// holds, are the rebuilt history: each with its percent, at its age before now.
pub proof fn stored_points_are_the_history(
    rows: Seq<(i64, u8)>,
    now: BootTime,
    now_unix: i64,
    i: int,
)
    requires
        rows.len() <= 20,
        0 <= i < rows.len(),
        forall|k: int| 0 < k < rows.len() ==> rows[k - 1].1 < (#[trigger] rows[k]).1,
        forall|k: int|
            0 <= k < rows.len() ==> (#[trigger] rows[k]).0 <= now_unix && (now_unix - rows[k].0)
                * 1_000_000_000 <= i64::MAX && now@ - (now_unix - rows[k].0) * 1_000_000_000
                >= i64::MIN,
    ensures
        ({
            let h = history::seeded(rows, now, now_unix);
            &&& h.len() == rows.len()
            &&& h[h.len() - 1 - i].1 == rows[i].1
            &&& h[h.len() - 1 - i].0@ == now@ - (now_unix - rows[i].0) * 1_000_000_000
        }),
    decreases rows.len(),
{
    let older = rows.drop_first();
    let before = history::seeded(older, now, now_unix);
    let h = history::seeded(rows, now, now_unix);
    let at = history::clock_before(now, history::age_secs(now_unix, rows[0].0));
    assert(at == now@ - (now_unix - rows[0].0) * 1_000_000_000);
    time::in_range(now);
    time::point_reads(at);
    assert forall|k: int| 0 <= k < older.len() implies #[trigger] older[k] == rows[k + 1] by {}
    if older.len() == 0 {
        assert(before.len() == 0);
        assert(h =~= seq![(time::point(at), rows[0].1)]);
    } else {
        assert forall|k: int| 0 < k < older.len() implies older[k - 1].1 < (#[trigger] older[k]).1 by {
            assert(rows[k].1 < rows[k + 1].1);
        }
        stored_points_are_the_history(older, now, now_unix, 0);
        assert(before.last().1 == older[0].1);
        assert(rows[0].1 < rows[1].1);
        assert(h =~= before.push((time::point(at), rows[0].1)));
        if i > 0 {
            stored_points_are_the_history(older, now, now_unix, i - 1);
            assert(h[h.len() - 1 - i] == before[before.len() - 1 - (i - 1)]);
        }
    }
}

/// Every reading that a device's task reports is recorded in the device's
/// history, whatever was read of it before, and in that of no other device.
pub proof fn every_live_report_is_recorded(
    s: Seq<Entry>,
    key: DeviceKey,
    generation: u64,
    reading: BatteryReading,
    now: BootTime,
    i: int,
)
    requires
        0 <= i < s.len(),
        s[i].history.len() <= 20,
    ensures
        ({
            let after = supervisor::reported(
                s,
                key,
                generation,
                SourceEvent::Polled(Some(reading)),
                now,
            );
            let h = s[i].history;
            let new = after[i].history;
            if registry::reports_for(s[i], key, generation) {
                &&& new.len() > 0 && new.last().1 == reading.percent
                &&& h.len() == 0 || reading.percent > h.last().1 ==> new == seq![
                    (now, reading.percent),
                ]
                &&& h.len() > 0 && reading.percent == h.last().1 ==> new == h
                &&& h.len() > 0 && reading.percent < h.last().1 ==> {
                    &&& new.last() == (now, reading.percent)
                    &&& h.len() < 20 ==> new.drop_last() == h
                    &&& h.len() == 20 ==> new.drop_last() == h.skip(1)
                }
            } else {
                new == h
            }
        }),
{
    every_reading_is_recorded(s[i], reading, now);
}

} // verus!
