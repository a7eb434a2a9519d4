//! A device's percent-change history, which the remaining-time estimate rests on.

use crate::domain::time::{self, BootTime, Duration};
use vstd::prelude::*;

verus! {

/// Cap on the retained percent-change history per device. Only points where
/// the percent changed are kept, so this is naturally small; the cap exists so
/// a device left running for weeks cannot grow it without bound. 20 points is
/// generous for the multi-hour windows the estimator needs.
pub const HISTORY_CAP: usize = 20;

/// The history after one more observation: unchanged if the percent is, begun
/// anew if it rose, and without its oldest point if it grew past the cap.
pub open spec fn observed(history: Seq<(BootTime, u8)>, now: BootTime, percent: u8) -> Seq<
    (BootTime, u8),
> {
    if history.len() > 0 && history.last().1 == percent {
        history
    } else {
        let base = if history.len() > 0 && history.last().1 < percent {
            Seq::empty()
        } else {
            history
        };
        let grown = base.push((now, percent));
        if grown.len() > HISTORY_CAP {
            grown.drop_first()
        } else {
            grown
        }
    }
}

/// Applies one percent observation to a change-point history in place. A
/// percent equal to the last recorded one is not a transition and is
/// dropped — most polls see no change at the default interval, and only the
/// change points carry a discharge-rate signal. An increase (charging, or a
/// device re-reporting after a battery swap) invalidates any discharge trend
/// observed so far, so it clears the history before recording the new
/// baseline. The result is capped at `HISTORY_CAP`, oldest dropped first.
///
/// Shared between live polling and seeding a freshly (re)discovered device's
/// history from the state store, so a reading replayed from disk is reduced
/// exactly the way a live one would have been.
pub fn push_history_point(history: &mut Vec<(BootTime, u8)>, now: BootTime, percent: u8)
    ensures
        final(history)@ == observed(old(history)@, now, percent),
{
    let ghost before = history@;
    let n: usize = history.len();
    if n > 0 {
        let last: u8 = history[n - 1].1;
        if last == percent {
            return;
        }
        if last < percent {
            history.clear();
        }
    }
    history.push((now, percent));
    if history.len() > HISTORY_CAP {
        history.remove(0);
        assert(history@ =~= before.push((now, percent)).drop_first());
    }
}

/// Whether a history holds at most `HISTORY_CAP` points, each lower than the
/// one before.
pub open spec fn is_falling(history: Seq<(BootTime, u8)>) -> bool {
    &&& history.len() <= HISTORY_CAP
    &&& forall|i: int, j: int|
        0 <= i < j < history.len() ==> (#[trigger] history[i]).1 > (#[trigger] history[j]).1
}

/// Every observation leaves a falling history falling.
pub proof fn histories_fall(history: Seq<(BootTime, u8)>, now: BootTime, percent: u8)
    requires
        is_falling(history),
    ensures
        is_falling(observed(history, now, percent)),
{
    let new = observed(history, now, percent);
    if history.len() > 0 && history.last().1 == percent {
    } else if history.len() > 0 && history.last().1 < percent {
    } else {
        let grown = history.push((now, percent));
        assert forall|i: int, j: int| 0 <= i < j < grown.len() implies (#[trigger] grown[i]).1 > (
        #[trigger] grown[j]).1 by {
            if j == history.len() && i < history.len() - 1 {
                assert(history[i].1 > history[history.len() - 1].1);
            }
        }
    }
}

/// Seeing the same percent again changes nothing: only transitions count.
pub proof fn repeated_percent_is_no_point(
    history: Seq<(BootTime, u8)>,
    now: BootTime,
    later: BootTime,
    percent: u8,
)
    ensures
        observed(observed(history, now, percent), later, percent) == observed(
            history,
            now,
            percent,
        ),
{
}

/// How long before `now_unix` the wall-clock second `at` was; nothing for one
/// that is not before it.
pub open spec fn age_secs(now_unix: i64, at: i64) -> nat {
    if at >= now_unix {
        0
    } else if now_unix - at <= i64::MAX {
        (now_unix - at) as nat
    } else {
        i64::MAX as nat
    }
}

/// The reading of the boot clock `secs` seconds before `now`.
pub open spec fn clock_before(now: BootTime, secs: nat) -> int {
    now@ - if secs * 1_000_000_000 <= i64::MAX {
        secs * 1_000_000_000
    } else {
        i64::MAX as nat
    }
}

/// The history that stored change points amount to. `rows` are wall-clock
/// seconds and percents, most recent first.
pub open spec fn seeded(rows: Seq<(i64, u8)>, now: BootTime, now_unix: i64) -> Seq<(BootTime, u8)>
    decreases rows.len(),
{
    if rows.len() == 0 {
        Seq::empty()
    } else {
        let older = seeded(rows.drop_first(), now, now_unix);
        let at = clock_before(now, age_secs(now_unix, rows[0].0));
        if at < i64::MIN {
            older
        } else {
            observed(older, time::point(at), rows[0].1)
        }
    }
}

/// Rebuilds a freshly (re)discovered device's in-memory change-point history
/// from the state store's rows, so an estimate has data to work with without
/// waiting out a fresh window after every restart. The rows are change points,
/// most recent first; they are replayed in chronological order through
/// `push_history_point` — the same reduction a live poll would apply — so an
/// increase partway through the persisted history still clears what came
/// before it, exactly as it would live.
///
/// Each stored wall-clock timestamp is converted once, by its age, to a
/// `BootTime` — negative for a reading from before this boot.
pub fn seed_history(rows: &Vec<(i64, u8)>, now: BootTime, now_unix: i64) -> (history: Vec<
    (BootTime, u8),
>)
    ensures
        history@ == seeded(rows@, now, now_unix),
        is_falling(history@),
{
    let mut history: Vec<(BootTime, u8)> = Vec::new();
    let mut left: usize = rows.len();
    assert(rows@.skip(left as int) == Seq::<(i64, u8)>::empty());
    while left > 0
        invariant
            left <= rows@.len(),
            history@ == seeded(rows@.skip(left as int), now, now_unix),
            is_falling(history@),
        decreases left,
    {
        let row = rows[left - 1];
        assert(rows@.skip(left - 1).drop_first() == rows@.skip(left as int));
        assert(rows@.skip(left - 1)[0] == row);
        let gap: i128 = now_unix as i128 - row.0 as i128;
        let age: u64 = if gap <= 0 {
            0
        } else if gap <= 0x7fff_ffff_ffff_ffff {
            gap as u64
        } else {
            0x7fff_ffff_ffff_ffff
        };
        match now.checked_sub(Duration::from_secs(age)) {
            Some(at) => {
                proof {
                    time::point_of_view(at);
                    histories_fall(history@, at, row.1);
                }
                push_history_point(&mut history, at, row.1);
            },
            None => {},
        }
        left -= 1;
    }
    assert(rows@.skip(0) == rows@);
    history
}

} // verus!
