//! The live roster: what reports and discovery sweeps make of its devices.

use crate::app::history;
use crate::app::supervisor::{self, Entry, Found, Roll, Seen, SourceEvent, TaskAction};
use crate::domain::time::BootTime;
use crate::domain::types::{self, DeviceKey, DeviceState, Presence};
use vstd::prelude::*;

verus! {

// --- reports -----------------------------------------------------------------

/// Whether the task of `generation` polls this entry's device, and that is the
/// device of `key`.
pub open spec fn reports_for(e: Entry, key: DeviceKey, generation: u64) -> bool {
    &&& e.info.name@ == key.name
    &&& e.info.transport == key.transport
    &&& types::locator_text(e.info.locator) == key.locator
    &&& e.task == Some(generation)
}

/// A report changes the device it is about, and no other.
pub proof fn a_report_changes_no_other_device(
    s: Seq<Entry>,
    key: DeviceKey,
    generation: u64,
    event: SourceEvent,
    now: BootTime,
    i: int,
)
    requires
        0 <= i < s.len(),
        !reports_for(s[i], key, generation),
    ensures
        supervisor::reported(s, key, generation, event, now).len() == s.len(),
        supervisor::reported(s, key, generation, event, now)[i] == s[i],
{
}

/// What a live report makes of its device. A reading brings it online and is
/// kept; a failed poll counts, and the third in a row makes it unreachable; a
/// refusal shows as one; a device whose node went to another is disconnected.
/// Only a reading replaces the reading that is kept.
pub proof fn a_live_report_is_taken(
    s: Seq<Entry>,
    key: DeviceKey,
    generation: u64,
    event: SourceEvent,
    now: BootTime,
    i: int,
)
    requires
        0 <= i < s.len(),
        reports_for(s[i], key, generation),
    ensures
        ({
            let e = s[i];
            let after = supervisor::reported(s, key, generation, event, now)[i];
            &&& after.info == e.info
            &&& after.backend == e.backend
            &&& event matches SourceEvent::Polled(Some(r)) ==> {
                &&& after.presence == Presence::Online
                &&& after.failures == 0
                &&& after.last_reading == Some(r)
                &&& after.last_seen == Some(now)
                &&& after.task == Some(generation)
            }
            &&& !(event is Polled && event->Polled_0 is Some) ==> {
                &&& after.last_reading == e.last_reading
                &&& after.last_seen == e.last_seen
                &&& after.history == e.history
            }
            &&& event == SourceEvent::Polled(None) ==> {
                &&& e.failures < u32::MAX ==> after.failures == e.failures + 1
                &&& e.failures + 1 < 3 ==> after.presence == e.presence
                &&& e.failures + 1 >= 3 ==> after.presence == Presence::Unreachable
                &&& after.task == Some(generation)
            }
            &&& event is AccessDenied ==> {
                &&& after.presence == Presence::NoAccess
                &&& after.task == Some(generation)
            }
            &&& event is NodeReassigned ==> {
                &&& after.presence == Presence::Disconnected
                &&& after.failures == 0
                &&& after.task is None
            }
        }),
{
}

/// What is published of a device is what is known of it.
pub proof fn what_is_known_is_published(d: DeviceState, e: Entry)
    requires
        supervisor::shows_entry(d, e),
    ensures
        d.info == e.info,
        d.last_reading == e.last_reading,
        d.last_seen == e.last_seen,
        d.presence == e.presence,
        supervisor::is_estimate_of(e, d.estimate),
{
}

// --- sweeps ------------------------------------------------------------------

/// Whether the sweep found the device of `key` under another name before: it was
/// seen to be renamed from it.
pub open spec fn renames_from(f: Found, key: DeviceKey) -> bool {
    &&& f.seen matches Some(Seen::Renamed { from }) && from@ == key.name
    &&& f.info.transport == key.transport
    &&& types::locator_text(f.info.locator) == key.locator
}

/// Whether the sweep found the device of `key` at place `j` only, and renamed
/// none away from it.
pub open spec fn found_once(found: Seq<Found>, j: int, key: DeviceKey) -> bool {
    &&& 0 <= j < found.len()
    &&& found[j].info.key() == key
    &&& forall|i: int| 0 <= i < found.len() && i != j ==> (#[trigger] found[i]).info.key() != key
    &&& forall|i: int| 0 <= i < found.len() ==> !renames_from(#[trigger] found[i], key)
}

/// Whether the sweep did not find the device of `key`, nor renamed it away.
pub open spec fn not_found(found: Seq<Found>, key: DeviceKey) -> bool {
    &&& forall|i: int| 0 <= i < found.len() ==> (#[trigger] found[i]).info.key() != key
    &&& forall|i: int| 0 <= i < found.len() ==> !renames_from(#[trigger] found[i], key)
}

proof fn renames_are_old_keys(f: Found, key: DeviceKey)
    ensures
        renames_from(f, key) == (supervisor::old_key(f) == Some(key)),
{
}

proof fn not_found_is_not_fresh(found: Seq<Found>, key: DeviceKey)
    requires
        not_found(found, key),
    ensures
        !supervisor::fresh_keys(found).contains(key),
        !supervisor::is_renamed_away(found, key),
{
    let fresh = supervisor::fresh_keys(found);
    if fresh.contains(key) {
        let i = fresh.index_of(key);
        assert(found[i].info.key() == key);
    }
    assert forall|i: int| 0 <= i < found.len() implies supervisor::old_key(#[trigger] found[i])
        != Some(key) by {
        renames_are_old_keys(found[i], key);
    }
}

/// Taking in another device spares an entry.
proof fn one_more_spares(
    r: Roll,
    f: Found,
    ended: Seq<u64>,
    now: BootTime,
    now_unix: i64,
    e: Entry,
)
    requires
        r.entries.contains(e),
        f.info.key() != e.key(),
        !renames_from(f, e.key()),
    ensures
        supervisor::admitted(r, f, ended, now, now_unix).entries.contains(e),
{
    renames_are_old_keys(f, e.key());
    let s = supervisor::without_old_name(r.entries, f);
    match supervisor::old_key(f) {
        Some(k) => {
            supervisor::filter_keeps(r.entries, |x: Entry| x.key() != k, e);
        },
        None => {},
    }
    let m = s.index_of(e);
    let t = supervisor::admitted(r, f, ended, now, now_unix).entries;
    assert(s[m] == e);
    assert(t[m] == e);
}

/// Taking in other devices adds no entry of this one.
proof fn others_add_none(
    r: Roll,
    found: Seq<Found>,
    ended: Seq<u64>,
    now: BootTime,
    now_unix: i64,
    key: DeviceKey,
)
    requires
        supervisor::is_roll(r.entries),
        !supervisor::has_device(r.entries, key),
        forall|i: int| 0 <= i < found.len() ==> (#[trigger] found[i]).info.key() != key,
    ensures
        !supervisor::has_device(
            supervisor::admitted_all(r, found, ended, now, now_unix).entries,
            key,
        ),
    decreases found.len(),
{
    if found.len() > 0 {
        let earlier = found.drop_last();
        let f = found.last();
        assert(found[found.len() - 1] == f);
        assert forall|i: int| 0 <= i < earlier.len() implies (#[trigger] earlier[i]).info.key()
            != key by {
            assert(found[i] == earlier[i]);
        }
        others_add_none(r, earlier, ended, now, now_unix, key);
        let before = supervisor::admitted_all(r, earlier, ended, now, now_unix);
        supervisor::admitting_polls(r, earlier, ended, now, now_unix);
        let s = supervisor::without_old_name(before.entries, f);
        match supervisor::old_key(f) {
            Some(k) => {
                supervisor::filter_keeps_roll(before.entries, |x: Entry| x.key() != k);
            },
            None => {},
        }
        let t = supervisor::admitted(before, f, ended, now, now_unix).entries;
        assert forall|i: int| 0 <= i < t.len() implies (#[trigger] t[i]).key() != key by {
            if i < s.len() {
                assert(s.contains(s[i]));
                let m = before.entries.index_of(s[i]);
                assert(before.entries[m].key() == t[i].key());
            }
        }
    }
}

/// What a sweep makes of a device it found, given what was known of it.
spec fn is_taken_in(
    known: Option<Entry>,
    f: Found,
    ended: Seq<u64>,
    now: BootTime,
    now_unix: i64,
    e: Entry,
) -> bool {
    match known {
        None => exists|g: u64| e == #[trigger] supervisor::found_first(f, g, now, now_unix),
        Some(k) => if k.task is Some && !ended.contains(k.task->0) {
            e == k
        } else {
            exists|g: u64| e == #[trigger] supervisor::found_again(k, f, g)
        },
    }
}

proof fn starts_are_ordered_by_place(
    r: Roll,
    found: Seq<Found>,
    ended: Seq<u64>,
    now: BootTime,
    now_unix: i64,
)
    requires
        found.len() <= usize::MAX,
    ensures
        forall|k: int|
            0 <= k < supervisor::admit_all_actions(r, found, ended, now, now_unix).len() && (
            #[trigger] supervisor::admit_all_actions(r, found, ended, now, now_unix)[k]) is Spawn
                ==> supervisor::admit_all_actions(
                r,
                found,
                ended,
                now,
                now_unix,
            )[k]->Spawn_found < found.len(),
    decreases found.len(),
{
    if found.len() > 0 {
        starts_are_ordered_by_place(r, found.drop_last(), ended, now, now_unix);
    }
}

/// Whether a sweep asks for its `j`th device to be polled under a generation.
pub open spec fn is_started(actions: Seq<TaskAction>, j: int, generation: u64) -> bool {
    actions.contains(TaskAction::Spawn { found: j as usize, generation })
}

/// Whether a sweep does not ask for its `j`th device to be polled.
pub open spec fn is_not_started(actions: Seq<TaskAction>, j: int) -> bool {
    forall|k: int|
        0 <= k < actions.len() && (#[trigger] actions[k]) is Spawn ==> actions[k]->Spawn_found != j
}

proof fn found_is_taken_in(
    r: Roll,
    found: Seq<Found>,
    j: int,
    ended: Seq<u64>,
    now: BootTime,
    now_unix: i64,
    key: DeviceKey,
    known: Option<Entry>,
) -> (e: Entry)
    requires
        supervisor::is_roll(r.entries),
        found_once(found, j, key),
        match known {
            None => !supervisor::has_device(r.entries, key),
            Some(k) => r.entries.contains(k) && k.key() == key,
        },
    ensures
        supervisor::admitted_all(r, found, ended, now, now_unix).entries.contains(e),
        is_taken_in(known, found[j], ended, now, now_unix, e),
        e.key() == key,
        found.len() <= usize::MAX ==> {
            let actions = supervisor::admit_all_actions(r, found, ended, now, now_unix);
            if known is Some && known->0.task is Some && !ended.contains(known->0.task->0) {
                is_not_started(actions, j)
            } else {
                e.task is Some && is_started(actions, j, e.task->0)
            }
        },
    decreases found.len(),
{
    let before_actions = supervisor::admit_all_actions(r, found.drop_last(), ended, now, now_unix);
    let actions = supervisor::admit_all_actions(r, found, ended, now, now_unix);
    if found.len() <= usize::MAX {
        starts_are_ordered_by_place(r, found.drop_last(), ended, now, now_unix);
    }
    let earlier = found.drop_last();
    let f = found.last();
    let before = supervisor::admitted_all(r, earlier, ended, now, now_unix);
    assert(found[found.len() - 1] == f);
    assert forall|i: int| 0 <= i < earlier.len() implies (#[trigger] earlier[i]) == found[i] by {}
    if j < found.len() - 1 {
        assert(earlier[j] == found[j]);
        let e = found_is_taken_in(r, earlier, j, ended, now, now_unix, key, known);
        one_more_spares(before, f, ended, now, now_unix, e);
        if found.len() <= usize::MAX && e.task is Some && is_started(
            before_actions,
            j,
            e.task->0,
        ) {
            let start = TaskAction::Spawn { found: j as usize, generation: e.task->0 };
            assert(actions[before_actions.index_of(start)] == start);
        }
        e
    } else {
        assert(not_found(earlier, key));
        supervisor::admitting_polls(r, earlier, ended, now, now_unix);
        renames_are_old_keys(f, key);
        let s = supervisor::without_old_name(before.entries, f);
        let g = supervisor::next_generation(before.last_generation);
        let t = supervisor::admitted(before, f, ended, now, now_unix).entries;
        match supervisor::old_key(f) {
            Some(k) => {
                supervisor::filter_keeps_roll(before.entries, |x: Entry| x.key() != k);
            },
            None => {},
        }
        match known {
            None => {
                others_add_none(r, earlier, ended, now, now_unix, key);
                assert(!supervisor::has_device(s, key)) by {
                    if supervisor::has_device(s, key) {
                        let i = choose|i: int| 0 <= i < s.len() && (#[trigger] s[i]).key() == key;
                        assert(s.contains(s[i]));
                        let m = before.entries.index_of(s[i]);
                        assert(before.entries[m].key() == key);
                    }
                }
                let e = supervisor::found_first(f, g, now, now_unix);
                assert(t[t.len() - 1] == e);
                assert(actions[actions.len() - 1] == (TaskAction::Spawn {
                    found: earlier.len() as usize,
                    generation: g,
                }));
                e
            },
            Some(k) => {
                not_found_is_not_fresh(earlier, key);
                supervisor::admitting_spares_others(r, earlier, ended, now, now_unix, k);
                match supervisor::old_key(f) {
                    Some(o) => {
                        supervisor::filter_keeps(before.entries, |x: Entry| x.key() != o, k);
                    },
                    None => {},
                }
                let m = s.index_of(k);
                assert(s[m] == k);
                supervisor::entry_is_unique(s, m);
                if k.task is Some && !ended.contains(k.task->0) {
                    assert(t[m] == k);
                    k
                } else {
                    let e = supervisor::found_again(k, f, g);
                    assert(t[m] == e);
                    assert(actions[actions.len() - 1] == (TaskAction::Spawn {
                        found: earlier.len() as usize,
                        generation: g,
                    }));
                    e
                }
            },
        }
    }
}

/// What is left of an entry at the end of a sweep that found its device.
proof fn the_found_stay(
    r: Roll,
    found: Seq<Found>,
    j: int,
    succeeded: Seq<Seq<char>>,
    ended: Seq<u64>,
    now: BootTime,
    now_unix: i64,
    end: BootTime,
    e: Entry,
)
    requires
        0 <= j < found.len(),
        found[j].info.key() == e.key(),
        supervisor::admitted_all(r, found, ended, now, now_unix).entries.contains(e),
        !is_forgotten(e, end),
    ensures
        supervisor::reconciled(
            r,
            found,
            succeeded,
            ended,
            now,
            now_unix,
            end,
        ).entries.contains(e),
{
    let fresh = supervisor::fresh_keys(found);
    assert(fresh[j] == e.key());
    let a = supervisor::admitted_all(r, found, ended, now, now_unix).entries;
    let d = supervisor::demoted(a, fresh, succeeded, ended);
    let t = supervisor::retired(d, fresh, succeeded);
    let k = a.index_of(e);
    assert(a[k] == e);
    assert(d[k] == e);
    assert(t[k] == e);
    supervisor::filter_keeps(t, |x: Entry| !supervisor::is_stale(x, end), e);
}

/// Whether a disconnected device has nothing left to remember: it was never
/// read, or not within a day.
pub open spec fn is_forgotten(e: Entry, now: BootTime) -> bool {
    e.presence == Presence::Disconnected && (e.last_seen is None || now@ - e.last_seen->0@ > 86_400
        * 1_000_000_000)
}

/// What taking the found in asks for is asked for in the end, and what is asked
/// for beyond that starts nothing.
proof fn actions_are_kept(
    r: Roll,
    found: Seq<Found>,
    succeeded: Seq<Seq<char>>,
    ended: Seq<u64>,
    now: BootTime,
    now_unix: i64,
    end: BootTime,
)
    ensures
        ({
            let first = supervisor::admit_all_actions(r, found, ended, now, now_unix);
            let all = supervisor::reconcile_actions(
                r,
                found,
                succeeded,
                ended,
                now,
                now_unix,
                end,
            );
            &&& forall|a: TaskAction| #[trigger] first.contains(a) ==> all.contains(a)
            &&& forall|j: int| #[trigger] is_not_started(first, j) ==> is_not_started(all, j)
        }),
{
    let first = supervisor::admit_all_actions(r, found, ended, now, now_unix);
    let all = supervisor::reconcile_actions(r, found, succeeded, ended, now, now_unix, end);
    assert forall|a: TaskAction| #[trigger] first.contains(a) implies all.contains(a) by {
        assert(all[first.index_of(a)] == a);
    }
    assert forall|j: int| #[trigger] is_not_started(first, j) implies is_not_started(all, j) by {
        assert forall|k: int| 0 <= k < all.len() && (#[trigger] all[k]) is Spawn implies all[
            k]->Spawn_found != j by {
            if k < first.len() {
                assert(first[k] == all[k]);
            }
        }
    }
}

/// A device found for the first time is listed, without a reading and with the
/// history that is stored of it, and it is polled: the sweep asks for its task.
pub proof fn a_new_device_is_listed_and_polled(
    r: Roll,
    found: Seq<Found>,
    j: int,
    succeeded: Seq<Seq<char>>,
    ended: Seq<u64>,
    now: BootTime,
    now_unix: i64,
    end: BootTime,
) -> (e: Entry)
    requires
        supervisor::is_roll(r.entries),
        0 <= j < found.len(),
        found_once(found, j, found[j].info.key()),
        !supervisor::has_device(r.entries, found[j].info.key()),
    ensures
        supervisor::reconciled(
            r,
            found,
            succeeded,
            ended,
            now,
            now_unix,
            end,
        ).entries.contains(e),
        e.info == found[j].info,
        e.backend == found[j].backend@,
        e.presence == Presence::Unreachable,
        e.last_reading is None,
        e.last_seen is None,
        e.failures == 0,
        e.history == history::seeded(found[j].rows@, now, now_unix),
        e.task is Some,
        found.len() <= usize::MAX ==> is_started(
            supervisor::reconcile_actions(r, found, succeeded, ended, now, now_unix, end),
            j,
            e.task->0,
        ),
{
    let key = found[j].info.key();
    actions_are_kept(r, found, succeeded, ended, now, now_unix, end);
    let e = found_is_taken_in(r, found, j, ended, now, now_unix, key, None);
    the_found_stay(r, found, j, succeeded, ended, now, now_unix, end, e);
    e
}

/// A device that is polled, and found again, stays exactly as it was, and is not
/// polled a second time.
pub proof fn a_polled_device_is_left_alone(
    r: Roll,
    found: Seq<Found>,
    j: int,
    succeeded: Seq<Seq<char>>,
    ended: Seq<u64>,
    now: BootTime,
    now_unix: i64,
    end: BootTime,
    known: Entry,
)
    requires
        supervisor::is_roll(r.entries),
        r.entries.contains(known),
        found_once(found, j, known.info.key()),
        known.task is Some,
        !ended.contains(known.task->0),
        !is_forgotten(known, end),
    ensures
        supervisor::reconciled(
            r,
            found,
            succeeded,
            ended,
            now,
            now_unix,
            end,
        ).entries.contains(known),
        found.len() <= usize::MAX ==> is_not_started(
            supervisor::reconcile_actions(r, found, succeeded, ended, now, now_unix, end),
            j,
        ),
{
    actions_are_kept(r, found, succeeded, ended, now, now_unix, end);
    let e = found_is_taken_in(
        r,
        found,
        j,
        ended,
        now,
        now_unix,
        known.info.key(),
        Some(known),
    );
    the_found_stay(r, found, j, succeeded, ended, now, now_unix, end, e);
}

/// A device that comes back, or whose task ended, is polled again and keeps
/// what was read of it. One whose task ended by itself is unreachable until a
/// poll says otherwise.
pub proof fn a_device_that_comes_back_keeps_its_reading(
    r: Roll,
    found: Seq<Found>,
    j: int,
    succeeded: Seq<Seq<char>>,
    ended: Seq<u64>,
    now: BootTime,
    now_unix: i64,
    end: BootTime,
    known: Entry,
) -> (e: Entry)
    requires
        supervisor::is_roll(r.entries),
        r.entries.contains(known),
        found_once(found, j, known.info.key()),
        known.task is None || ended.contains(known.task->0),
        !is_forgotten(known, end),
    ensures
        supervisor::reconciled(
            r,
            found,
            succeeded,
            ended,
            now,
            now_unix,
            end,
        ).entries.contains(e),
        e.info.key() == known.info.key(),
        e.last_reading == known.last_reading,
        e.last_seen == known.last_seen,
        e.history == known.history,
        e.backend == found[j].backend@,
        e.task is Some,
        known.task is None ==> e.presence == known.presence && e.failures == known.failures
            && e.info == found[j].info,
        known.task is Some ==> e.presence == Presence::Unreachable && e.failures == 3,
        found.len() <= usize::MAX ==> is_started(
            supervisor::reconcile_actions(r, found, succeeded, ended, now, now_unix, end),
            j,
            e.task->0,
        ),
{
    actions_are_kept(r, found, succeeded, ended, now, now_unix, end);
    let e = found_is_taken_in(
        r,
        found,
        j,
        ended,
        now,
        now_unix,
        known.info.key(),
        Some(known),
    );
    the_found_stay(r, found, j, succeeded, ended, now, now_unix, end, e);
    e
}

proof fn tasks_are_listed(s: Seq<Entry>, generation: u64)
    ensures
        supervisor::tasks_of(s).contains(generation) <==> exists|i: int|
            0 <= i < s.len() && (#[trigger] s[i]).task == Some(generation),
    decreases s.len(),
{
    if s.len() > 0 {
        let earlier = s.drop_last();
        tasks_are_listed(earlier, generation);
        let before = supervisor::tasks_of(earlier);
        let all = supervisor::tasks_of(s);
        if all.contains(generation) {
            let k = all.index_of(generation);
            if k < before.len() {
                assert(before[k] == generation);
                let i = choose|i: int|
                    0 <= i < earlier.len() && (#[trigger] earlier[i]).task == Some(generation);
                assert(s[i].task == Some(generation));
            } else {
                assert(s[s.len() - 1].task == Some(generation));
            }
        }
        if exists|i: int| 0 <= i < s.len() && (#[trigger] s[i]).task == Some(generation) {
            let i = choose|i: int| 0 <= i < s.len() && (#[trigger] s[i]).task == Some(generation);
            if i < earlier.len() {
                assert(earlier[i].task == Some(generation));
                assert(all[before.index_of(generation)] == generation);
            } else {
                assert(all[before.len() as int] == generation);
            }
        }
    }
}

/// Whether an entry's device was given up: renamed away by what was just found,
/// not found by a backend whose sweep succeeded, or with nothing left to remember.
pub open spec fn is_given_up(
    e: Entry,
    found: Seq<Found>,
    k: int,
    succeeded: Seq<Seq<char>>,
    end: BootTime,
) -> bool {
    if k < found.len() {
        renames_from(found[k], e.info.key())
    } else {
        ||| succeeded.contains(e.backend) && forall|i: int|
            0 <= i < found.len() ==> (#[trigger] found[i]).info.key() != e.info.key()
        ||| is_forgotten(e, end)
    }
}

proof fn early_aborts_are_of_the_renamed(
    r: Roll,
    found: Seq<Found>,
    ended: Seq<u64>,
    now: BootTime,
    now_unix: i64,
    generation: u64,
) -> (w: (int, Entry))
    requires
        supervisor::admit_all_actions(r, found, ended, now, now_unix).contains(
            TaskAction::Abort { generation },
        ),
    ensures
        0 <= w.0 < found.len(),
        supervisor::admitted_all(r, found.take(w.0), ended, now, now_unix).entries.contains(w.1),
        w.1.task == Some(generation),
        renames_from(found[w.0], w.1.info.key()),
    decreases found.len(),
{
    let abort = TaskAction::Abort { generation };
    let all = supervisor::admit_all_actions(r, found, ended, now, now_unix);
    let earlier = found.drop_last();
    let before = supervisor::admit_all_actions(r, earlier, ended, now, now_unix);
    let at = all.index_of(abort);
    if at < before.len() {
        assert(before[at] == abort);
        let (k, e) = early_aborts_are_of_the_renamed(r, earlier, ended, now, now_unix, generation);
        assert(earlier.take(k) =~= found.take(k));
        assert(earlier[k] == found[k]);
        (k, e)
    } else {
        let roll = supervisor::admitted_all(r, earlier, ended, now, now_unix);
        let f = found.last();
        assert(supervisor::old_key(f) is Some);
        let key = supervisor::old_key(f)->0;
        let old = |e: Entry| e.key() == key;
        let gone = roll.entries.filter(old);
        let tasks = supervisor::tasks_of(gone);
        assert(supervisor::aborts(tasks)[at - before.len()] == abort);
        assert(tasks[at - before.len()] == generation);
        tasks_are_listed(gone, generation);
        let i = choose|i: int| 0 <= i < gone.len() && (#[trigger] gone[i]).task == Some(generation);
        roll.entries.lemma_filter_pred(old, i);
        roll.entries.lemma_filter_contains_rev(old, gone[i]);
        renames_are_old_keys(f, key);
        assert(found.take(found.len() - 1) =~= earlier);
        (found.len() - 1, gone[i])
    }
}

/// A task is ended only if its device was given up.
pub proof fn only_the_given_up_are_polled_no_more(
    r: Roll,
    found: Seq<Found>,
    succeeded: Seq<Seq<char>>,
    ended: Seq<u64>,
    now: BootTime,
    now_unix: i64,
    end: BootTime,
    generation: u64,
) -> (w: (int, Entry))
    requires
        supervisor::reconcile_actions(r, found, succeeded, ended, now, now_unix, end).contains(
            TaskAction::Abort { generation },
        ),
    ensures
        0 <= w.0 <= found.len(),
        supervisor::admitted_all(r, found.take(w.0), ended, now, now_unix).entries.contains(w.1),
        w.1.task == Some(generation),
        is_given_up(w.1, found, w.0, succeeded, end),
{
    let abort = TaskAction::Abort { generation };
    let all = supervisor::reconcile_actions(r, found, succeeded, ended, now, now_unix, end);
    let first = supervisor::admit_all_actions(r, found, ended, now, now_unix);
    let fresh = supervisor::fresh_keys(found);
    let a = supervisor::admitted_all(r, found, ended, now, now_unix).entries;
    let d = supervisor::demoted(a, fresh, succeeded, ended);
    let vanished = |e: Entry| supervisor::has_vanished(e, fresh, succeeded);
    let stale = |e: Entry| supervisor::is_stale(e, end);
    let v = d.filter(vanished);
    let t = supervisor::retired(d, fresh, succeeded);
    let p = t.filter(stale);
    let at = all.index_of(abort);
    assert(found.take(found.len() as int) =~= found);
    let one = supervisor::tasks_of(v);
    let two = supervisor::tasks_of(p);
    if at < first.len() {
        assert(first[at] == abort);
        early_aborts_are_of_the_renamed(r, found, ended, now, now_unix, generation)
    } else if at < first.len() + one.len() {
        assert(supervisor::aborts(one)[at - first.len()] == abort);
        assert(one[at - first.len()] == generation);
        tasks_are_listed(v, generation);
        let i = choose|i: int| 0 <= i < v.len() && (#[trigger] v[i]).task == Some(generation);
        d.lemma_filter_pred(vanished, i);
        d.lemma_filter_contains_rev(vanished, v[i]);
        let m = d.index_of(v[i]);
        assert(d[m] == v[i]);
        assert(a[m] == v[i]);
        assert forall|k: int| 0 <= k < found.len() implies (#[trigger] found[k]).info.key()
            != v[i].info.key() by {
            assert(fresh[k] == found[k].info.key());
        }
        (found.len() as int, v[i])
    } else {
        assert(supervisor::aborts(two)[at - first.len() - one.len()] == abort);
        assert(two[at - first.len() - one.len()] == generation);
        tasks_are_listed(p, generation);
        let i = choose|i: int| 0 <= i < p.len() && (#[trigger] p[i]).task == Some(generation);
        t.lemma_filter_pred(stale, i);
        t.lemma_filter_contains_rev(stale, p[i]);
        let m = t.index_of(p[i]);
        assert(t[m] == p[i]);
        assert(d[m] == p[i]);
        assert(a[m] == p[i]);
        (found.len() as int, p[i])
    }
}

/// A polled device that its backend, whose sweep succeeded, did not find is
/// disconnected and its task ended; it keeps what was read of it within the last
/// day.
pub proof fn a_device_that_is_gone_is_remembered(
    r: Roll,
    found: Seq<Found>,
    succeeded: Seq<Seq<char>>,
    ended: Seq<u64>,
    now: BootTime,
    now_unix: i64,
    end: BootTime,
    known: Entry,
) -> (e: Entry)
    requires
        r.entries.contains(known),
        not_found(found, known.info.key()),
        known.task is Some,
        succeeded.contains(known.backend),
        known.last_seen is Some,
        end@ - known.last_seen->0@ <= 86_400 * 1_000_000_000,
    ensures
        supervisor::reconciled(
            r,
            found,
            succeeded,
            ended,
            now,
            now_unix,
            end,
        ).entries.contains(e),
        e.info == known.info,
        e.presence == Presence::Disconnected,
        e.task is None,
        e.last_reading == known.last_reading,
        e.last_seen == known.last_seen,
        e.history == known.history,
        supervisor::reconcile_actions(
            r,
            found,
            succeeded,
            ended,
            now,
            now_unix,
            end,
        ).contains(TaskAction::Abort { generation: known.task->0 }),
{
    not_found_is_not_fresh(found, known.info.key());
    let fresh = supervisor::fresh_keys(found);
    let a = supervisor::admitted_all(r, found, ended, now, now_unix).entries;
    supervisor::admitting_spares_others(r, found, ended, now, now_unix, known);
    let d = supervisor::demoted(a, fresh, succeeded, ended);
    let at = a.index_of(known);
    assert(d[at] == known);
    let vanished = |e: Entry| supervisor::has_vanished(e, fresh, succeeded);
    supervisor::filter_keeps(d, vanished, known);
    let v = d.filter(vanished);
    tasks_are_listed(v, known.task->0);
    let tasks = supervisor::tasks_of(v);
    assert(tasks.contains(known.task->0)) by {
        assert(v[v.index_of(known)] == known);
    }
    let first = supervisor::admit_all_actions(r, found, ended, now, now_unix);
    let all = supervisor::reconcile_actions(r, found, succeeded, ended, now, now_unix, end);
    assert(all[first.len() + tasks.index_of(known.task->0)] == (TaskAction::Abort {
        generation: known.task->0,
    }));
    supervisor::a_vanished_device_is_remembered(
        r,
        found,
        succeeded,
        ended,
        now,
        now_unix,
        end,
        known,
    );
    supervisor::left(known)
}

/// A device of a backend whose sweep failed stays as it was while it is polled;
/// if its task has ended it is unreachable and no longer polled.
pub proof fn a_failed_backend_says_nothing(
    r: Roll,
    found: Seq<Found>,
    succeeded: Seq<Seq<char>>,
    ended: Seq<u64>,
    now: BootTime,
    now_unix: i64,
    end: BootTime,
    known: Entry,
) -> (e: Entry)
    requires
        r.entries.contains(known),
        not_found(found, known.info.key()),
        known.task is Some,
        !succeeded.contains(known.backend),
        !is_forgotten(known, end),
    ensures
        supervisor::reconciled(
            r,
            found,
            succeeded,
            ended,
            now,
            now_unix,
            end,
        ).entries.contains(e),
        !ended.contains(known.task->0) ==> e == known,
        ended.contains(known.task->0) ==> {
            &&& e.info == known.info
            &&& e.presence == Presence::Unreachable
            &&& e.task is None
            &&& e.last_reading == known.last_reading
            &&& e.last_seen == known.last_seen
            &&& e.history == known.history
        },
{
    not_found_is_not_fresh(found, known.info.key());
    let fresh = supervisor::fresh_keys(found);
    supervisor::admitting_spares_others(r, found, ended, now, now_unix, known);
    let a = supervisor::admitted_all(r, found, ended, now, now_unix).entries;
    let d = supervisor::demoted(a, fresh, succeeded, ended);
    let t = supervisor::retired(d, fresh, succeeded);
    let k = a.index_of(known);
    let e = if ended.contains(known.task->0) {
        supervisor::crashed(known)
    } else {
        known
    };
    assert(a[k] == known);
    assert(d[k] == e);
    assert(t[k] == e);
    supervisor::filter_keeps(t, |x: Entry| !supervisor::is_stale(x, end), e);
    e
}

/// A device that is not polled, and was not found, stays as it was as long as
/// there is something to remember.
pub proof fn an_absent_device_stays_as_it_was(
    r: Roll,
    found: Seq<Found>,
    succeeded: Seq<Seq<char>>,
    ended: Seq<u64>,
    now: BootTime,
    now_unix: i64,
    end: BootTime,
    known: Entry,
)
    requires
        r.entries.contains(known),
        not_found(found, known.info.key()),
        known.task is None,
        !is_forgotten(known, end),
    ensures
        supervisor::reconciled(
            r,
            found,
            succeeded,
            ended,
            now,
            now_unix,
            end,
        ).entries.contains(known),
{
    not_found_is_not_fresh(found, known.info.key());
    let fresh = supervisor::fresh_keys(found);
    supervisor::admitting_spares_others(r, found, ended, now, now_unix, known);
    let a = supervisor::admitted_all(r, found, ended, now, now_unix).entries;
    let d = supervisor::demoted(a, fresh, succeeded, ended);
    let t = supervisor::retired(d, fresh, succeeded);
    let k = a.index_of(known);
    assert(a[k] == known);
    assert(d[k] == known);
    assert(t[k] == known);
    supervisor::filter_keeps(t, |x: Entry| !supervisor::is_stale(x, end), known);
}

/// After a sweep nothing is listed that has nothing left to remember, and no
/// device is listed twice.
pub proof fn the_forgotten_are_dropped(
    r: Roll,
    found: Seq<Found>,
    succeeded: Seq<Seq<char>>,
    ended: Seq<u64>,
    now: BootTime,
    now_unix: i64,
    end: BootTime,
    i: int,
    j: int,
)
    requires
        supervisor::is_roll(r.entries),
        0 <= i < supervisor::reconciled(
            r,
            found,
            succeeded,
            ended,
            now,
            now_unix,
            end,
        ).entries.len(),
        0 <= j < supervisor::reconciled(
            r,
            found,
            succeeded,
            ended,
            now,
            now_unix,
            end,
        ).entries.len(),
    ensures
        ({
            let after = supervisor::reconciled(
                r,
                found,
                succeeded,
                ended,
                now,
                now_unix,
                end,
            ).entries;
            &&& !is_forgotten(after[i], end)
            &&& i != j ==> after[i].info.key() != after[j].info.key()
        }),
{
    let fresh = supervisor::fresh_keys(found);
    supervisor::admitting_polls(r, found, ended, now, now_unix);
    let a = supervisor::admitted_all(r, found, ended, now, now_unix).entries;
    let d = supervisor::demoted(a, fresh, succeeded, ended);
    supervisor::map_keeps_roll(
        a,
        |e: Entry|
            if supervisor::is_stranded(e, fresh, succeeded, ended) {
                supervisor::crashed(e)
            } else {
                e
            },
    );
    let t = supervisor::retired(d, fresh, succeeded);
    supervisor::map_keeps_roll(
        d,
        |e: Entry|
            if supervisor::has_vanished(e, fresh, succeeded) {
                supervisor::left(e)
            } else {
                e
            },
    );
    supervisor::filter_keeps_roll(t, |e: Entry| !supervisor::is_stale(e, end));
    let after = supervisor::pruned(t, end);
    assert(after.contains(after[i]));
    assert(!supervisor::is_stale(after[i], end));
    if i < j {
        assert(after[i].key() != after[j].key());
    } else if j < i {
        assert(after[j].key() != after[i].key());
    }
}

// --- generations -------------------------------------------------------------

/// The generation that comes `steps` after another, counting around.
pub open spec fn ahead(generation: u64, steps: int) -> int {
    (generation + steps) % 0x1_0000_0000_0000_0000
}

proof fn generations_advance(
    r: Roll,
    found: Seq<Found>,
    ended: Seq<u64>,
    now: BootTime,
    now_unix: i64,
) -> (c: int)
    requires
        found.len() <= u64::MAX,
    ensures
        0 <= c <= found.len(),
        supervisor::admitted_all(r, found, ended, now, now_unix).last_generation == ahead(
            r.last_generation,
            c,
        ),
        ({
            let actions = supervisor::admit_all_actions(r, found, ended, now, now_unix);
            &&& forall|k: int|
                0 <= k < actions.len() && (#[trigger] actions[k]) is Spawn ==> exists|i: int|
                    1 <= i <= c && actions[k]->Spawn_generation == #[trigger] ahead(
                        r.last_generation,
                        i,
                    )
            &&& forall|k: int, m: int|
                0 <= k < m < actions.len() && (#[trigger] actions[k]) is Spawn && (
                #[trigger] actions[m]) is Spawn ==> actions[k]->Spawn_generation
                    != actions[m]->Spawn_generation
        }),
    decreases found.len(),
{
    let actions = supervisor::admit_all_actions(r, found, ended, now, now_unix);
    if found.len() == 0 {
        0
    } else {
        let earlier = found.drop_last();
        let f = found.last();
        let c = generations_advance(r, earlier, ended, now, now_unix);
        let before = supervisor::admit_all_actions(r, earlier, ended, now, now_unix);
        let roll = supervisor::admitted_all(r, earlier, ended, now, now_unix);
        let more = supervisor::admit_actions(roll, f, earlier.len() as usize, ended);
        assert(actions =~= before + more);
        assert forall|k: int| 0 <= k < before.len() implies (#[trigger] actions[k]) == before[k] by {}
        let s = supervisor::without_old_name(roll.entries, f);
        let g = r.last_generation;
        assert(forall|k: int| 0 <= k < more.len() - 1 ==> (#[trigger] more[k]) is Abort);
        if supervisor::is_polled(s, f.info.key(), ended) {
            assert(forall|k: int| 0 <= k < more.len() ==> (#[trigger] more[k]) is Abort);
            assert forall|k: int|
                0 <= k < actions.len() && (#[trigger] actions[k]) is Spawn implies k
                < before.len() by {
                if k >= before.len() {
                    assert(actions[k] == more[k - before.len()]);
                }
            }
            assert forall|k: int| 0 <= k < actions.len() && (#[trigger] actions[k]) is Spawn implies
                exists|i: int|
                1 <= i <= c && actions[k]->Spawn_generation == #[trigger] ahead(g, i) by {
                assert(before[k] is Spawn);
            }
            c
        } else {
            let new = supervisor::next_generation(roll.last_generation);
            assert(new == ahead(g, c + 1));
            let last = actions.len() - 1;
            assert(actions[last] == more.last());
            assert forall|k: int|
                0 <= k < actions.len() && (#[trigger] actions[k]) is Spawn implies k < before.len()
                || k == last by {
                if k >= before.len() {
                    assert(actions[k] == more[k - before.len()]);
                }
            }
            assert forall|k: int| 0 <= k < actions.len() && (#[trigger] actions[k]) is Spawn implies
                exists|i: int|
                1 <= i <= c + 1 && actions[k]->Spawn_generation == #[trigger] ahead(g, i) by {
                if k < before.len() {
                    assert(before[k] is Spawn);
                    let i = choose|i: int|
                        1 <= i <= c && before[k]->Spawn_generation == #[trigger] ahead(g, i);
                    assert(actions[k]->Spawn_generation == ahead(g, i));
                } else {
                    assert(actions[k]->Spawn_generation == ahead(g, c + 1));
                }
            }
            assert forall|k: int, m: int|
                0 <= k < m < actions.len() && (#[trigger] actions[k]) is Spawn && (
                #[trigger] actions[m]) is Spawn implies actions[k]->Spawn_generation
                != actions[m]->Spawn_generation by {
                assert(before[k] is Spawn);
                if m == last {
                    let i = choose|i: int|
                        1 <= i <= c && before[k]->Spawn_generation == #[trigger] ahead(g, i);
                    assert(ahead(g, i) != ahead(g, c + 1));
                } else {
                    assert(before[m] is Spawn);
                }
            }
            c + 1
        }
    }
}

/// The tasks that a sweep starts all have different generations, and another one
/// than was given out last before it: a report tells which task it is from.
pub proof fn every_start_has_a_generation_of_its_own(
    r: Roll,
    found: Seq<Found>,
    ended: Seq<u64>,
    now: BootTime,
    now_unix: i64,
    k: int,
    m: int,
)
    requires
        found.len() < u64::MAX,
        ({
            let actions = supervisor::admit_all_actions(r, found, ended, now, now_unix);
            0 <= k < m < actions.len() && actions[k] is Spawn && actions[m] is Spawn
        }),
    ensures
        ({
            let actions = supervisor::admit_all_actions(r, found, ended, now, now_unix);
            &&& actions[k]->Spawn_generation != actions[m]->Spawn_generation
            &&& actions[k]->Spawn_generation != r.last_generation
            &&& actions[m]->Spawn_generation != r.last_generation
        }),
{
    let c = generations_advance(r, found, ended, now, now_unix);
    let actions = supervisor::admit_all_actions(r, found, ended, now, now_unix);
    let g = r.last_generation;
    let i = choose|i: int| 1 <= i <= c && actions[k]->Spawn_generation == #[trigger] ahead(g, i);
    let j = choose|i: int| 1 <= i <= c && actions[m]->Spawn_generation == #[trigger] ahead(g, i);
    assert(ahead(g, i) != g && ahead(g, j) != g);
}

// --- renames -----------------------------------------------------------------

/// A sweep reports a rename for every device it found under a new name, from the
/// old name to the new, and for no other.
pub proof fn every_rename_is_reported(found: Seq<Found>, rename: (Seq<char>, Seq<char>))
    ensures
        supervisor::renames_in(found).contains(rename) <==> exists|i: int|
            0 <= i < found.len() && ((#[trigger] found[i]).seen matches Some(
                Seen::Renamed { from },
            ) && from@ == rename.0 && found[i].info.name@ == rename.1),
    decreases found.len(),
{
    if found.len() > 0 {
        let earlier = found.drop_last();
        every_rename_is_reported(earlier, rename);
        let before = supervisor::renames_in(earlier);
        let all = supervisor::renames_in(found);
        if all.contains(rename) {
            let k = all.index_of(rename);
            if k < before.len() {
                assert(before[k] == rename);
                let i = choose|i: int|
                    0 <= i < earlier.len() && ((#[trigger] earlier[i]).seen matches Some(
                        Seen::Renamed { from },
                    ) && from@ == rename.0 && earlier[i].info.name@ == rename.1);
                assert(found[i] == earlier[i]);
            } else {
                assert(found[found.len() - 1] == found.last());
            }
        }
        if exists|i: int|
            0 <= i < found.len() && ((#[trigger] found[i]).seen matches Some(
                Seen::Renamed { from },
            ) && from@ == rename.0 && found[i].info.name@ == rename.1) {
            let i = choose|i: int|
                0 <= i < found.len() && ((#[trigger] found[i]).seen matches Some(
                    Seen::Renamed { from },
                ) && from@ == rename.0 && found[i].info.name@ == rename.1);
            if i < earlier.len() {
                assert(earlier[i] == found[i]);
                assert(all[before.index_of(rename)] == rename);
            } else {
                assert(all[before.len() as int] == rename);
            }
        }
    }
}

// --- what is forgotten -------------------------------------------------------

/// Of all entries those go that have nothing left to remember, and no others.
pub proof fn only_the_forgotten_go(s: Seq<Entry>, now: BootTime, e: Entry)
    ensures
        supervisor::pruned(s, now).contains(e) <==> s.contains(e) && !is_forgotten(e, now),
{
    let stays = |e: Entry| !supervisor::is_stale(e, now);
    if s.contains(e) && !is_forgotten(e, now) {
        supervisor::filter_keeps(s, stays, e);
    }
    let left = supervisor::pruned(s, now);
    if left.contains(e) {
        let i = left.index_of(e);
        s.lemma_filter_pred(stays, i);
        s.lemma_filter_contains_rev(stays, e);
    }
}

} // verus!
