//! Low-battery alerts: when one is due, and what it says.

use crate::config::{Config, Settings};
use crate::domain::primary::{self, PrimaryStatus};
use crate::domain::time::BootTime;
use crate::domain::types::{BatteryReading, DeviceId, DeviceKey, DeviceState, Presence, TrayState};
use crate::i18n::{self, Lang, Phrase};
use crate::strings;
use vstd::prelude::*;
use vstd::string::*;

verus! {

/// Upper bound on a single `notify` call, in seconds. The D-Bus default reply
/// timeout is 25 s; a toast that hasn't been accepted well before that has
/// already missed its purpose, so this bounds the notifier task's stall, not
/// the D-Bus call itself.
pub const NOTIFY_TIMEOUT_SECS: u64 = 3;

/// Consecutive distinct low readings required before a notification fires.
/// Noisy BLE devices have reported a single bad sample tens of percentage
/// points below the surrounding readings; requiring confirmation costs one poll
/// interval and rejects that kind of glitch.
pub const LOW_CONFIRMATIONS: u8 = 2;

/// How far above the threshold a discharging device must read before a new
/// low crossing can notify again: a reading hovering ±1 % around the
/// threshold is one crossing, not one per dip.
pub const REARM_MARGIN: u8 = 5;

/// What one online reading means for the low-battery alert.
#[derive(Debug, Clone, Copy, PartialEq, Eq, Structural)]
pub enum Level {
    Low,
    /// Not low, but too close to the threshold to re-arm.
    Recovering,
    /// Charging, or at least `REARM_MARGIN` above the threshold.
    Rearmed,
}

/// What a reading means for the alert.
pub open spec fn level_of(reading: Option<BatteryReading>, threshold: u8) -> Level {
    match primary::classified(reading, threshold) {
        PrimaryStatus::Low { .. } => Level::Low,
        PrimaryStatus::Charging { .. } => Level::Rearmed,
        PrimaryStatus::Normal { percent } => if percent >= threshold + REARM_MARGIN || percent
            == u8::MAX {
            Level::Rearmed
        } else {
            Level::Recovering
        },
        PrimaryStatus::Offline => Level::Recovering,
    }
}

pub fn alert_level(reading: Option<BatteryReading>, threshold: u8) -> (level: Level)
    ensures
        level == level_of(reading, threshold),
{
    match primary::classify(reading, threshold) {
        PrimaryStatus::Low { .. } => Level::Low,
        PrimaryStatus::Charging { .. } => Level::Rearmed,
        PrimaryStatus::Normal { percent } => if percent >= threshold.saturating_add(
            REARM_MARGIN,
        ) {
            Level::Rearmed
        } else {
            Level::Recovering
        },
        PrimaryStatus::Offline => Level::Recovering,
    }
}

// --- one device --------------------------------------------------------------

/// What is remembered of a device: whether its crossing has been notified, and
/// its progress toward a confirmed one.
pub struct Alert {
    pub notified: bool,
    /// When the most recent low reading that counted was taken, and how many
    /// have counted.
    pub streak: Option<(BootTime, u8)>,
}

/// Nothing remembered.
pub open spec fn quiet() -> Alert {
    Alert { notified: false, streak: None }
}

/// How many distinct low readings in a row there are once one taken at `seen`
/// has come in. A republished one does not count again.
pub open spec fn confirmations(streak: Option<(BootTime, u8)>, seen: BootTime) -> u8 {
    match streak {
        Some((at, count)) => if at == seen || count == u8::MAX {
            count
        } else {
            (count + 1) as u8
        },
        None => 1,
    }
}

/// What is remembered after an observation.
pub open spec fn observed(a: Alert, level: Level, seen: Option<BootTime>) -> Alert {
    match level {
        Level::Rearmed => quiet(),
        Level::Recovering => Alert { streak: None, ..a },
        Level::Low => match seen {
            None => a,
            Some(at) => Alert {
                notified: a.notified || confirmations(a.streak, at) >= LOW_CONFIRMATIONS,
                streak: Some((at, confirmations(a.streak, at))),
            },
        },
    }
}

/// Whether an observation is to be notified.
pub open spec fn fires(a: Alert, level: Level, seen: Option<BootTime>) -> bool {
    !a.notified && observed(a, level, seen).notified
}

// --- the tracker -------------------------------------------------------------

/// A device's progress toward a confirmed low crossing: how many consecutive
/// distinct low readings have been seen, and when the most recent one counted
/// was taken (so a republished reading does not advance the streak).
#[derive(Debug, Clone, Copy, PartialEq, Eq, Structural)]
struct LowStreak {
    last_seen: BootTime,
    count: u8,
}

#[derive(Debug, PartialEq, Eq)]
struct Watched {
    id: DeviceId,
    notified: bool,
    streak: Option<LowStreak>,
}

impl Watched {
    spec fn alert(self) -> Alert {
        Alert {
            notified: self.notified,
            streak: match self.streak {
                Some(s) => Some((s.last_seen, s.count)),
                None => None,
            },
        }
    }
}

/// Tracks which devices have an outstanding low-battery notification, so each
/// confirmed low crossing fires exactly once. A device re-arms only when it
/// charges or reads `REARM_MARGIN` above its threshold; going offline does
/// not re-arm it.
///
/// A reading only counts toward a crossing if it is low and it is a fresh
/// reading — identified by `DeviceState::last_seen`, since the state is
/// republished on every change, not once per poll, and a republished
/// reading must not be double-counted.
///
/// Keyed by `DeviceId`, not by name: a device seen over two transports is not
/// deduplicated, and two such entries can carry the same name. Keyed by name
/// their streaks would merge. Its view is what is remembered of each device.
pub struct LowTracker {
    watched: Vec<Watched>,
}

spec fn tracks(list: Seq<Watched>, key: DeviceKey) -> bool {
    exists|i: int| 0 <= i < list.len() && (#[trigger] list[i]).id@ == key
}

spec fn alert_in(list: Seq<Watched>, key: DeviceKey) -> Alert {
    if tracks(list, key) {
        list[choose|i: int| 0 <= i < list.len() && (#[trigger] list[i]).id@ == key].alert()
    } else {
        quiet()
    }
}

spec fn tracks_once(list: Seq<Watched>) -> bool {
    forall|i: int, j: int|
        0 <= i < j < list.len() ==> (#[trigger] list[i]).id@ != (#[trigger] list[j]).id@
}

/// Whether the list tracks the device from position `from` on.
spec fn tracks_from(list: Seq<Watched>, from: int, key: DeviceKey) -> bool {
    exists|i: int| from <= i < list.len() && (#[trigger] list[i]).id@ == key
}

proof fn tracking_grows(list: Seq<Watched>, from: int)
    requires
        0 < from <= list.len(),
    ensures
        forall|k: DeviceKey| #[trigger]
            tracks_from(list, from - 1, k) == (tracks_from(list, from, k) || list[from - 1].id@
                == k),
{
    assert forall|k: DeviceKey| #[trigger]
        tracks_from(list, from - 1, k) == (tracks_from(list, from, k) || list[from - 1].id@ == k) by {
        if tracks_from(list, from, k) {
            let i = choose|i: int| from <= i < list.len() && (#[trigger] list[i]).id@ == k;
            assert(from - 1 <= i < list.len() && list[i].id@ == k);
        }
    }
}

proof fn alert_at(list: Seq<Watched>, i: int)
    requires
        tracks_once(list),
        0 <= i < list.len(),
    ensures
        tracks(list, list[i].id@),
        alert_in(list, list[i].id@) == list[i].alert(),
{
    let key = list[i].id@;
    let k = choose|k: int| 0 <= k < list.len() && (#[trigger] list[k]).id@ == key;
    if k < i {
        assert(list[k].id@ != list[i].id@);
    } else if i < k {
        assert(list[i].id@ != list[k].id@);
    }
}

proof fn replacing_changes_one(list: Seq<Watched>, i: int, new: Watched)
    requires
        tracks_once(list),
        0 <= i < list.len(),
        new.id@ == list[i].id@,
    ensures
        tracks_once(list.update(i, new)),
        forall|k: DeviceKey|
            #![trigger alert_in(list.update(i, new), k)]
            alert_in(list.update(i, new), k) == if k == new.id@ {
                new.alert()
            } else {
                alert_in(list, k)
            },
{
    let after = list.update(i, new);
    assert(tracks_once(after)) by {
        assert forall|a: int, b: int| 0 <= a < b < after.len() implies (#[trigger] after[a]).id@ != (
        #[trigger] after[b]).id@ by {
            assert(list[a].id@ != list[b].id@);
        }
    }
    assert forall|k: DeviceKey| #[trigger] alert_in(after, k) == if k == new.id@ {
        new.alert()
    } else {
        alert_in(list, k)
    } by {
        if k == new.id@ {
            alert_at(after, i);
        } else if tracks(list, k) {
            let m = choose|m: int| 0 <= m < list.len() && (#[trigger] list[m]).id@ == k;
            assert(after[m] == list[m]);
            alert_at(list, m);
            alert_at(after, m);
        } else if tracks(after, k) {
            let m = choose|m: int| 0 <= m < after.len() && (#[trigger] after[m]).id@ == k;
            assert(list[m].id@ == k);
        }
    }
}

proof fn adding_changes_one(list: Seq<Watched>, new: Watched)
    requires
        tracks_once(list),
        !tracks(list, new.id@),
    ensures
        tracks_once(list.push(new)),
        forall|k: DeviceKey|
            #![trigger alert_in(list.push(new), k)]
            alert_in(list.push(new), k) == if k == new.id@ {
                new.alert()
            } else {
                alert_in(list, k)
            },
{
    let after = list.push(new);
    assert forall|k: DeviceKey| #[trigger] alert_in(after, k) == if k == new.id@ {
        new.alert()
    } else {
        alert_in(list, k)
    } by {
        if k == new.id@ {
            alert_at(after, list.len() as int);
        } else if tracks(list, k) {
            let m = choose|m: int| 0 <= m < list.len() && (#[trigger] list[m]).id@ == k;
            assert(after[m] == list[m]);
            alert_at(list, m);
            alert_at(after, m);
        } else if tracks(after, k) {
            let m = choose|m: int| 0 <= m < after.len() && (#[trigger] after[m]).id@ == k;
            assert(list[m].id@ == k);
        }
    }
}

impl View for LowTracker {
    type V = spec_fn(DeviceKey) -> Alert;

    closed spec fn view(&self) -> spec_fn(DeviceKey) -> Alert {
        |k: DeviceKey| alert_in(self.watched@, k)
    }
}

/// What is remembered once `new` is remembered of the device of `key`.
pub open spec fn with_alert(
    alerts: spec_fn(DeviceKey) -> Alert,
    key: DeviceKey,
    new: Alert,
) -> spec_fn(DeviceKey) -> Alert {
    |k: DeviceKey|
        if k == key {
            new
        } else {
            alerts(k)
        }
}

/// Whether `devices` lists the device of `key`.
pub open spec fn is_listed(devices: Seq<DeviceState>, key: DeviceKey) -> bool {
    exists|i: int| 0 <= i < devices.len() && (#[trigger] devices[i]).info.key() == key
}

/// What is remembered of the devices that are still listed.
pub open spec fn of_listed(
    alerts: spec_fn(DeviceKey) -> Alert,
    devices: Seq<DeviceState>,
) -> spec_fn(DeviceKey) -> Alert {
    |k: DeviceKey|
        if is_listed(devices, k) {
            alerts(k)
        } else {
            quiet()
        }
}

fn lists_device(devices: &Vec<DeviceState>, id: &DeviceId) -> (r: bool)
    ensures
        r == is_listed(devices@, id@),
{
    let mut i: usize = 0;
    while i < devices.len()
        invariant
            i <= devices@.len(),
            forall|k: int| 0 <= k < i ==> (#[trigger] devices@[k]).info.key() != id@,
        decreases devices@.len() - i,
    {
        if devices[i].info.is(id) {
            return true;
        }
        i += 1;
    }
    false
}

impl LowTracker {
    #[verifier::type_invariant]
    spec fn inv(self) -> bool {
        tracks_once(self.watched@)
    }

    pub fn new() -> (r: Self)
        ensures
            forall|k: DeviceKey| #[trigger] (r@)(k) == quiet(),
    {
        LowTracker { watched: Vec::new() }
    }

    /// Records the latest observation for `id`: its `Level`, and when the
    /// reading that produced it was taken. Returns true iff a notification
    /// should fire now — the device has reached `LOW_CONFIRMATIONS` consecutive
    /// distinct low readings and was not already notified.
    pub fn observe(&mut self, id: &DeviceId, level: Level, last_seen: Option<BootTime>) -> (fire:
        bool)
        ensures
            final(self)@ == with_alert(
                old(self)@,
                id@,
                observed((old(self)@)(id@), level, last_seen),
            ),
            fire == fires((old(self)@)(id@), level, last_seen),
    {
        proof {
            use_type_invariant(&*self);
        }
        let mut list: Vec<Watched> = Vec::new();
        std::mem::swap(&mut list, &mut self.watched);
        let ghost before = list@;
        let ghost was = alert_in(before, id@);
        let mut i: usize = 0;
        while i < list.len() && !list[i].id.same(id)
            invariant
                list@ == before,
                i <= list@.len(),
                forall|k: int| 0 <= k < i ==> (#[trigger] list@[k]).id@ != id@,
            decreases list@.len() - i,
        {
            i += 1;
        }
        let known = i < list.len();
        let mut notified = false;
        let mut streak: Option<LowStreak> = None;
        if known {
            proof {
                alert_at(before, i as int);
            }
            notified = list[i].notified;
            streak = list[i].streak;
        }
        assert(was == (Alert {
            notified,
            streak: match streak {
                Some(s) => Some((s.last_seen, s.count)),
                None => None,
            },
        }));
        let mut fire = false;
        match level {
            Level::Rearmed => {
                notified = false;
                streak = None;
            },
            Level::Recovering => {
                streak = None;
            },
            Level::Low => match last_seen {
                // A device with no reading at all is never classified low.
                None => {},
                Some(at) => {
                    let count: u8 = match streak {
                        Some(s) => if s.last_seen == at {
                            s.count
                        } else {
                            s.count.saturating_add(1)
                        },
                        None => 1,
                    };
                    streak = Some(LowStreak { last_seen: at, count });
                    if count >= LOW_CONFIRMATIONS && !notified {
                        notified = true;
                        fire = true;
                    }
                },
            },
        }
        let new = Watched { id: id.clone(), notified, streak };
        let ghost entry = new;
        assert(entry.alert() == observed(was, level, last_seen));
        if known {
            proof {
                replacing_changes_one(before, i as int, entry);
            }
            list.set(i, new);
        } else {
            proof {
                adding_changes_one(before, entry);
            }
            list.push(new);
        }
        self.watched = list;
        assert(self@ =~= with_alert(
            |k: DeviceKey| alert_in(before, k),
            id@,
            observed(was, level, last_seen),
        ));
        fire
    }

    /// Drops every device `state` no longer lists (removed, or renamed away).
    pub fn forget_missing(&mut self, state: &TrayState)
        ensures
            final(self)@ == of_listed(old(self)@, state.devices@),
    {
        proof {
            use_type_invariant(&*self);
        }
        let mut list: Vec<Watched> = Vec::new();
        std::mem::swap(&mut list, &mut self.watched);
        let ghost before = list@;
        let mut kept: Vec<Watched> = Vec::new();
        let mut left: usize = list.len();
        while left > 0
            invariant
                left <= before.len(),
                list@ == before.take(left as int),
                tracks_once(before),
                tracks_once(kept@),
                forall|k: DeviceKey| #[trigger]
                    tracks(kept@, k) ==> tracks_from(before, left as int, k),
                forall|k: DeviceKey| #[trigger]
                    alert_in(kept@, k) == if is_listed(state.devices@, k) && tracks_from(
                        before,
                        left as int,
                        k,
                    ) {
                        alert_in(before, k)
                    } else {
                        quiet()
                    },
            decreases left,
        {
            let ghost had = kept@;
            match list.pop() {
                Some(one) => {
                    proof {
                        assert(one == before[left - 1]);
                        alert_at(before, left - 1);
                        if tracks_from(before, left as int, one.id@) {
                            let m = choose|m: int|
                                left <= m < before.len() && (#[trigger] before[m]).id@ == one.id@;
                            assert(before[left - 1].id@ != before[m].id@);
                        }
                    }
                    let listed = lists_device(&state.devices, &one.id);
                    if listed {
                        proof {
                            adding_changes_one(had, one);
                        }
                        kept.push(one);
                    }
                    proof {
                        tracking_grows(before, left as int);
                        assert forall|k: DeviceKey| #[trigger] tracks(kept@, k) implies tracks_from(
                            before,
                            left - 1,
                            k,
                        ) by {
                            let a = choose|a: int|
                                0 <= a < kept@.len() && (#[trigger] kept@[a]).id@ == k;
                            if a < had.len() {
                                assert(had[a].id@ == k);
                                assert(tracks(had, k));
                            }
                        }
                    }
                },
                None => {},
            }
            left -= 1;
            assert(list@ =~= before.take(left as int));
        }
        self.watched = kept;
        assert forall|k: DeviceKey| #[trigger] (self@)(k) == of_listed(
            |k: DeviceKey| alert_in(before, k),
            state.devices@,
        )(k) by {
            assert(tracks_from(before, 0, k) == tracks(before, k));
        }
        assert(self@ =~= of_listed(|k: DeviceKey| alert_in(before, k), state.devices@));
    }

    /// Whether nothing is remembered of any device.
    pub fn is_empty(&self) -> (r: bool)
        ensures
            r == forall|k: DeviceKey| #[trigger] (self@)(k) == quiet(),
    {
        proof {
            use_type_invariant(self);
        }
        let mut i: usize = 0;
        while i < self.watched.len()
            invariant
                tracks_once(self.watched@),
                i <= self.watched@.len(),
                forall|m: int| 0 <= m < i ==> (#[trigger] self.watched@[m]).alert() == quiet(),
            decreases self.watched@.len() - i,
        {
            if self.watched[i].notified || self.watched[i].streak.is_some() {
                proof {
                    alert_at(self.watched@, i as int);
                    assert((self@)(self.watched@[i as int].id@) != quiet());
                }
                return false;
            }
            i += 1;
        }
        true
    }
}

// --- all devices -------------------------------------------------------------

/// Whether a device's reading is a live observation the user asked for.
///
/// A retained reading from a device that is asleep, unreachable or
/// disconnected is a memory, and a hidden device is not the user's concern.
pub open spec fn concerns(d: DeviceState, s: Settings) -> bool {
    s.shows(d.info.name@) && d.presence == Presence::Online
}

/// What a device's reading means under these settings.
pub open spec fn device_level(d: DeviceState, s: Settings) -> Level {
    level_of(d.last_reading, s.threshold(d.info.name@))
}

/// What is remembered once every device has been observed.
pub open spec fn observed_all(
    alerts: spec_fn(DeviceKey) -> Alert,
    devices: Seq<DeviceState>,
    s: Settings,
) -> spec_fn(DeviceKey) -> Alert
    decreases devices.len(),
{
    if devices.len() == 0 {
        alerts
    } else {
        let before = observed_all(alerts, devices.drop_last(), s);
        let d = devices.last();
        let key = d.info.key();
        if concerns(d, s) {
            with_alert(before, key, observed(before(key), device_level(d, s), d.last_seen))
        } else {
            before
        }
    }
}

/// The names and percentages to notify once every device has been observed.
pub open spec fn due(
    alerts: spec_fn(DeviceKey) -> Alert,
    devices: Seq<DeviceState>,
    s: Settings,
) -> Seq<(Seq<char>, u8)>
    decreases devices.len(),
{
    if devices.len() == 0 {
        Seq::empty()
    } else {
        let earlier = due(alerts, devices.drop_last(), s);
        let before = observed_all(alerts, devices.drop_last(), s);
        let d = devices.last();
        if concerns(d, s) && fires(before(d.info.key()), device_level(d, s), d.last_seen) {
            earlier.push(
                (
                    d.info.name@,
                    match d.last_reading {
                        Some(r) => r.percent,
                        None => 0,
                    },
                ),
            )
        } else {
            earlier
        }
    }
}

/// The names of a list as their characters.
pub open spec fn pending_texts(pending: Seq<(String, u8)>) -> Seq<(Seq<char>, u8)> {
    pending.map_values(|p: (String, u8)| (p.0@, p.1))
}

/// Computes which devices should fire a low-battery notification right now.
///
/// Only shown, online devices reach the tracker. Feeding it a memory would both
/// fire a false alert for a device the user cannot act on right now, and
/// consume a confirmation — so the real alert would be lost or delayed when the
/// device reconnects still low. A device that is skipped keeps its streak
/// exactly as it was before it went away.
pub fn compute_pending(state: &TrayState, cfg: &Config, tracker: &mut LowTracker) -> (pending: Vec<
    (String, u8),
>)
    ensures
        final(tracker)@ == observed_all(
            of_listed(old(tracker)@, state.devices@),
            state.devices@,
            cfg@,
        ),
        pending_texts(pending@) == due(
            of_listed(old(tracker)@, state.devices@),
            state.devices@,
            cfg@,
        ),
{
    tracker.forget_missing(state);
    let ghost start = tracker@;
    let ghost devices = state.devices@;
    let mut pending: Vec<(String, u8)> = Vec::new();
    let mut i: usize = 0;
    assert(pending_texts(pending@) =~= Seq::empty());
    while i < state.devices.len()
        invariant
            devices == state.devices@,
            i <= devices.len(),
            tracker@ == observed_all(start, devices.take(i as int), cfg@),
            pending_texts(pending@) == due(start, devices.take(i as int), cfg@),
        decreases devices.len() - i,
    {
        let d = &state.devices[i];
        proof {
            assert(devices.take(i + 1).drop_last() == devices.take(i as int));
            assert(devices.take(i + 1).last() == *d);
        }
        if cfg.is_shown(d.info.name.as_str()) && d.presence == Presence::Online {
            let threshold: u8 = cfg.effective_low_threshold(d.info.name.as_str());
            let level = alert_level(d.last_reading, threshold);
            if tracker.observe(&d.info.id(), level, d.last_seen) {
                let percent: u8 = match d.last_reading {
                    Some(r) => r.percent,
                    None => 0,
                };
                let ghost before = pending@;
                pending.push((d.info.name.clone(), percent));
                assert(pending_texts(pending@) =~= pending_texts(before).push(
                    (d.info.name@, percent),
                ));
            }
        }
        i += 1;
    }
    assert(devices.take(i as int) == devices);
    pending
}

/// One desktop notification.
#[derive(Debug, PartialEq, Eq)]
pub struct Toast {
    pub device: String,
    pub percent: u8,
    pub summary: String,
    pub body: String,
}

/// Whether a toast is the one for a device at a percentage.
pub open spec fn is_toast(t: Toast, name: Seq<char>, percent: u8, lang: Lang) -> bool {
    &&& t.device@ == name
    &&& t.percent == percent
    &&& t.summary@ == name + i18n::wording(Phrase::LowBattery, lang)
    &&& t.body@ == strings::decimal(percent as nat) + i18n::wording(Phrase::ChargeLeft, lang)
}

/// Words the notifications that are due; none while notifications are off.
/// Crossings are consumed all the same, so switching notifications back on does
/// not retroactively spam for devices that are already low — they notify again
/// only on the next fresh low crossing.
pub fn toasts(pending: &Vec<(String, u8)>, enabled: bool, lang: Lang) -> (r: Vec<Toast>)
    ensures
        r@.len() == if enabled {
            pending@.len()
        } else {
            0
        },
        forall|i: int|
            0 <= i < r@.len() ==> is_toast(#[trigger] r@[i], pending@[i].0@, pending@[i].1, lang),
{
    let mut r: Vec<Toast> = Vec::new();
    if !enabled {
        return r;
    }
    let mut i: usize = 0;
    while i < pending.len()
        invariant
            i <= pending@.len(),
            r@.len() == i,
            forall|k: int|
                0 <= k < i ==> is_toast(#[trigger] r@[k], pending@[k].0@, pending@[k].1, lang),
        decreases pending@.len() - i,
    {
        let device = pending[i].0.clone();
        let percent: u8 = pending[i].1;
        let mut summary = device.clone();
        summary.append(i18n::phrase(Phrase::LowBattery, lang));
        let mut body = strings::decimal_text(percent as u64);
        body.append(i18n::phrase(Phrase::ChargeLeft, lang));
        r.push(Toast { device, percent, summary, body });
        i += 1;
    }
    r
}

// --- laws --------------------------------------------------------------------

/// Each crossing is notified once: a notified device stays quiet, whatever it
/// reads, until it charges or rises well above its threshold.
pub proof fn one_alert_per_crossing(a: Alert, level: Level, seen: Option<BootTime>)
    requires
        a.notified,
        level != Level::Rearmed,
    ensures
        !fires(a, level, seen),
        observed(a, level, seen).notified,
{
}

/// No single reading is notified: it takes a second, distinct one.
pub proof fn a_single_reading_is_not_enough(a: Alert, level: Level, seen: Option<BootTime>)
    requires
        a.streak is None,
    ensures
        !fires(a, level, seen),
{
}

/// A republished reading changes nothing and is never notified.
pub proof fn republishing_changes_nothing(a: Alert, seen: BootTime)
    ensures
        observed(observed(a, Level::Low, Some(seen)), Level::Low, Some(seen)) == observed(
            a,
            Level::Low,
            Some(seen),
        ),
        !fires(observed(a, Level::Low, Some(seen)), Level::Low, Some(seen)),
{
}

/// Two distinct low readings in a row are notified, once per re-arming.
pub proof fn two_low_readings_are_notified(first: BootTime, second: BootTime)
    requires
        first != second,
    ensures
        fires(observed(quiet(), Level::Low, Some(first)), Level::Low, Some(second)),
        observed(
            observed(quiet(), Level::Low, Some(first)),
            Level::Low,
            Some(second),
        ).notified,
{
}

/// Re-arming forgets everything, so the next crossing has to be confirmed anew.
pub proof fn rearming_forgets(a: Alert, seen: Option<BootTime>)
    ensures
        observed(a, Level::Rearmed, seen) == quiet(),
{
}

/// Hovering around the threshold does not re-arm: only charging does, or a
/// reading `REARM_MARGIN` above it.
pub proof fn only_charge_or_distance_rearms(reading: Option<BatteryReading>, threshold: u8)
    requires
        level_of(reading, threshold) == Level::Rearmed,
        reading is Some && reading->0.percent <= 100,
    ensures
        primary::classified(reading, threshold) is Charging || reading->0.percent >= threshold
            + REARM_MARGIN,
{
}

/// A device that is hidden, or not online, keeps what is remembered of it.
pub proof fn the_absent_keep_their_streak(
    alerts: spec_fn(DeviceKey) -> Alert,
    devices: Seq<DeviceState>,
    s: Settings,
    key: DeviceKey,
)
    requires
        forall|i: int|
            0 <= i < devices.len() && (#[trigger] devices[i]).info.key() == key ==> !concerns(
                devices[i],
                s,
            ),
    ensures
        observed_all(alerts, devices, s)(key) == alerts(key),
    decreases devices.len(),
{
    if devices.len() > 0 {
        let earlier = devices.drop_last();
        assert forall|i: int|
            0 <= i < earlier.len() && (#[trigger] earlier[i]).info.key() == key implies !concerns(
            earlier[i],
            s,
        ) by {
            assert(devices[i] == earlier[i]);
        }
        the_absent_keep_their_streak(alerts, earlier, s, key);
        assert(devices[devices.len() - 1] == devices.last());
    }
}

/// Every notification is about a shown, online device whose reading is low.
pub proof fn only_the_low_are_notified(
    alerts: spec_fn(DeviceKey) -> Alert,
    devices: Seq<DeviceState>,
    s: Settings,
    j: int,
)
    requires
        0 <= j < due(alerts, devices, s).len(),
    ensures
        exists|i: int|
            0 <= i < devices.len() && is_low_device(#[trigger] devices[i], s) && (
            devices[i].info.name@, devices[i].last_reading->0.percent) == due(
                alerts,
                devices,
                s,
            )[j],
    decreases devices.len(),
{
    let earlier = devices.drop_last();
    if j < due(alerts, earlier, s).len() {
        only_the_low_are_notified(alerts, earlier, s, j);
        let i = choose|i: int|
            0 <= i < earlier.len() && is_low_device(#[trigger] earlier[i], s) && (
            earlier[i].info.name@, earlier[i].last_reading->0.percent) == due(
                alerts,
                earlier,
                s,
            )[j];
        assert(devices[i] == earlier[i]);
    } else {
        let d = devices[devices.len() - 1];
        assert(d == devices.last());
        assert(is_low_device(d, s));
    }
}

/// Whether a shown, online device's reading is low.
pub open spec fn is_low_device(d: DeviceState, s: Settings) -> bool {
    &&& concerns(d, s)
    &&& d.last_reading is Some
    &&& device_level(d, s) == Level::Low
}

} // verus!
