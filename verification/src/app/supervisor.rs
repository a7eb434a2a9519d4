//! The live roster: which devices there are, how reachable each is and which
//! polling task speaks for it, as polls and discovery sweeps come in.
//!
//! The registry decides; the caller runs the tasks. A task is known here by its
//! generation, and what the caller has to do to its tasks comes back as
//! `TaskAction`s.

use crate::app::history;
use crate::domain::double;
use crate::domain::estimate::{self, Estimate};
use crate::domain::time::{self, BootTime};
use crate::domain::types::{self, BatteryReading, DeviceId, DeviceInfo, DeviceKey, DeviceState, Presence};
use crate::strings;
use vstd::prelude::*;

verus! {

/// How often the devices are discovered anew.
pub const DISCOVERY_INTERVAL_SECS: u64 = 30;

/// A device flips to `Unreachable` only after this many consecutive failed
/// polls. Wireless receivers drop telemetry packets as normal behaviour, so 1
/// would flicker the icon on every dropped packet; 3 misses is long enough to
/// absorb that noise while still catching a genuinely dead device within a
/// few minutes at the default 60 s poll interval.
pub const OFFLINE_AFTER_FAILURES: u32 = 3;

/// How long a `Disconnected` device stays in the roster before it is pruned,
/// so a long-running session's roster does not grow without bound: a day,
/// generous enough that a device used yesterday is still listed today.
pub const DISCONNECTED_RETENTION_SECS: u64 = 86_400;

/// Whether this process may write `config.json`. Exactly one process owns
/// the file: the tray, which holds the single-instance name. Every other
/// mode reads it and leaves it alone.
#[derive(Debug, Clone, Copy, PartialEq, Eq, Structural)]
pub enum ConfigRole {
    Owner,
    Reader,
}

/// What the device inventory says about a device it was shown.
#[derive(Debug, PartialEq, Eq)]
pub enum Seen {
    /// Its first time.
    New,
    /// Known under this name.
    Known,
    /// The same hardware was known under another name.
    Renamed { from: String },
}

/// One device a successful sweep found.
#[derive(Debug, PartialEq, Eq)]
pub struct Found {
    pub info: DeviceInfo,
    /// Name of the backend that found it.
    pub backend: &'static str,
    /// What the inventory says, if there is one.
    pub seen: Option<Seen>,
    /// Its stored change points, wall-clock seconds and percent, most recent
    /// first. Only read when the device has no entry yet.
    pub rows: Vec<(i64, u8)>,
}

/// What the caller has to do to a polling task.
#[derive(Debug, Clone, Copy, PartialEq, Eq, Structural)]
pub enum TaskAction {
    /// End the task of this generation.
    Abort { generation: u64 },
    /// Start polling the `found`th device of the sweep, under this generation.
    Spawn { found: usize, generation: u64 },
}

/// What a polling task reports.
#[derive(Debug, Clone, Copy, PartialEq, Eq, Structural)]
pub enum SourceEvent {
    Polled(Option<BatteryReading>),
    AccessDenied,
    /// The node the source opens now belongs to another device; the task has ended.
    NodeReassigned,
}

// --- the model ---------------------------------------------------------------

/// What the registry keeps of one device.
pub struct Entry {
    pub info: DeviceInfo,
    pub last_reading: Option<BatteryReading>,
    pub last_seen: Option<BootTime>,
    pub presence: Presence,
    /// Failed polls in a row.
    pub failures: u32,
    /// Percent-change points feeding the remaining-time estimate.
    pub history: Seq<(BootTime, u8)>,
    /// Name of the backend that last discovered the device. Not derived from
    /// the transport, which two backends may share.
    pub backend: Seq<char>,
    /// Generation of the task that polls the device, if one does.
    pub task: Option<u64>,
}

impl Entry {
    pub open spec fn key(self) -> DeviceKey {
        self.info.key()
    }
}

/// Whether the device of `key` has an entry.
pub open spec fn has_device(s: Seq<Entry>, key: DeviceKey) -> bool {
    exists|i: int| 0 <= i < s.len() && (#[trigger] s[i]).key() == key
}

/// The entry of the device of `key`.
pub open spec fn entry_of(s: Seq<Entry>, key: DeviceKey) -> Entry {
    s[choose|i: int| 0 <= i < s.len() && (#[trigger] s[i]).key() == key]
}

/// Whether no device has two entries, and every history falls.
pub open spec fn is_roll(s: Seq<Entry>) -> bool {
    &&& forall|i: int, j: int|
        0 <= i < j < s.len() ==> (#[trigger] s[i]).key() != (#[trigger] s[j]).key()
    &&& forall|i: int| 0 <= i < s.len() ==> history::is_falling((#[trigger] s[i]).history)
}

/// Whether the task of `generation` speaks for this entry's device `key`.
pub open spec fn is_spoken_for(e: Entry, key: DeviceKey, generation: u64) -> bool {
    e.key() == key && e.task == Some(generation)
}

/// An entry after a poll: a reading makes it online at once, a failure makes it
/// unreachable only once there have been `OFFLINE_AFTER_FAILURES` in a row.
pub open spec fn polled(e: Entry, reading: Option<BatteryReading>, now: BootTime) -> Entry {
    match reading {
        Some(r) => Entry {
            history: history::observed(e.history, now, r.percent),
            last_reading: Some(r),
            last_seen: Some(now),
            failures: 0,
            presence: Presence::Online,
            ..e
        },
        None => {
            let failures = if e.failures < u32::MAX {
                (e.failures + 1) as u32
            } else {
                e.failures
            };
            Entry {
                failures,
                presence: if failures >= OFFLINE_AFTER_FAILURES {
                    Presence::Unreachable
                } else {
                    e.presence
                },
                ..e
            }
        },
    }
}

/// An entry after its device could not be opened.
pub open spec fn denied(e: Entry) -> Entry {
    Entry { presence: Presence::NoAccess, failures: OFFLINE_AFTER_FAILURES, ..e }
}

/// An entry after its device left.
pub open spec fn left(e: Entry) -> Entry {
    Entry { presence: Presence::Disconnected, failures: 0, task: None, ..e }
}

/// An entry after its task ended by itself.
pub open spec fn crashed(e: Entry) -> Entry {
    Entry {
        presence: Presence::Unreachable,
        failures: OFFLINE_AFTER_FAILURES,
        task: None,
        ..e
    }
}

/// `s` with `new` in place of the entry of its device that `generation` speaks for.
pub open spec fn spoken_update(
    s: Seq<Entry>,
    key: DeviceKey,
    generation: u64,
    new: spec_fn(Entry) -> Entry,
) -> Seq<Entry> {
    s.map_values(
        |e: Entry|
            if is_spoken_for(e, key, generation) {
                new(e)
            } else {
                e
            },
    )
}

/// The entries after a task's report.
pub open spec fn reported(
    s: Seq<Entry>,
    key: DeviceKey,
    generation: u64,
    event: SourceEvent,
    now: BootTime,
) -> Seq<Entry> {
    match event {
        SourceEvent::Polled(reading) => spoken_update(
            s,
            key,
            generation,
            |e: Entry| polled(e, reading, now),
        ),
        SourceEvent::AccessDenied => spoken_update(s, key, generation, |e: Entry| denied(e)),
        SourceEvent::NodeReassigned => spoken_update(s, key, generation, |e: Entry| left(e)),
    }
}

/// The entries without the device of `key`.
pub open spec fn forgotten(s: Seq<Entry>, key: DeviceKey) -> Seq<Entry> {
    s.filter(|e: Entry| e.key() != key)
}

/// The generations of the tasks of `s`, in order.
pub open spec fn tasks_of(s: Seq<Entry>) -> Seq<u64>
    decreases s.len(),
{
    if s.len() == 0 {
        Seq::empty()
    } else if s.last().task is Some {
        tasks_of(s.drop_last()).push(s.last().task->0)
    } else {
        tasks_of(s.drop_last())
    }
}

/// One `Abort` for each generation.
pub open spec fn aborts(generations: Seq<u64>) -> Seq<TaskAction> {
    generations.map_values(|g: u64| TaskAction::Abort { generation: g })
}

/// The identity the found device had under its old name, if the inventory
/// recognised it as renamed.
pub open spec fn old_key(f: Found) -> Option<DeviceKey> {
    match f.seen {
        Some(Seen::Renamed { from }) => Some(
            DeviceKey {
                name: from@,
                transport: f.info.transport,
                locator: types::locator_text(f.info.locator),
            },
        ),
        _ => None,
    }
}

/// The registry's state: its entries in discovery order, and the generation it
/// gave out last.
pub struct Roll {
    pub entries: Seq<Entry>,
    pub last_generation: u64,
}

/// The generation after `g`.
pub open spec fn next_generation(g: u64) -> u64 {
    if g == u64::MAX {
        0
    } else {
        (g + 1) as u64
    }
}

/// The entry of a device that was found again while no task polls it: a crashed
/// task's device is unreachable until a poll says otherwise, a returning one
/// keeps what it was.
pub open spec fn found_again(e: Entry, f: Found, generation: u64) -> Entry {
    if e.task is Some {
        Entry {
            presence: Presence::Unreachable,
            failures: OFFLINE_AFTER_FAILURES,
            backend: f.backend@,
            task: Some(generation),
            ..e
        }
    } else {
        Entry { info: f.info, backend: f.backend@, task: Some(generation), ..e }
    }
}

/// The entry of a device found for the first time.
pub open spec fn found_first(f: Found, generation: u64, now: BootTime, now_unix: i64) -> Entry {
    Entry {
        info: f.info,
        last_reading: None,
        last_seen: None,
        presence: Presence::Unreachable,
        failures: 0,
        history: history::seeded(f.rows@, now, now_unix),
        backend: f.backend@,
        task: Some(generation),
    }
}

/// The entries once a found device's old name is forgotten.
pub open spec fn without_old_name(s: Seq<Entry>, f: Found) -> Seq<Entry> {
    match old_key(f) {
        Some(key) => forgotten(s, key),
        None => s,
    }
}

/// Whether a task that has not ended polls the device of `key`.
pub open spec fn is_polled(s: Seq<Entry>, key: DeviceKey, ended: Seq<u64>) -> bool {
    has_device(s, key) && entry_of(s, key).task is Some && !ended.contains(
        entry_of(s, key).task->0,
    )
}

/// The state after one found device. `ended` are the generations whose tasks
/// have ended.
pub open spec fn admitted(
    r: Roll,
    f: Found,
    ended: Seq<u64>,
    now: BootTime,
    now_unix: i64,
) -> Roll {
    let s = without_old_name(r.entries, f);
    let key = f.info.key();
    let generation = next_generation(r.last_generation);
    if is_polled(s, key, ended) {
        Roll { entries: s, ..r }
    } else if has_device(s, key) {
        Roll {
            entries: s.map_values(
                |e: Entry|
                    if e.key() == key {
                        found_again(e, f, generation)
                    } else {
                        e
                    },
            ),
            last_generation: generation,
        }
    } else {
        Roll {
            entries: s.push(found_first(f, generation, now, now_unix)),
            last_generation: generation,
        }
    }
}

/// What one found device means for the tasks.
pub open spec fn admit_actions(r: Roll, f: Found, place: usize, ended: Seq<u64>) -> Seq<
    TaskAction,
> {
    let s = without_old_name(r.entries, f);
    let dropped = match old_key(f) {
        Some(key) => aborts(tasks_of(r.entries.filter(|e: Entry| e.key() == key))),
        None => Seq::empty(),
    };
    if is_polled(s, f.info.key(), ended) {
        dropped
    } else {
        dropped.push(
            TaskAction::Spawn { found: place, generation: next_generation(r.last_generation) },
        )
    }
}

/// The state after each device of `found` in turn.
pub open spec fn admitted_all(
    r: Roll,
    found: Seq<Found>,
    ended: Seq<u64>,
    now: BootTime,
    now_unix: i64,
) -> Roll
    decreases found.len(),
{
    if found.len() == 0 {
        r
    } else {
        admitted(
            admitted_all(r, found.drop_last(), ended, now, now_unix),
            found.last(),
            ended,
            now,
            now_unix,
        )
    }
}

/// What the devices of `found` mean for the tasks.
pub open spec fn admit_all_actions(
    r: Roll,
    found: Seq<Found>,
    ended: Seq<u64>,
    now: BootTime,
    now_unix: i64,
) -> Seq<TaskAction>
    decreases found.len(),
{
    if found.len() == 0 {
        Seq::empty()
    } else {
        let before = found.drop_last();
        admit_all_actions(r, before, ended, now, now_unix) + admit_actions(
            admitted_all(r, before, ended, now, now_unix),
            found.last(),
            before.len() as usize,
            ended,
        )
    }
}

/// The renames among `found`, old name and new.
pub open spec fn renames_in(found: Seq<Found>) -> Seq<(Seq<char>, Seq<char>)>
    decreases found.len(),
{
    if found.len() == 0 {
        Seq::empty()
    } else {
        let before = renames_in(found.drop_last());
        match old_key(found.last()) {
            Some(key) => before.push((key.name, found.last().info.name@)),
            None => before,
        }
    }
}

/// The identities of the found devices.
pub open spec fn fresh_keys(found: Seq<Found>) -> Seq<DeviceKey> {
    found.map_values(|f: Found| f.info.key())
}

/// Whether the entry's task ended by itself and its backend cannot replace it,
/// because the backend's sweep failed.
pub open spec fn is_stranded(
    e: Entry,
    fresh: Seq<DeviceKey>,
    succeeded: Seq<Seq<char>>,
    ended: Seq<u64>,
) -> bool {
    e.task is Some && !fresh.contains(e.key()) && ended.contains(e.task->0) && !succeeded.contains(
        e.backend,
    )
}

/// The entries once stranded devices are marked unreachable.
pub open spec fn demoted(
    s: Seq<Entry>,
    fresh: Seq<DeviceKey>,
    succeeded: Seq<Seq<char>>,
    ended: Seq<u64>,
) -> Seq<Entry> {
    s.map_values(
        |e: Entry|
            if is_stranded(e, fresh, succeeded, ended) {
                crashed(e)
            } else {
                e
            },
    )
}

/// Whether the entry's device is polled but its backend, whose sweep
/// succeeded, no longer finds it.
pub open spec fn has_vanished(e: Entry, fresh: Seq<DeviceKey>, succeeded: Seq<Seq<char>>) -> bool {
    e.task is Some && !fresh.contains(e.key()) && succeeded.contains(e.backend)
}

/// The entries once vanished devices are marked disconnected.
pub open spec fn retired(s: Seq<Entry>, fresh: Seq<DeviceKey>, succeeded: Seq<Seq<char>>) -> Seq<
    Entry,
> {
    s.map_values(
        |e: Entry|
            if has_vanished(e, fresh, succeeded) {
                left(e)
            } else {
                e
            },
    )
}

/// Whether the entry is disconnected and has nothing left to retain at `now`:
/// no reading, or one past the retention.
pub open spec fn is_stale(e: Entry, now: BootTime) -> bool {
    e.presence == Presence::Disconnected && (e.last_seen is None || time::elapsed(
        now,
        e.last_seen->0,
    ) > DISCONNECTED_RETENTION_SECS * 1_000_000_000)
}

/// The entries without the stale ones.
pub open spec fn pruned(s: Seq<Entry>, now: BootTime) -> Seq<Entry> {
    s.filter(|e: Entry| !is_stale(e, now))
}

/// The state after a discovery sweep that found `found` and in which the
/// backends `succeeded` did not fail, taken in from `now` to `end`.
pub open spec fn reconciled(
    r: Roll,
    found: Seq<Found>,
    succeeded: Seq<Seq<char>>,
    ended: Seq<u64>,
    now: BootTime,
    now_unix: i64,
    end: BootTime,
) -> Roll {
    let a = admitted_all(r, found, ended, now, now_unix);
    let fresh = fresh_keys(found);
    let d = demoted(a.entries, fresh, succeeded, ended);
    Roll { entries: pruned(retired(d, fresh, succeeded), end), ..a }
}

/// What a discovery sweep means for the tasks.
pub open spec fn reconcile_actions(
    r: Roll,
    found: Seq<Found>,
    succeeded: Seq<Seq<char>>,
    ended: Seq<u64>,
    now: BootTime,
    now_unix: i64,
    end: BootTime,
) -> Seq<TaskAction> {
    let a = admitted_all(r, found, ended, now, now_unix);
    let fresh = fresh_keys(found);
    let d = demoted(a.entries, fresh, succeeded, ended);
    let v = d.filter(|e: Entry| has_vanished(e, fresh, succeeded));
    let p = retired(d, fresh, succeeded).filter(|e: Entry| is_stale(e, end));
    admit_all_actions(r, found, ended, now, now_unix) + aborts(tasks_of(v)) + aborts(tasks_of(p))
}

// --- entries -----------------------------------------------------------------

/// Bookkeeping kept per device. Its view is its `Entry`.
#[derive(Debug, PartialEq, Eq)]
pub struct DeviceEntry {
    info: DeviceInfo,
    last_reading: Option<BatteryReading>,
    last_seen: Option<BootTime>,
    presence: Presence,
    consecutive_failures: u32,
    battery_history: Vec<(BootTime, u8)>,
    backend: &'static str,
    task: Option<u64>,
}

impl View for DeviceEntry {
    type V = Entry;

    closed spec fn view(&self) -> Entry {
        Entry {
            info: self.info,
            last_reading: self.last_reading,
            last_seen: self.last_seen,
            presence: self.presence,
            failures: self.consecutive_failures,
            history: self.battery_history@,
            backend: self.backend@,
            task: self.task,
        }
    }
}

/// The estimate an entry amounts to.
pub open spec fn is_estimate_of(e: Entry, r: Estimate) -> bool {
    match e.last_reading {
        None => r == Estimate::Unknown,
        Some(current) => {
            &&& !estimate::has_evidence(e.history, current) ==> r == Estimate::Unknown
            &&& estimate::has_evidence(e.history, current) ==> (r matches Estimate::Remaining(d)
                && d@ == estimate::coarse_secs(
                double::time_left(
                    current.percent as nat,
                    estimate::window_span(e.history),
                    estimate::window_drop(e.history) as nat,
                ),
            ) * 1_000_000_000)
        },
    }
}

impl DeviceEntry {
    /// Records a new percent reading into the history.
    fn push_reading(&mut self, now: BootTime, percent: u8)
        ensures
            final(self)@ == (Entry {
                history: history::observed(old(self)@.history, now, percent),
                ..old(self)@
            }),
    {
        history::push_history_point(&mut self.battery_history, now, percent);
    }

    fn estimate(&self) -> (r: Estimate)
        ensures
            is_estimate_of(self@, r),
    {
        match self.last_reading {
            Some(r) => estimate::estimate(self.battery_history.as_slice(), r),
            None => Estimate::Unknown,
        }
    }

    fn take_poll(&mut self, reading: Option<BatteryReading>, now: BootTime)
        ensures
            final(self)@ == polled(old(self)@, reading, now),
    {
        match reading {
            Some(r) => {
                self.push_reading(now, r.percent);
                self.last_reading = Some(r);
                self.last_seen = Some(now);
                self.consecutive_failures = 0;
                self.presence = Presence::Online;
            },
            None => {
                if self.consecutive_failures < u32::MAX {
                    self.consecutive_failures = self.consecutive_failures + 1;
                }
                if self.consecutive_failures >= OFFLINE_AFTER_FAILURES {
                    self.presence = Presence::Unreachable;
                }
            },
        }
    }

    /// Immediate, unlike `Unreachable`: a denial is not a dropped packet.
    fn deny(&mut self)
        ensures
            final(self)@ == denied(old(self)@),
    {
        self.presence = Presence::NoAccess;
        // Once access is granted, a silent device reads Unreachable at its first miss.
        self.consecutive_failures = OFFLINE_AFTER_FAILURES;
    }

    fn disconnect(&mut self)
        ensures
            final(self)@ == left(old(self)@),
    {
        self.task = None;
        self.presence = Presence::Disconnected;
        // The failures that preceded the disconnect belong to the connection
        // that ended. Left as they were, one failed poll after it reconnects
        // re-trips `Unreachable` instead of getting the usual grace.
        self.consecutive_failures = 0;
    }

    /// Positive proof of death, not a single missed poll: demotes at once.
    fn crash(&mut self)
        ensures
            final(self)@ == crashed(old(self)@),
    {
        self.task = None;
        self.presence = Presence::Unreachable;
        self.consecutive_failures = OFFLINE_AFTER_FAILURES;
    }

    fn find_again(&mut self, f: &Found, generation: u64)
        ensures
            final(self)@ == found_again(old(self)@, *f, generation),
    {
        if self.task.is_some() {
            self.presence = Presence::Unreachable;
            self.consecutive_failures = OFFLINE_AFTER_FAILURES;
        } else {
            self.info = f.info.clone();
        }
        self.backend = f.backend;
        self.task = Some(generation);
    }

    fn is_stale_at(&self, now: BootTime) -> (r: bool)
        ensures
            r == is_stale(self@, now),
    {
        if self.presence != Presence::Disconnected {
            return false;
        }
        match self.last_seen {
            None => true,
            Some(t) => now.saturating_duration_since(t).as_nanos()
                > DISCONNECTED_RETENTION_SECS as u128 * 1_000_000_000,
        }
    }

    fn state(&self) -> (r: DeviceState)
        ensures
            shows_entry(r, self@),
    {
        DeviceState {
            info: self.info.clone(),
            last_reading: self.last_reading,
            last_seen: self.last_seen,
            presence: self.presence,
            estimate: self.estimate(),
        }
    }
}

/// Whether a published state is what the entry amounts to.
pub open spec fn shows_entry(d: DeviceState, e: Entry) -> bool {
    &&& d.info == e.info
    &&& d.last_reading == e.last_reading
    &&& d.last_seen == e.last_seen
    &&& d.presence == e.presence
    &&& is_estimate_of(e, d.estimate)
}

/// The entries of a list.
spec fn entries_of(list: Seq<DeviceEntry>) -> Seq<Entry> {
    list.map_values(|e: DeviceEntry| e@)
}

fn has_generation(list: &[u64], generation: u64) -> (r: bool)
    ensures
        r == list@.contains(generation),
{
    let mut i: usize = 0;
    while i < list.len()
        invariant
            i <= list@.len(),
            forall|k: int| 0 <= k < i ==> list@[k] != generation,
        decreases list@.len() - i,
    {
        if list[i] == generation {
            return true;
        }
        i += 1;
    }
    false
}

fn has_name(list: &[&'static str], name: &str) -> (r: bool)
    ensures
        r == types::word_texts(list@).contains(name@),
{
    let mut i: usize = 0;
    while i < list.len()
        invariant
            i <= list@.len(),
            forall|k: int| 0 <= k < i ==> (#[trigger] list@[k])@ != name@,
        decreases list@.len() - i,
    {
        if *list[i] == *name {
            assert(types::word_texts(list@)[i as int] == name@);
            return true;
        }
        i += 1;
    }
    assert forall|k: int| 0 <= k < types::word_texts(list@).len() implies types::word_texts(
        list@,
    )[k] != name@ by {
        assert(list@[k]@ != name@);
    }
    false
}

fn is_among(info: &DeviceInfo, found: &[Found]) -> (r: bool)
    ensures
        r == fresh_keys(found@).contains(info.key()),
{
    let id = info.id();
    let mut i: usize = 0;
    while i < found.len()
        invariant
            id@ == info.key(),
            i <= found@.len(),
            forall|k: int| 0 <= k < i ==> (#[trigger] found@[k]).info.key() != info.key(),
        decreases found@.len() - i,
    {
        if found[i].info.is(&id) {
            assert(fresh_keys(found@)[i as int] == info.key());
            return true;
        }
        i += 1;
    }
    assert forall|k: int| 0 <= k < fresh_keys(found@).len() implies fresh_keys(found@)[k]
        != info.key() by {
        assert(found@[k].info.key() != info.key());
    }
    false
}

/// Where the device of `id` stands.
fn find(list: &Vec<DeviceEntry>, id: &DeviceId) -> (r: Option<usize>)
    ensures
        r is Some <==> has_device(entries_of(list@), id@),
        r matches Some(i) ==> i < list@.len() && entries_of(list@)[i as int].key() == id@,
{
    let ghost s = entries_of(list@);
    let mut i: usize = 0;
    while i < list.len()
        invariant
            s == entries_of(list@),
            i <= list@.len(),
            forall|k: int| 0 <= k < i ==> (#[trigger] s[k]).key() != id@,
        decreases list@.len() - i,
    {
        assert(s[i as int] == list@[i as int]@);
        if list[i].info.is(id) {
            return Some(i);
        }
        i += 1;
    }
    None
}

// --- steps -------------------------------------------------------------------

proof fn map_changes_one(s: Seq<Entry>, i: int, f: spec_fn(Entry) -> Entry)
    requires
        is_roll(s),
        0 <= i < s.len(),
        forall|e: Entry| e.key() != s[i].key() ==> #[trigger] f(e) == e,
    ensures
        s.map_values(f) == s.update(i, f(s[i])),
{
    assert forall|k: int| 0 <= k < s.len() implies s.map_values(f)[k] == s.update(i, f(s[i]))[k] by {
        if k < i {
            assert(s[k].key() != s[i].key());
        } else if k > i {
            assert(s[i].key() != s[k].key());
        }
    }
    assert(s.map_values(f) =~= s.update(i, f(s[i])));
}

pub(crate) proof fn map_keeps_roll(s: Seq<Entry>, f: spec_fn(Entry) -> Entry)
    requires
        is_roll(s),
        forall|e: Entry| (#[trigger] f(e)).key() == e.key(),
        forall|e: Entry|
            history::is_falling(e.history) ==> history::is_falling((#[trigger] f(e)).history),
    ensures
        is_roll(s.map_values(f)),
{
    let t = s.map_values(f);
    assert forall|i: int, j: int| 0 <= i < j < t.len() implies (#[trigger] t[i]).key() != (
    #[trigger] t[j]).key() by {
        assert(s[i].key() != s[j].key());
    }
    assert forall|i: int| 0 <= i < t.len() implies history::is_falling((#[trigger] t[i]).history) by {
        assert(history::is_falling(s[i].history));
    }
}

pub(crate) proof fn filter_keeps_roll(s: Seq<Entry>, p: spec_fn(Entry) -> bool)
    requires
        is_roll(s),
    ensures
        is_roll(s.filter(p)),
        forall|e: Entry| #[trigger] s.filter(p).contains(e) ==> s.contains(e) && p(e),
    decreases s.len(),
{
    reveal(Seq::filter);
    if s.len() > 0 {
        let shorter = s.drop_last();
        filter_keeps_roll(shorter, p);
        let t = shorter.filter(p);
        let u = s.filter(p);
        assert forall|e: Entry| #[trigger] u.contains(e) implies s.contains(e) && p(e) by {
            let k = u.index_of(e);
            if k < t.len() {
                assert(t[k] == e);
                assert(t.contains(e));
                let m = shorter.index_of(e);
                assert(s[m] == e);
            } else {
                assert(s[s.len() - 1] == e);
            }
        }
        if p(s.last()) {
            assert forall|i: int, j: int| 0 <= i < j < u.len() implies (#[trigger] u[i]).key() != (
            #[trigger] u[j]).key() by {
                if j == t.len() {
                    assert(t.contains(t[i]));
                    assert(shorter.contains(t[i]));
                    let m = shorter.index_of(t[i]);
                    assert(s[m].key() != s[s.len() - 1].key());
                }
            }
        }
    }
}

proof fn filter_all(s: Seq<Entry>, p: spec_fn(Entry) -> bool)
    requires
        forall|i: int| 0 <= i < s.len() ==> p(#[trigger] s[i]),
    ensures
        s.filter(p) == s,
    decreases s.len(),
{
    reveal(Seq::filter);
    if s.len() > 0 {
        filter_all(s.drop_last(), p);
        assert(s.drop_last().push(s.last()) =~= s);
    }
}

proof fn filter_none(s: Seq<Entry>, p: spec_fn(Entry) -> bool)
    requires
        forall|i: int| 0 <= i < s.len() ==> !p(#[trigger] s[i]),
    ensures
        s.filter(p) == Seq::<Entry>::empty(),
    decreases s.len(),
{
    reveal(Seq::filter);
    if s.len() > 0 {
        filter_none(s.drop_last(), p);
    }
}

proof fn forgetting_removes_one(s: Seq<Entry>, i: int)
    requires
        is_roll(s),
        0 <= i < s.len(),
    ensures
        forgotten(s, s[i].key()) == s.remove(i),
        s.filter(|e: Entry| e.key() == s[i].key()) == seq![s[i]],
{
    let key = s[i].key();
    let other = |e: Entry| e.key() != key;
    let same = |e: Entry| e.key() == key;
    let a = s.take(i);
    let b = seq![s[i]];
    let c = s.skip(i + 1);
    assert(s =~= a + b + c);
    Seq::filter_distributes_over_add(a + b, c, other);
    Seq::filter_distributes_over_add(a, b, other);
    Seq::filter_distributes_over_add(a + b, c, same);
    Seq::filter_distributes_over_add(a, b, same);
    assert forall|k: int| 0 <= k < a.len() implies other(#[trigger] a[k]) by {
        assert(s[k].key() != s[i].key());
    }
    assert forall|k: int| 0 <= k < c.len() implies other(#[trigger] c[k]) by {
        assert(s[i].key() != s[k + i + 1].key());
    }
    filter_all(a, other);
    filter_all(c, other);
    filter_none(a, same);
    filter_none(c, same);
    filter_none(b, other);
    filter_all(b, same);
    assert(s.remove(i) =~= a + c);
    assert(a + Seq::<Entry>::empty() + c =~= a + c);
    assert(Seq::<Entry>::empty() + b + Seq::<Entry>::empty() =~= b);
}

proof fn forgetting_a_stranger(s: Seq<Entry>, key: DeviceKey)
    requires
        !has_device(s, key),
    ensures
        forgotten(s, key) == s,
        s.filter(|e: Entry| e.key() == key) == Seq::<Entry>::empty(),
{
    filter_all(s, |e: Entry| e.key() != key);
    filter_none(s, |e: Entry| e.key() == key);
}

/// Drops every trace of one identity: its entry, its place in the display
/// order, and its polling task, whose generation comes back to be aborted.
fn forget(list: &mut Vec<DeviceEntry>, id: &DeviceId) -> (task: Option<u64>)
    requires
        is_roll(entries_of(old(list)@)),
    ensures
        entries_of(final(list)@) == forgotten(entries_of(old(list)@), id@),
        is_roll(entries_of(final(list)@)),
        tasks_of(entries_of(old(list)@).filter(|e: Entry| e.key() == id@)) == match task {
            Some(g) => seq![g],
            None => Seq::empty(),
        },
{
    let ghost s = entries_of(list@);
    proof {
        filter_keeps_roll(s, |e: Entry| e.key() != id@);
        reveal_with_fuel(tasks_of, 2);
    }
    match find(list, id) {
        Some(i) => {
            proof {
                forgetting_removes_one(s, i as int);
                assert(seq![s[i as int]].drop_last() =~= Seq::empty());
            }
            let gone = list.remove(i);
            assert(entries_of(list@) =~= s.remove(i as int));
            assert(gone@ == s[i as int]);
            assert(gone.task is Some ==> Seq::<u64>::empty().push(gone.task->0) =~= seq![
                gone.task->0,
            ]);
            gone.task
        },
        None => {
            proof {
                forgetting_a_stranger(s, id@);
            }
            None
        },
    }
}

/// A task whose backend's sweep failed is not among the found devices, so
/// `take_in` never looked at it. Its device is not retired either (an error is
/// not an empty result), which would leave a panicked task frozen — last
/// reading intact, presence Online — for as long as the backend kept failing.
/// Respawning needs a source only a successful sweep can hand over, so the
/// honest move is to demote the entry and drop the dead task; the next sweep
/// that succeeds respawns it through `take_in`.
fn demote_crashed(
    list: &mut Vec<DeviceEntry>,
    found: &[Found],
    succeeded: &[&'static str],
    ended: &[u64],
)
    ensures
        entries_of(final(list)@) == demoted(
            entries_of(old(list)@),
            fresh_keys(found@),
            types::word_texts(succeeded@),
            ended@,
        ),
{
    let ghost s = entries_of(list@);
    let ghost t = demoted(s, fresh_keys(found@), types::word_texts(succeeded@), ended@);
    let mut i: usize = 0;
    while i < list.len()
        invariant
            i <= list@.len(),
            list@.len() == s.len(),
            t == demoted(s, fresh_keys(found@), types::word_texts(succeeded@), ended@),
            forall|k: int| 0 <= k < i ==> (#[trigger] list@[k])@ == t[k],
            forall|k: int| i <= k < s.len() ==> (#[trigger] list@[k])@ == s[k],
        decreases list@.len() - i,
    {
        let stranded = match list[i].task {
            Some(g) => !is_among(&list[i].info, found) && has_generation(ended, g) && !has_name(
                succeeded,
                list[i].backend,
            ),
            None => false,
        };
        assert(list@[i as int]@ == s[i as int]);
        if stranded {
            list[i].crash();
        }
        i += 1;
    }
    assert(entries_of(list@) =~= t);
}

/// Marks as disconnected every device that its backend, whose sweep succeeded,
/// no longer finds. The generations of their tasks come back to be aborted.
fn retire_vanished(list: &mut Vec<DeviceEntry>, found: &[Found], succeeded: &[&'static str]) -> (
    gone: Vec<u64>)
    ensures
        entries_of(final(list)@) == retired(
            entries_of(old(list)@),
            fresh_keys(found@),
            types::word_texts(succeeded@),
        ),
        gone@ == tasks_of(
            entries_of(old(list)@).filter(
                |e: Entry|
                    has_vanished(e, fresh_keys(found@), types::word_texts(succeeded@)),
            ),
        ),
{
    let ghost s = entries_of(list@);
    let ghost fresh = fresh_keys(found@);
    let ghost names = types::word_texts(succeeded@);
    let ghost t = retired(s, fresh, names);
    let ghost p = |e: Entry| has_vanished(e, fresh, names);
    let mut gone: Vec<u64> = Vec::new();
    let mut i: usize = 0;
    proof {
        reveal(Seq::filter);
        assert(tasks_of(s.take(0).filter(p)) =~= Seq::empty());
    }
    while i < list.len()
        invariant
            i <= list@.len(),
            list@.len() == s.len(),
            fresh == fresh_keys(found@),
            names == types::word_texts(succeeded@),
            t == retired(s, fresh, names),
            p == |e: Entry| has_vanished(e, fresh, names),
            gone@ == tasks_of(s.take(i as int).filter(p)),
            forall|k: int| 0 <= k < i ==> (#[trigger] list@[k])@ == t[k],
            forall|k: int| i <= k < s.len() ==> (#[trigger] list@[k])@ == s[k],
        decreases list@.len() - i,
    {
        let vanished = match list[i].task {
            Some(_) => !is_among(&list[i].info, found) && has_name(succeeded, list[i].backend),
            None => false,
        };
        let ghost e = s[i as int];
        let ghost done = s.take(i as int).filter(p);
        proof {
            assert(list@[i as int]@ == e);
            reveal(Seq::filter);
            assert(s.take(i + 1).drop_last() == s.take(i as int));
            assert(s.take(i + 1).last() == e);
            assert(s.take(i + 1).filter(p) == if p(e) {
                done.push(e)
            } else {
                done
            });
            assert(done.push(e).drop_last() =~= done);
        }
        if vanished {
            match list[i].task {
                Some(g) => gone.push(g),
                None => {},
            }
            list[i].disconnect();
        }
        i += 1;
    }
    assert(s.take(i as int) == s);
    assert(entries_of(list@) =~= t);
    gone
}

/// Drops `Disconnected` entries that have not been seen for longer than the
/// retention. An entry that never produced a reading has nothing to retain, so
/// it is dropped on disconnect rather than waiting out the cap. The generations
/// of the tasks dropped with them come back to be aborted.
fn prune_stale(list: &mut Vec<DeviceEntry>, now: BootTime) -> (gone: Vec<u64>)
    ensures
        entries_of(final(list)@) == pruned(entries_of(old(list)@), now),
        gone@ == tasks_of(entries_of(old(list)@).filter(|e: Entry| is_stale(e, now))),
{
    let ghost s = entries_of(list@);
    let ghost keep = |e: Entry| !is_stale(e, now);
    let ghost drop = |e: Entry| is_stale(e, now);
    let mut gone: Vec<u64> = Vec::new();
    let mut i: usize = 0;
    let ghost mut done: int = 0;
    proof {
        reveal(Seq::filter);
        assert(s.take(0).filter(keep) =~= Seq::empty());
        assert(s.take(0).filter(drop) =~= Seq::empty());
        assert(entries_of(list@) =~= s.take(0).filter(keep) + s.skip(0));
    }
    while i < list.len()
        invariant
            keep == |e: Entry| !is_stale(e, now),
            drop == |e: Entry| is_stale(e, now),
            0 <= done <= s.len(),
            i == s.take(done).filter(keep).len(),
            entries_of(list@) == s.take(done).filter(keep) + s.skip(done),
            gone@ == tasks_of(s.take(done).filter(drop)),
        decreases s.len() - done,
    {
        let ghost kept = s.take(done).filter(keep);
        let ghost dropped = s.take(done).filter(drop);
        let ghost before = entries_of(list@);
        proof {
            assert(done < s.len());
            assert(before[i as int] == s.skip(done)[0]);
            assert(list@[i as int]@ == s[done]);
            reveal(Seq::filter);
            assert(s.take(done + 1).drop_last() == s.take(done));
            assert(s.take(done + 1).last() == s[done]);
            assert(dropped.push(s[done]).drop_last() =~= dropped);
        }
        if list[i].is_stale_at(now) {
            let entry = list.remove(i);
            match entry.task {
                Some(g) => gone.push(g),
                None => {},
            }
            proof {
                assert(entry@ == s[done]);
                assert(entries_of(list@) =~= before.remove(i as int));
                assert(before.remove(i as int) =~= kept + s.skip(done + 1));
                done = done + 1;
            }
        } else {
            proof {
                assert(kept + s.skip(done) =~= kept.push(s[done]) + s.skip(done + 1));
                done = done + 1;
            }
            i += 1;
        }
    }
    proof {
        assert(entries_of(list@).len() == list@.len());
        assert(done == s.len());
        assert(s.take(done) == s);
        assert(entries_of(list@) =~= pruned(s, now));
    }
    gone
}

pub(crate) proof fn entry_is_unique(s: Seq<Entry>, i: int)
    requires
        is_roll(s),
        0 <= i < s.len(),
    ensures
        has_device(s, s[i].key()),
        entry_of(s, s[i].key()) == s[i],
{
    let key = s[i].key();
    let k = choose|k: int| 0 <= k < s.len() && (#[trigger] s[k]).key() == key;
    if k < i {
        assert(s[k].key() != s[i].key());
    } else if i < k {
        assert(s[i].key() != s[k].key());
    }
}

/// One device a successful sweep found: follows the rename the inventory
/// detected, then respawns a crashed task, keeps a healthy one, or adds
/// the entry and spawns its task. What that means for the tasks is appended to
/// `actions`.
fn take_in(
    list: &mut Vec<DeviceEntry>,
    last_generation: &mut u64,
    actions: &mut Vec<TaskAction>,
    f: &Found,
    place: usize,
    ended: &[u64],
    now: BootTime,
    now_unix: i64,
)
    requires
        is_roll(entries_of(old(list)@)),
    ensures
        is_roll(entries_of(final(list)@)),
        ({
            let r = Roll { entries: entries_of(old(list)@), last_generation: *old(last_generation) };
            &&& admitted(r, *f, ended@, now, now_unix) == (Roll {
                entries: entries_of(final(list)@),
                last_generation: *final(last_generation),
            })
            &&& final(actions)@ == old(actions)@ + admit_actions(r, *f, place, ended@)
        }),
{
    let ghost r = Roll { entries: entries_of(list@), last_generation: *last_generation };
    let ghost before = actions@;
    let ghost key = f.info.key();
    let ghost mut dropped: Seq<TaskAction> = Seq::empty();
    match &f.seen {
        Some(Seen::Renamed { from }) => {
            // The roster is keyed by identity, so the entry under the old name
            // has to go now. Left to `retire_vanished` it would linger as a
            // Disconnected duplicate — one device showing twice for a day.
            let old_id = DeviceId {
                name: from.clone(),
                transport: f.info.transport,
                locator: types::copy_locator(&f.info.locator),
            };
            assert(old_key(*f) == Some(old_id@));
            let task = forget(list, &old_id);
            proof {
                dropped = aborts(tasks_of(r.entries.filter(|e: Entry| e.key() == old_id@)));
            }
            match task {
                Some(g) => {
                    actions.push(TaskAction::Abort { generation: g });
                    assert(dropped =~= seq![TaskAction::Abort { generation: g }]);
                },
                None => {
                    assert(dropped =~= Seq::empty());
                },
            }
            assert(actions@ =~= before + dropped);
        },
        _ => {
            assert(actions@ =~= before + dropped);
        },
    }
    let ghost s = entries_of(list@);
    assert(s == without_old_name(r.entries, *f));
    let generation: u64 = if *last_generation == u64::MAX {
        0
    } else {
        *last_generation + 1
    };
    let id = f.info.id();
    match find(list, &id) {
        Some(i) => {
            proof {
                assert(s[i as int] == list@[i as int]@);
                entry_is_unique(s, i as int);
            }
            let healthy = match list[i].task {
                Some(g) => !has_generation(ended, g),
                None => false,
            };
            if healthy {
                return ;
            }
            let ghost again = |e: Entry|
                if e.key() == key {
                    found_again(e, *f, generation)
                } else {
                    e
                };
            proof {
                map_changes_one(s, i as int, again);
                map_keeps_roll(s, again);
            }
            list[i].find_again(f, generation);
            assert(entries_of(list@) =~= s.update(i as int, again(s[i as int])));
        },
        None => {
            let entry = DeviceEntry {
                info: f.info.clone(),
                last_reading: None,
                last_seen: None,
                presence: Presence::Unreachable,
                consecutive_failures: 0,
                battery_history: history::seed_history(&f.rows, now, now_unix),
                backend: f.backend,
                task: Some(generation),
            };
            let ghost new = entry@;
            list.push(entry);
            proof {
                assert(entries_of(list@) =~= s.push(new));
                assert forall|a: int, b: int| 0 <= a < b < entries_of(list@).len() implies (
                #[trigger] entries_of(list@)[a]).key() != (#[trigger] entries_of(list@)[b]).key() by {
                    if b == s.len() {
                        assert(s[a].key() != key);
                    }
                }
            }
        },
    }
    let action = TaskAction::Spawn { found: place, generation };
    actions.push(action);
    assert(actions@ =~= before + dropped.push(action));
    *last_generation = generation;
}

fn push_aborts(actions: &mut Vec<TaskAction>, gone: &Vec<u64>)
    ensures
        final(actions)@ == old(actions)@ + aborts(gone@),
{
    let ghost before = actions@;
    let mut i: usize = 0;
    assert(actions@ =~= before + aborts(gone@.take(0)));
    while i < gone.len()
        invariant
            i <= gone@.len(),
            actions@ == before + aborts(gone@.take(i as int)),
        decreases gone@.len() - i,
    {
        actions.push(TaskAction::Abort { generation: gone[i] });
        assert(actions@ =~= before + aborts(gone@.take(i + 1)));
        i += 1;
    }
    assert(gone@.take(i as int) == gone@);
}

// --- the registry ------------------------------------------------------------

/// Live set of discovered devices and their polling tasks, in discovery order,
/// so the tray roster is stable across polls. A device that leaves discovery
/// keeps its entry and loses its task. Its view is its `Roll`.
pub struct DeviceRegistry {
    entries: Vec<DeviceEntry>,
    last_generation: u64,
}

impl View for DeviceRegistry {
    type V = Roll;

    closed spec fn view(&self) -> Roll {
        Roll { entries: entries_of(self.entries@), last_generation: self.last_generation }
    }
}

/// What follows from a task's report.
#[derive(Debug, Clone, Copy, PartialEq, Eq, Structural)]
pub enum Followup {
    Nothing,
    /// Store this reading.
    Store(BatteryReading),
    /// End the task that reported.
    Abort,
}

/// What a discovery sweep brought.
#[derive(Debug, PartialEq, Eq)]
pub struct Reconciled {
    /// Devices that came back under a new name: the old one and the new one.
    pub renames: Vec<(String, String)>,
    /// What to do to the polling tasks, in this order.
    pub actions: Vec<TaskAction>,
}

/// The old and new names of a list of renames.
pub open spec fn rename_names(renames: Seq<(String, String)>) -> Seq<(Seq<char>, Seq<char>)> {
    renames.map_values(|r: (String, String)| (r.0@, r.1@))
}

impl DeviceRegistry {
    #[verifier::type_invariant]
    spec fn inv(self) -> bool {
        is_roll(entries_of(self.entries@))
    }

    pub fn new() -> (r: Self)
        ensures
            r@ == (Roll { entries: Seq::empty(), last_generation: 0 }),
            is_roll(r@.entries),
    {
        let r = DeviceRegistry { entries: Vec::new(), last_generation: 0 };
        assert(r@.entries =~= Seq::empty());
        r
    }

    /// The generation of the task that polls the device of `id`.
    pub fn live_generation(&self, id: &DeviceId) -> (r: Option<u64>)
        ensures
            r == if has_device(self@.entries, id@) {
                entry_of(self@.entries, id@).task
            } else {
                None
            },
    {
        proof {
            use_type_invariant(self);
        }
        match find(&self.entries, id) {
            Some(i) => {
                proof {
                    entry_is_unique(self@.entries, i as int);
                }
                self.entries[i].task
            },
            None => None,
        }
    }

    /// Whether the task of `generation` polls the device of `id`.
    pub fn is_live(&self, id: &DeviceId, generation: u64) -> (r: bool)
        ensures
            r == exists|i: int|
                0 <= i < self@.entries.len() && is_spoken_for(
                    #[trigger] self@.entries[i],
                    id@,
                    generation,
                ),
    {
        proof {
            use_type_invariant(self);
        }
        let ghost s = self@.entries;
        let r = match self.live_generation(id) {
            Some(g) => g == generation,
            None => false,
        };
        proof {
            if has_device(s, id@) {
                let k = choose|k: int| 0 <= k < s.len() && (#[trigger] s[k]).key() == id@;
                entry_is_unique(s, k);
                assert(is_spoken_for(s[k], id@, generation) == r);
                assert forall|i: int| 0 <= i < s.len() && is_spoken_for(
                    #[trigger] s[i],
                    id@,
                    generation,
                ) implies r by {
                    entry_is_unique(s, i);
                }
            }
        }
        r
    }

    /// Applies a poll outcome to a device that is still registered, and says
    /// whether it is a reading to store. A result from any generation but the
    /// live one is ignored — a poll can win a race against the abort of its own
    /// task.
    ///
    /// Success sets `Online` and resets the failure count immediately. A
    /// failure only flips presence to `Unreachable` once it reaches
    /// `OFFLINE_AFTER_FAILURES` — a single dropped poll leaves presence (and
    /// any retained reading) untouched.
    pub fn record(
        &mut self,
        id: &DeviceId,
        generation: u64,
        reading: Option<BatteryReading>,
        now: BootTime,
    ) -> (store: bool)
        ensures
            final(self)@ == (Roll {
                entries: reported(
                    old(self)@.entries,
                    id@,
                    generation,
                    SourceEvent::Polled(reading),
                    now,
                ),
                ..old(self)@
            }),
            is_roll(final(self)@.entries),
            store == (reading is Some && exists|i: int|
                0 <= i < old(self)@.entries.len() && is_spoken_for(
                    #[trigger] old(self)@.entries[i],
                    id@,
                    generation,
                )),
    {
        proof {
            use_type_invariant(&*self);
        }
        let ghost s = self@.entries;
        let ghost f = |e: Entry|
            if is_spoken_for(e, id@, generation) {
                polled(e, reading, now)
            } else {
                e
            };
        let live = self.is_live(id, generation);
        let mut list: Vec<DeviceEntry> = Vec::new();
        std::mem::swap(&mut list, &mut self.entries);
        proof {
            assert forall|e: Entry| history::is_falling(e.history) implies history::is_falling(
                (#[trigger] f(e)).history,
            ) by {
                if let Some(r) = reading {
                    history::histories_fall(e.history, now, r.percent);
                }
            }
            map_keeps_roll(s, f);
            assert(reported(s, id@, generation, SourceEvent::Polled(reading), now) =~= s.map_values(
                f,
            ));
        }
        match find(&list, id) {
            Some(i) => {
                proof {
                    map_changes_one(s, i as int, f);
                    entry_is_unique(s, i as int);
                }
                if live {
                    list[i].take_poll(reading, now);
                }
                proof {
                    if !live {
                        assert(!is_spoken_for(s[i as int], id@, generation));
                    } else {
                        let k = choose|k: int|
                            0 <= k < s.len() && is_spoken_for(#[trigger] s[k], id@, generation);
                        entry_is_unique(s, k);
                    }
                    assert(entries_of(list@) =~= s.map_values(f));
                }
            },
            None => {
                assert(entries_of(list@) =~= s.map_values(f));
            },
        }
        self.entries = list;
        live && reading.is_some()
    }

    /// Marks a device that cannot be opened, at once.
    pub fn deny(&mut self, id: &DeviceId, generation: u64)
        ensures
            forall|now: BootTime|
                final(self)@ == (Roll {
                    entries: #[trigger] reported(
                        old(self)@.entries,
                        id@,
                        generation,
                        SourceEvent::AccessDenied,
                        now,
                    ),
                    ..old(self)@
                }),
            is_roll(final(self)@.entries),
    {
        proof {
            use_type_invariant(&*self);
        }
        let ghost s = self@.entries;
        let ghost f = |e: Entry|
            if is_spoken_for(e, id@, generation) {
                denied(e)
            } else {
                e
            };
        let live = self.is_live(id, generation);
        let mut list: Vec<DeviceEntry> = Vec::new();
        std::mem::swap(&mut list, &mut self.entries);
        proof {
            map_keeps_roll(s, f);
            assert forall|now: BootTime| #[trigger]
                reported(s, id@, generation, SourceEvent::AccessDenied, now) == s.map_values(f) by {
                assert(reported(s, id@, generation, SourceEvent::AccessDenied, now)
                    =~= s.map_values(f));
            }
        }
        match find(&list, id) {
            Some(i) => {
                proof {
                    map_changes_one(s, i as int, f);
                    entry_is_unique(s, i as int);
                }
                if live {
                    list[i].deny();
                }
                proof {
                    if live {
                        let k = choose|k: int|
                            0 <= k < s.len() && is_spoken_for(#[trigger] s[k], id@, generation);
                        entry_is_unique(s, k);
                    }
                    assert(entries_of(list@) =~= s.map_values(f));
                }
            },
            None => {
                assert(entries_of(list@) =~= s.map_values(f));
            },
        }
        self.entries = list;
    }

    /// Takes a device whose node was reassigned as having left, so the next
    /// sweep respawns it wherever it is now. Says whether its task is to be
    /// aborted.
    pub fn retire(&mut self, id: &DeviceId, generation: u64) -> (abort: bool)
        ensures
            forall|now: BootTime|
                final(self)@ == (Roll {
                    entries: #[trigger] reported(
                        old(self)@.entries,
                        id@,
                        generation,
                        SourceEvent::NodeReassigned,
                        now,
                    ),
                    ..old(self)@
                }),
            is_roll(final(self)@.entries),
            abort == exists|i: int|
                0 <= i < old(self)@.entries.len() && is_spoken_for(
                    #[trigger] old(self)@.entries[i],
                    id@,
                    generation,
                ),
    {
        proof {
            use_type_invariant(&*self);
        }
        let ghost s = self@.entries;
        let ghost f = |e: Entry|
            if is_spoken_for(e, id@, generation) {
                left(e)
            } else {
                e
            };
        let live = self.is_live(id, generation);
        let mut list: Vec<DeviceEntry> = Vec::new();
        std::mem::swap(&mut list, &mut self.entries);
        proof {
            map_keeps_roll(s, f);
            assert forall|now: BootTime| #[trigger]
                reported(s, id@, generation, SourceEvent::NodeReassigned, now) == s.map_values(
                    f,
                ) by {
                assert(reported(s, id@, generation, SourceEvent::NodeReassigned, now)
                    =~= s.map_values(f));
            }
        }
        match find(&list, id) {
            Some(i) => {
                proof {
                    map_changes_one(s, i as int, f);
                    entry_is_unique(s, i as int);
                }
                if live {
                    list[i].disconnect();
                }
                proof {
                    if live {
                        let k = choose|k: int|
                            0 <= k < s.len() && is_spoken_for(#[trigger] s[k], id@, generation);
                        entry_is_unique(s, k);
                    }
                    assert(entries_of(list@) =~= s.map_values(f));
                }
            },
            None => {
                assert(entries_of(list@) =~= s.map_values(f));
            },
        }
        self.entries = list;
        live
    }

    /// Admits each found device, then sees to the devices that were not found:
    /// a vanished one is disconnected only if its own backend's sweep
    /// succeeded. A failed sweep must not be more trigger-happy than polling,
    /// which demotes a device only after `OFFLINE_AFTER_FAILURES` misses.
    /// Finally drops what has been disconnected for too long.
    ///
    /// `succeeded` are the backends whose sweep did not fail, `ended` the
    /// generations of the tasks that are no longer running. `now` and
    /// `now_unix` are when the sweep came in, `end` when it has been taken in.
    pub fn reconcile(
        &mut self,
        found: &[Found],
        succeeded: &[&'static str],
        ended: &[u64],
        now: BootTime,
        now_unix: i64,
        end: BootTime,
    ) -> (r: Reconciled)
        ensures
            final(self)@ == reconciled(
                old(self)@,
                found@,
                types::word_texts(succeeded@),
                ended@,
                now,
                now_unix,
                end,
            ),
            r.actions@ == reconcile_actions(
                old(self)@,
                found@,
                types::word_texts(succeeded@),
                ended@,
                now,
                now_unix,
                end,
            ),
            rename_names(r.renames@) == renames_in(found@),
            is_roll(final(self)@.entries),
    {
        proof {
            use_type_invariant(&*self);
        }
        let ghost start = self@;
        let mut list: Vec<DeviceEntry> = Vec::new();
        std::mem::swap(&mut list, &mut self.entries);
        let mut last_generation: u64 = self.last_generation;
        let mut actions: Vec<TaskAction> = Vec::new();
        let mut renames: Vec<(String, String)> = Vec::new();
        let mut i: usize = 0;
        assert(rename_names(renames@) =~= Seq::empty());
        while i < found.len()
            invariant
                i <= found@.len(),
                is_roll(entries_of(list@)),
                admitted_all(start, found@.take(i as int), ended@, now, now_unix) == (Roll {
                    entries: entries_of(list@),
                    last_generation,
                }),
                actions@ == admit_all_actions(
                    start,
                    found@.take(i as int),
                    ended@,
                    now,
                    now_unix,
                ),
                rename_names(renames@) == renames_in(found@.take(i as int)),
            decreases found@.len() - i,
        {
            let f = &found[i];
            proof {
                assert(found@.take(i + 1).drop_last() == found@.take(i as int));
                assert(found@.take(i + 1).last() == *f);
            }
            match &f.seen {
                Some(Seen::Renamed { from }) => {
                    let ghost before = renames@;
                    renames.push((from.clone(), f.info.name.clone()));
                    assert(rename_names(renames@) =~= rename_names(before).push(
                        (from@, f.info.name@),
                    ));
                },
                _ => {},
            }
            take_in(&mut list, &mut last_generation, &mut actions, f, i, ended, now, now_unix);
            i += 1;
        }
        assert(found@.take(i as int) == found@);
        let ghost fresh = fresh_keys(found@);
        let ghost names = types::word_texts(succeeded@);
        let ghost admitted_entries = entries_of(list@);
        demote_crashed(&mut list, found, succeeded, ended);
        proof {
            map_keeps_roll(
                admitted_entries,
                |e: Entry|
                    if is_stranded(e, fresh, names, ended@) {
                        crashed(e)
                    } else {
                        e
                    },
            );
        }
        let ghost demoted_entries = entries_of(list@);
        let vanished = retire_vanished(&mut list, found, succeeded);
        proof {
            map_keeps_roll(
                demoted_entries,
                |e: Entry|
                    if has_vanished(e, fresh, names) {
                        left(e)
                    } else {
                        e
                    },
            );
        }
        let ghost retired_entries = entries_of(list@);
        let stale = prune_stale(&mut list, end);
        proof {
            filter_keeps_roll(retired_entries, |e: Entry| !is_stale(e, end));
        }
        push_aborts(&mut actions, &vanished);
        push_aborts(&mut actions, &stale);
        self.last_generation = last_generation;
        self.entries = list;
        Reconciled { renames, actions }
    }

    /// Takes in what a polling task reports, and says what to do about it.
    pub fn take_report(
        &mut self,
        id: &DeviceId,
        generation: u64,
        event: SourceEvent,
        now: BootTime,
    ) -> (r: Followup)
        ensures
            final(self)@ == (Roll {
                entries: reported(old(self)@.entries, id@, generation, event, now),
                ..old(self)@
            }),
            is_roll(final(self)@.entries),
            ({
                let live = exists|i: int|
                    0 <= i < old(self)@.entries.len() && is_spoken_for(
                        #[trigger] old(self)@.entries[i],
                        id@,
                        generation,
                    );
                r == match event {
                    SourceEvent::Polled(Some(reading)) if live => Followup::Store(reading),
                    SourceEvent::NodeReassigned if live => Followup::Abort,
                    _ => Followup::Nothing,
                }
            }),
    {
        match event {
            SourceEvent::Polled(reading) => {
                let store = self.record(id, generation, reading, now);
                match reading {
                    Some(r) => if store {
                        Followup::Store(r)
                    } else {
                        Followup::Nothing
                    },
                    None => Followup::Nothing,
                }
            },
            SourceEvent::AccessDenied => {
                self.deny(id, generation);
                assert(self@.entries == reported(old(self)@.entries, id@, generation, event, now));
                Followup::Nothing
            },
            SourceEvent::NodeReassigned => {
                let abort = self.retire(id, generation);
                assert(self@.entries == reported(old(self)@.entries, id@, generation, event, now));
                if abort {
                    Followup::Abort
                } else {
                    Followup::Nothing
                }
            },
        }
    }

    /// Drops `Disconnected` entries that have not been seen for longer than the
    /// retention. An entry that never produced a reading has nothing to retain,
    /// so it is dropped on disconnect rather than waiting out the cap.
    pub fn prune_stale(&mut self, now: BootTime) -> (actions: Vec<TaskAction>)
        ensures
            final(self)@ == (Roll { entries: pruned(old(self)@.entries, now), ..old(self)@ }),
            is_roll(final(self)@.entries),
            actions@ == aborts(
                tasks_of(old(self)@.entries.filter(|e: Entry| is_stale(e, now))),
            ),
    {
        proof {
            use_type_invariant(&*self);
            filter_keeps_roll(self@.entries, |e: Entry| !is_stale(e, now));
        }
        let mut list: Vec<DeviceEntry> = Vec::new();
        std::mem::swap(&mut list, &mut self.entries);
        let stale = prune_stale(&mut list, now);
        self.entries = list;
        let mut actions: Vec<TaskAction> = Vec::new();
        push_aborts(&mut actions, &stale);
        actions
    }

    /// Every device's published state, in discovery order.
    pub fn snapshot(&self) -> (r: Vec<DeviceState>)
        ensures
            r@.len() == self@.entries.len(),
            forall|i: int|
                0 <= i < r@.len() ==> shows_entry(#[trigger] r@[i], self@.entries[i]),
    {
        let mut r: Vec<DeviceState> = Vec::new();
        let mut i: usize = 0;
        while i < self.entries.len()
            invariant
                i <= self.entries@.len(),
                r@.len() == i,
                forall|k: int|
                    0 <= k < i ==> shows_entry(#[trigger] r@[k], self.entries@[k]@),
            decreases self.entries@.len() - i,
        {
            r.push(self.entries[i].state());
            i += 1;
        }
        r
    }

    /// Every device's name, in discovery order.
    pub fn names(&self) -> (r: Vec<String>)
        ensures
            strings::texts(r@) == self@.entries.map_values(|e: Entry| e.info.name@),
    {
        let mut r: Vec<String> = Vec::new();
        let mut i: usize = 0;
        while i < self.entries.len()
            invariant
                i <= self.entries@.len(),
                r@.len() == i,
                forall|k: int| 0 <= k < i ==> (#[trigger] r@[k])@ == self.entries@[k]@.info.name@,
            decreases self.entries@.len() - i,
        {
            r.push(self.entries[i].info.name.clone());
            i += 1;
        }
        assert(strings::texts(r@) =~= self@.entries.map_values(|e: Entry| e.info.name@));
        r
    }
}

// --- laws --------------------------------------------------------------------

/// A report whose generation speaks for no device changes nothing: what a
/// retired task queued before its replacement was spawned is dropped.
pub proof fn a_stale_report_changes_nothing(
    s: Seq<Entry>,
    key: DeviceKey,
    generation: u64,
    event: SourceEvent,
    now: BootTime,
)
    requires
        forall|i: int| 0 <= i < s.len() ==> !is_spoken_for(#[trigger] s[i], key, generation),
    ensures
        reported(s, key, generation, event, now) == s,
{
    assert(reported(s, key, generation, event, now) =~= s);
}

/// No report adds, removes or reorders devices, and only a live reading
/// replaces the reading that is retained.
pub proof fn reports_keep_the_roster(
    s: Seq<Entry>,
    key: DeviceKey,
    generation: u64,
    event: SourceEvent,
    now: BootTime,
    i: int,
)
    requires
        0 <= i < s.len(),
    ensures
        reported(s, key, generation, event, now).len() == s.len(),
        reported(s, key, generation, event, now)[i].key() == s[i].key(),
        !(event is Polled && event->Polled_0 is Some) ==> {
            let after = reported(s, key, generation, event, now)[i];
            after.last_reading == s[i].last_reading && after.last_seen == s[i].last_seen
        },
{
}

/// An entry after `n` failed polls in a row.
pub open spec fn missed(e: Entry, n: nat, now: BootTime) -> Entry
    decreases n,
{
    if n == 0 {
        e
    } else {
        polled(missed(e, (n - 1) as nat, now), None, now)
    }
}

proof fn misses_add_up(e: Entry, n: nat, now: BootTime)
    requires
        e.failures + n <= u32::MAX,
    ensures
        missed(e, n, now).failures == e.failures + n,
        missed(e, n, now).presence == if n > 0 && e.failures + n >= OFFLINE_AFTER_FAILURES {
            Presence::Unreachable
        } else {
            e.presence
        },
        missed(e, n, now).last_reading == e.last_reading,
        missed(e, n, now).last_seen == e.last_seen,
    decreases n,
{
    if n > 0 {
        misses_add_up(e, (n - 1) as nat, now);
    }
}

/// A device that answered at its last poll keeps its presence through fewer
/// than `OFFLINE_AFTER_FAILURES` failed polls, is unreachable from then on,
/// and keeps its reading all along.
pub proof fn dropped_polls_are_forgiven(e: Entry, n: nat, now: BootTime)
    requires
        e.failures == 0,
        n <= u32::MAX,
    ensures
        n < OFFLINE_AFTER_FAILURES ==> missed(e, n, now).presence == e.presence,
        n >= OFFLINE_AFTER_FAILURES ==> missed(e, n, now).presence == Presence::Unreachable,
        missed(e, n, now).last_reading == e.last_reading,
        missed(e, n, now).last_seen == e.last_seen,
{
    misses_add_up(e, n, now);
}

/// A reading makes a device online whatever it was, with every failure forgiven.
pub proof fn a_reading_brings_a_device_online(e: Entry, reading: BatteryReading, now: BootTime)
    ensures
        polled(e, Some(reading), now).presence == Presence::Online,
        polled(e, Some(reading), now).failures == 0,
        polled(e, Some(reading), now).last_reading == Some(reading),
        polled(e, Some(reading), now).last_seen == Some(now),
{
}

/// Once a denied device can be opened again, a silent poll reads unreachable
/// at once, not after the usual grace.
pub proof fn a_denial_leaves_no_grace(e: Entry, now: BootTime)
    ensures
        denied(e).presence == Presence::NoAccess,
        polled(denied(e), None, now).presence == Presence::Unreachable,
{
}

/// A device that left is given the usual grace when it comes back.
pub proof fn a_returning_device_has_its_grace(e: Entry, f: Found, generation: u64, now: BootTime)
    ensures
        found_again(left(e), f, generation).failures == 0,
        polled(found_again(left(e), f, generation), None, now).presence == Presence::Disconnected,
{
}

/// A renamed device's old name leaves the roster at once.
pub proof fn the_old_name_leaves_the_roster(
    r: Roll,
    f: Found,
    key: DeviceKey,
    ended: Seq<u64>,
    now: BootTime,
    now_unix: i64,
)
    requires
        is_roll(r.entries),
        old_key(f) == Some(key),
        key != f.info.key(),
    ensures
        !has_device(admitted(r, f, ended, now, now_unix).entries, key),
{
    let s = forgotten(r.entries, key);
    filter_keeps_roll(r.entries, |e: Entry| e.key() != key);
    let t = admitted(r, f, ended, now, now_unix).entries;
    assert forall|i: int| 0 <= i < t.len() implies (#[trigger] t[i]).key() != key by {
        if i < s.len() {
            assert(s.contains(s[i]));
        }
    }
}

pub(crate) proof fn admitting_keeps_roll(
    r: Roll,
    f: Found,
    ended: Seq<u64>,
    now: BootTime,
    now_unix: i64,
)
    requires
        is_roll(r.entries),
        history::is_falling(history::seeded(f.rows@, now, now_unix)),
    ensures
        is_roll(admitted(r, f, ended, now, now_unix).entries),
{
    let s = without_old_name(r.entries, f);
    let key = f.info.key();
    let generation = next_generation(r.last_generation);
    match old_key(f) {
        Some(k) => {
            filter_keeps_roll(r.entries, |e: Entry| e.key() != k);
        },
        None => {},
    }
    if is_polled(s, key, ended) {
    } else if has_device(s, key) {
        map_keeps_roll(
            s,
            |e: Entry|
                if e.key() == key {
                    found_again(e, f, generation)
                } else {
                    e
                },
        );
    } else {
        let t = s.push(found_first(f, generation, now, now_unix));
        assert forall|a: int, b: int| 0 <= a < b < t.len() implies (#[trigger] t[a]).key() != (
        #[trigger] t[b]).key() by {
            if b == s.len() {
                assert(s[a].key() != key);
            }
        }
    }
}

pub(crate) proof fn seeding_falls(rows: Seq<(i64, u8)>, now: BootTime, now_unix: i64)
    ensures
        history::is_falling(history::seeded(rows, now, now_unix)),
    decreases rows.len(),
{
    if rows.len() > 0 {
        seeding_falls(rows.drop_first(), now, now_unix);
        let at = history::clock_before(now, history::age_secs(now_unix, rows[0].0));
        history::histories_fall(
            history::seeded(rows.drop_first(), now, now_unix),
            time::point(at),
            rows[0].1,
        );
    }
}

/// Whether every entry of a device among `fresh` has a task.
pub(crate) open spec fn fresh_are_polled(s: Seq<Entry>, fresh: Seq<DeviceKey>) -> bool {
    forall|i: int|
        0 <= i < s.len() && fresh.contains((#[trigger] s[i]).key()) ==> s[i].task is Some
}

pub(crate) proof fn admitting_polls(
    r: Roll,
    found: Seq<Found>,
    ended: Seq<u64>,
    now: BootTime,
    now_unix: i64,
)
    requires
        is_roll(r.entries),
    ensures
        is_roll(admitted_all(r, found, ended, now, now_unix).entries),
        fresh_are_polled(
            admitted_all(r, found, ended, now, now_unix).entries,
            fresh_keys(found),
        ),
    decreases found.len(),
{
    if found.len() > 0 {
        let earlier = found.drop_last();
        let f = found.last();
        let key = f.info.key();
        admitting_polls(r, earlier, ended, now, now_unix);
        let before = admitted_all(r, earlier, ended, now, now_unix);
        seeding_falls(f.rows@, now, now_unix);
        admitting_keeps_roll(before, f, ended, now, now_unix);
        let s = without_old_name(before.entries, f);
        match old_key(f) {
            Some(k) => {
                filter_keeps_roll(before.entries, |e: Entry| e.key() != k);
            },
            None => {},
        }
        let t = admitted(before, f, ended, now, now_unix).entries;
        let fresh = fresh_keys(found);
        assert forall|i: int| 0 <= i < t.len() && fresh.contains((#[trigger] t[i]).key()) implies
            t[i].task is Some by {
            if i < s.len() {
                assert(s[i].key() == t[i].key());
                assert(s.contains(s[i]));
                let m = before.entries.index_of(s[i]);
                assert(before.entries[m] == s[i]);
                if t[i].key() == key {
                    entry_is_unique(s, i);
                } else {
                    let k = fresh.index_of(t[i].key());
                    assert(fresh_keys(earlier)[k] == t[i].key());
                }
            }
        }
    }
}

/// After a sweep, a listed device that was found has a task; one that its
/// backend, whose sweep succeeded, did not find has none.
pub proof fn the_found_are_polled(
    r: Roll,
    found: Seq<Found>,
    succeeded: Seq<Seq<char>>,
    ended: Seq<u64>,
    now: BootTime,
    now_unix: i64,
    end: BootTime,
    e: Entry,
)
    requires
        is_roll(r.entries),
        reconciled(r, found, succeeded, ended, now, now_unix, end).entries.contains(e),
    ensures
        fresh_keys(found).contains(e.key()) ==> e.task is Some,
        !fresh_keys(found).contains(e.key()) && succeeded.contains(e.backend) ==> e.task is None,
{
    let fresh = fresh_keys(found);
    let a = admitted_all(r, found, ended, now, now_unix).entries;
    admitting_polls(r, found, ended, now, now_unix);
    let d = demoted(a, fresh, succeeded, ended);
    map_keeps_roll(
        a,
        |e: Entry|
            if is_stranded(e, fresh, succeeded, ended) {
                crashed(e)
            } else {
                e
            },
    );
    let t = retired(d, fresh, succeeded);
    map_keeps_roll(
        d,
        |e: Entry|
            if has_vanished(e, fresh, succeeded) {
                left(e)
            } else {
                e
            },
    );
    filter_keeps_roll(t, |e: Entry| !is_stale(e, end));
    assert(t.contains(e));
    let k = t.index_of(e);
    assert(a[k].key() == e.key());
    assert(d[k].key() == e.key());
}

/// Whether the sweep renames the device of `key`.
pub open spec fn is_renamed_away(found: Seq<Found>, key: DeviceKey) -> bool {
    exists|i: int| 0 <= i < found.len() && old_key(#[trigger] found[i]) == Some(key)
}

pub(crate) proof fn filter_keeps(s: Seq<Entry>, p: spec_fn(Entry) -> bool, e: Entry)
    requires
        s.contains(e),
        p(e),
    ensures
        s.filter(p).contains(e),
    decreases s.len(),
{
    reveal(Seq::filter);
    let i = s.index_of(e);
    if i == s.len() - 1 {
        let t = s.drop_last().filter(p).push(e);
        assert(t[t.len() - 1] == e);
    } else {
        assert(s.drop_last()[i] == e);
        filter_keeps(s.drop_last(), p, e);
        let t = s.drop_last().filter(p);
        let u = t.push(s.last());
        assert(u[t.index_of(e)] == e);
    }
}

pub(crate) proof fn admitting_spares_others(
    r: Roll,
    found: Seq<Found>,
    ended: Seq<u64>,
    now: BootTime,
    now_unix: i64,
    e: Entry,
)
    requires
        r.entries.contains(e),
        !fresh_keys(found).contains(e.key()),
        !is_renamed_away(found, e.key()),
    ensures
        admitted_all(r, found, ended, now, now_unix).entries.contains(e),
    decreases found.len(),
{
    if found.len() > 0 {
        let earlier = found.drop_last();
        let f = found.last();
        let key = f.info.key();
        assert(fresh_keys(found)[found.len() - 1] == key);
        assert(found[found.len() - 1] == f);
        assert forall|i: int| 0 <= i < fresh_keys(earlier).len() implies fresh_keys(earlier)[i]
            != e.key() by {
            assert(fresh_keys(found)[i] == fresh_keys(earlier)[i]);
        }
        assert forall|i: int| 0 <= i < earlier.len() implies old_key(#[trigger] earlier[i])
            != Some(e.key()) by {
            assert(found[i] == earlier[i]);
        }
        admitting_spares_others(r, earlier, ended, now, now_unix, e);
        let before = admitted_all(r, earlier, ended, now, now_unix).entries;
        let s = without_old_name(before, f);
        match old_key(f) {
            Some(k) => {
                filter_keeps(before, |x: Entry| x.key() != k, e);
            },
            None => {},
        }
        let m = s.index_of(e);
        let t = admitted(
            admitted_all(r, earlier, ended, now, now_unix),
            f,
            ended,
            now,
            now_unix,
        ).entries;
        assert(s[m] == e);
        assert(t[m] == e);
    }
}

/// A failed sweep is no news of the devices its backend owns: one that is
/// still polled stays exactly as it was.
pub proof fn a_failed_sweep_changes_no_device(
    r: Roll,
    found: Seq<Found>,
    succeeded: Seq<Seq<char>>,
    ended: Seq<u64>,
    now: BootTime,
    now_unix: i64,
    end: BootTime,
    e: Entry,
)
    requires
        r.entries.contains(e),
        e.task is Some,
        !ended.contains(e.task->0),
        !succeeded.contains(e.backend),
        !fresh_keys(found).contains(e.key()),
        !is_renamed_away(found, e.key()),
        !is_stale(e, end),
    ensures
        reconciled(r, found, succeeded, ended, now, now_unix, end).entries.contains(e),
{
    let fresh = fresh_keys(found);
    admitting_spares_others(r, found, ended, now, now_unix, e);
    let a = admitted_all(r, found, ended, now, now_unix).entries;
    let d = demoted(a, fresh, succeeded, ended);
    let t = retired(d, fresh, succeeded);
    let k = a.index_of(e);
    assert(a[k] == e);
    assert(d[k] == e);
    assert(t[k] == e);
    filter_keeps(t, |x: Entry| !is_stale(x, end), e);
}

/// A device that vanishes keeps its reading: it is listed as disconnected
/// until the reading is past its retention.
pub proof fn a_vanished_device_is_remembered(
    r: Roll,
    found: Seq<Found>,
    succeeded: Seq<Seq<char>>,
    ended: Seq<u64>,
    now: BootTime,
    now_unix: i64,
    end: BootTime,
    e: Entry,
)
    requires
        r.entries.contains(e),
        has_vanished(e, fresh_keys(found), succeeded),
        !is_renamed_away(found, e.key()),
        e.last_seen is Some,
        time::elapsed(end, e.last_seen->0) <= DISCONNECTED_RETENTION_SECS * 1_000_000_000,
    ensures
        reconciled(r, found, succeeded, ended, now, now_unix, end).entries.contains(left(e)),
        left(e).last_reading == e.last_reading,
        left(e).presence == Presence::Disconnected,
{
    let fresh = fresh_keys(found);
    admitting_spares_others(r, found, ended, now, now_unix, e);
    let a = admitted_all(r, found, ended, now, now_unix).entries;
    let d = demoted(a, fresh, succeeded, ended);
    let t = retired(d, fresh, succeeded);
    let k = a.index_of(e);
    assert(a[k] == e);
    assert(d[k] == e);
    assert(t[k] == left(e));
    filter_keeps(t, |x: Entry| !is_stale(x, end), left(e));
}

/// Whether the reading of `e` is the one `s` holds of its device.
spec fn reading_is_from(s: Seq<Entry>, e: Entry) -> bool {
    has_device(s, e.key()) && entry_of(s, e.key()).last_reading == e.last_reading && entry_of(
        s,
        e.key(),
    ).last_seen == e.last_seen
}

proof fn admitting_invents_no_reading(
    r: Roll,
    found: Seq<Found>,
    ended: Seq<u64>,
    now: BootTime,
    now_unix: i64,
    e: Entry,
)
    requires
        is_roll(r.entries),
        admitted_all(r, found, ended, now, now_unix).entries.contains(e),
        e.last_reading is Some,
    ensures
        reading_is_from(r.entries, e),
    decreases found.len(),
{
    if found.len() == 0 {
        entry_is_unique(r.entries, r.entries.index_of(e));
    } else {
        let earlier = found.drop_last();
        let f = found.last();
        let before = admitted_all(r, earlier, ended, now, now_unix);
        admitting_polls(r, earlier, ended, now, now_unix);
        let s = without_old_name(before.entries, f);
        match old_key(f) {
            Some(k) => {
                filter_keeps_roll(before.entries, |x: Entry| x.key() != k);
            },
            None => {},
        }
        let t = admitted(before, f, ended, now, now_unix).entries;
        let i = t.index_of(e);
        assert(i < s.len());
        assert(s.contains(s[i]));
        admitting_invents_no_reading(r, earlier, ended, now, now_unix, s[i]);
    }
}

/// A sweep invents no reading: whatever is shown after it was read before it,
/// from the same device.
pub proof fn a_sweep_invents_no_reading(
    r: Roll,
    found: Seq<Found>,
    succeeded: Seq<Seq<char>>,
    ended: Seq<u64>,
    now: BootTime,
    now_unix: i64,
    end: BootTime,
    e: Entry,
)
    requires
        is_roll(r.entries),
        reconciled(r, found, succeeded, ended, now, now_unix, end).entries.contains(e),
        e.last_reading is Some,
    ensures
        has_device(r.entries, e.key()),
        entry_of(r.entries, e.key()).last_reading == e.last_reading,
        entry_of(r.entries, e.key()).last_seen == e.last_seen,
{
    let fresh = fresh_keys(found);
    let a = admitted_all(r, found, ended, now, now_unix).entries;
    admitting_polls(r, found, ended, now, now_unix);
    let d = demoted(a, fresh, succeeded, ended);
    map_keeps_roll(
        a,
        |e: Entry|
            if is_stranded(e, fresh, succeeded, ended) {
                crashed(e)
            } else {
                e
            },
    );
    let t = retired(d, fresh, succeeded);
    map_keeps_roll(
        d,
        |e: Entry|
            if has_vanished(e, fresh, succeeded) {
                left(e)
            } else {
                e
            },
    );
    filter_keeps_roll(t, |e: Entry| !is_stale(e, end));
    assert(t.contains(e));
    let k = t.index_of(e);
    assert(a.contains(a[k]));
    admitting_invents_no_reading(r, found, ended, now, now_unix, a[k]);
}

} // verus!
