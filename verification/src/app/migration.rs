//! One-time conversion of a `shown_devices` whitelist into `hidden_devices`,
//! given the device names `discovered` by the supervisor's sweeps — the only
//! roster this conversion is allowed to depend on.
//!
//! A device absent from `discovered` (offline during that one sweep) is
//! unknowable and defaults to shown, same as an unlisted device did under
//! the old empty-means-all-shown rule; this is not lossless, only the best a
//! roster captured once allows. `hidden_devices` already on the config is
//! unioned in, not replaced. Because the returned config always clears
//! `shown_devices`, feeding that returned config back in makes a repeat call a
//! no-op regardless of what `discovered` grows to.

use crate::config::{self, Config, Settings};
use crate::strings;
use vstd::prelude::*;

verus! {

/// How many discovery sweeps the conversion will wait for a roster that
/// accounts for every name in the legacy whitelist: a few minutes — long
/// enough for Bluetooth peripherals to finish enumerating after login, short
/// enough that a whitelist naming a device the user has since sold does not
/// defer the conversion forever.
pub const MIGRATION_MAX_SWEEPS: u32 = 10;

/// The outcome of inspecting a legacy `shown_devices` whitelist against the
/// devices discovered so far.
#[derive(Debug, PartialEq, Eq)]
pub enum Migration {
    /// No legacy whitelist to convert.
    NotNeeded,
    /// The roster does not yet account for every name the user listed, so it
    /// cannot say which devices they meant to hide. Converting now would write
    /// a wrong answer that can never be corrected, because clearing
    /// `shown_devices` is what stops the conversion running again.
    Defer { missing: Vec<String> },
    /// Converted config, plus the names moved into `hidden_devices`.
    Ready(Box<Config>, Vec<String>),
}

/// The listed names that have not been discovered.
pub open spec fn missing_names(shown: Seq<Seq<char>>, discovered: Seq<Seq<char>>) -> Seq<
    Seq<char>,
> {
    shown.filter(|name: Seq<char>| !discovered.contains(name))
}

/// The discovered names to hide: those that are neither listed nor hidden yet,
/// each once.
pub open spec fn names_to_hide(s: Settings, discovered: Seq<Seq<char>>) -> Seq<Seq<char>>
    decreases discovered.len(),
{
    if discovered.len() == 0 {
        Seq::empty()
    } else {
        let before = names_to_hide(s, discovered.drop_last());
        let name = discovered.last();
        if s.shown.contains(name) || s.hidden.contains(name) || before.contains(name) {
            before
        } else {
            before.push(name)
        }
    }
}

/// The settings after the conversion.
pub open spec fn converted_settings(s: Settings, discovered: Seq<Seq<char>>) -> Settings {
    Settings { hidden: s.hidden + names_to_hide(s, discovered), shown: Seq::empty(), ..s }
}

/// Converts the legacy "show exactly these" whitelist into the "hide these"
/// list, given the devices discovered so far.
///
/// The conversion is only sound when the roster is complete enough: the
/// whitelist records what to *show*, so what to hide can only be derived from
/// the devices actually seen. The caller therefore defers until every listed
/// name has been seen, or until `MIGRATION_MAX_SWEEPS` sweeps have passed.
pub fn migrate_shown_devices(cfg: &Config, discovered: &[String]) -> (r: Migration)
    ensures
        ({
            let names = strings::texts(discovered@);
            let missing = missing_names(cfg@.shown, names);
            match r {
                Migration::NotNeeded => cfg@.shown.len() == 0,
                Migration::Defer { missing: unseen } => {
                    &&& cfg@.shown.len() > 0
                    &&& missing.len() > 0
                    &&& strings::texts(unseen@) == missing
                },
                Migration::Ready(new, moved) => {
                    &&& cfg@.shown.len() > 0
                    &&& missing.len() == 0
                    &&& new@ == converted_settings(cfg@, names)
                    &&& strings::texts(moved@) == names_to_hide(cfg@, names)
                },
            }
        }),
{
    if cfg.shown_devices.is_empty() {
        return Migration::NotNeeded;
    }
    let missing = unseen(&cfg.shown_devices, discovered);
    if !missing.is_empty() {
        assert(strings::texts(missing@).len() > 0);
        return Migration::Defer { missing };
    }
    assert(strings::texts(missing@).len() == 0);
    Migration::Ready(Box::new(converted(cfg, discovered)), moved_names(cfg, discovered))
}

fn unseen(shown: &Vec<String>, discovered: &[String]) -> (r: Vec<String>)
    ensures
        strings::texts(r@) == missing_names(strings::texts(shown@), strings::texts(discovered@)),
{
    let ghost names = strings::texts(shown@);
    let ghost found = strings::texts(discovered@);
    let ghost absent = |name: Seq<char>| !found.contains(name);
    let mut r: Vec<String> = Vec::new();
    let mut i: usize = 0;
    proof {
        reveal(Seq::filter);
        assert(strings::texts(r@) =~= names.take(0).filter(absent));
    }
    while i < shown.len()
        invariant
            names == strings::texts(shown@),
            found == strings::texts(discovered@),
            absent == |name: Seq<char>| !found.contains(name),
            i <= shown@.len(),
            strings::texts(r@) == names.take(i as int).filter(absent),
        decreases shown@.len() - i,
    {
        proof {
            reveal(Seq::filter);
            assert(names.take(i + 1).drop_last() == names.take(i as int));
            assert(names.take(i + 1).last() == names[i as int]);
        }
        if !config::lists(discovered, shown[i].as_str()) {
            let ghost before = r@;
            r.push(shown[i].clone());
            assert(strings::texts(r@) =~= strings::texts(before).push(names[i as int]));
        }
        i += 1;
    }
    assert(names.take(i as int) == names);
    r
}

/// The same conversion without the completeness check, for the deadline case.
pub fn converted(cfg: &Config, discovered: &[String]) -> (r: Config)
    ensures
        r@ == converted_settings(cfg@, strings::texts(discovered@)),
{
    let mut migrated = cfg.clone();
    let mut moved = moved_names(cfg, discovered);
    let ghost hidden = migrated.hidden_devices@;
    let ghost new = moved@;
    migrated.hidden_devices.append(&mut moved);
    assert(strings::texts(migrated.hidden_devices@) =~= strings::texts(hidden) + strings::texts(
        new,
    ));
    migrated.shown_devices = Vec::new();
    assert(migrated@.shown =~= Seq::empty());
    migrated
}

/// Names discovered but absent from the whitelist, i.e. the ones to hide.
pub fn moved_names(cfg: &Config, discovered: &[String]) -> (moved: Vec<String>)
    ensures
        strings::texts(moved@) == names_to_hide(cfg@, strings::texts(discovered@)),
{
    let ghost names = strings::texts(discovered@);
    let mut moved: Vec<String> = Vec::new();
    let mut i: usize = 0;
    assert(strings::texts(moved@) =~= Seq::empty());
    while i < discovered.len()
        invariant
            names == strings::texts(discovered@),
            i <= discovered@.len(),
            strings::texts(moved@) == names_to_hide(cfg@, names.take(i as int)),
        decreases discovered@.len() - i,
    {
        assert(names.take(i + 1).drop_last() == names.take(i as int));
        assert(names.take(i + 1).last() == names[i as int]);
        let name = &discovered[i];
        if !config::lists(cfg.shown_devices.as_slice(), name.as_str()) && !config::lists(
            cfg.hidden_devices.as_slice(),
            name.as_str(),
        ) && !config::lists(moved.as_slice(), name.as_str()) {
            let ghost before = moved@;
            moved.push(name.clone());
            assert(strings::texts(moved@) =~= strings::texts(before).push(names[i as int]));
        }
        i += 1;
    }
    assert(names.take(i as int) == names);
    moved
}

/// What to do about the whitelist after a sweep.
#[derive(Debug, PartialEq, Eq)]
pub enum MigrationStep {
    /// Nothing is left to convert, now or later.
    Done,
    /// Try again after the next sweep.
    Wait,
    /// Save this config and, once saved, publish it: the conversion is then
    /// done. A failed save is tried again after the next sweep. The second part
    /// are the names moved into `hidden_devices`.
    Save(Box<Config>, Vec<String>),
}

/// Whether `r` is what to do about the whitelist of `s`, `sweeps` sweeps after
/// the first.
pub open spec fn is_step(s: Settings, names: Seq<Seq<char>>, sweeps: u32, r: MigrationStep) -> bool {
    let complete = missing_names(s.shown, names).len() == 0;
    match r {
        MigrationStep::Done => s.shown.len() == 0,
        MigrationStep::Wait => s.shown.len() > 0 && !complete && sweeps < MIGRATION_MAX_SWEEPS,
        MigrationStep::Save(new, moved) => {
            &&& s.shown.len() > 0
            &&& complete || sweeps >= MIGRATION_MAX_SWEEPS
            &&& new@ == converted_settings(s, names)
            &&& strings::texts(moved@) == names_to_hide(s, names)
        },
    }
}

/// Decides what to do about the whitelist of the config just loaded, `sweeps`
/// sweeps after the first: convert once every listed device has been seen, or
/// at the deadline with what there is.
pub fn migrate_shown_devices_once(cfg: &Config, discovered: &[String], sweeps: u32) -> (r:
    MigrationStep)
    ensures
        is_step(cfg@, strings::texts(discovered@), sweeps, r),
{
    match migrate_shown_devices(cfg, discovered) {
        Migration::NotNeeded => MigrationStep::Done,
        Migration::Defer { missing: _ } => {
            if sweeps < MIGRATION_MAX_SWEEPS {
                return MigrationStep::Wait;
            }
            MigrationStep::Save(Box::new(converted(cfg, discovered)), moved_names(cfg, discovered))
        },
        Migration::Ready(migrated, moved) => MigrationStep::Save(migrated, moved),
    }
}

/// How far the conversion has come in this process.
#[derive(Debug, PartialEq, Eq)]
pub struct Conversion {
    /// How often it has been attempted.
    pub sweeps: u32,
    /// Whether it is over for the life of the process, so that a device
    /// connecting later can never retrigger it.
    pub done: bool,
}

/// One more sweep, as far as the counter goes.
pub open spec fn next_sweep(sweeps: u32) -> u32 {
    if sweeps == u32::MAX {
        sweeps
    } else {
        (sweeps + 1) as u32
    }
}

impl Conversion {
    pub fn new() -> (r: Self)
        ensures
            r == (Conversion { sweeps: 0, done: false }),
    {
        Conversion { sweeps: 0, done: false }
    }

    /// Attempts the conversion after a sweep. Attempted per sweep, not per
    /// reading: readings arrive far more often, and counting those would burn
    /// the deadline in seconds instead of minutes.
    pub fn after_sweep(&mut self, cfg: &Config, discovered: &[String]) -> (r: MigrationStep)
        ensures
            old(self).done ==> r is Done && *final(self) == *old(self),
            !old(self).done ==> {
                &&& final(self).sweeps == next_sweep(old(self).sweeps)
                &&& final(self).done == (r is Done)
                &&& is_step(cfg@, strings::texts(discovered@), old(self).sweeps, r)
            },
    {
        if self.done {
            return MigrationStep::Done;
        }
        let step = migrate_shown_devices_once(cfg, discovered, self.sweeps);
        if self.sweeps < u32::MAX {
            self.sweeps = self.sweeps + 1;
        }
        match &step {
            MigrationStep::Done => {
                self.done = true;
            },
            _ => {},
        }
        step
    }

    /// The converted config has been saved.
    pub fn saved(&mut self)
        ensures
            *final(self) == (Conversion { done: true, ..*old(self) }),
    {
        self.done = true;
    }
}

// --- laws --------------------------------------------------------------------

/// Which names the conversion hides.
pub proof fn hidden_names(s: Settings, discovered: Seq<Seq<char>>, name: Seq<char>)
    ensures
        names_to_hide(s, discovered).contains(name) == (discovered.contains(name)
            && !s.shown.contains(name) && !s.hidden.contains(name)),
    decreases discovered.len(),
{
    if discovered.len() > 0 {
        let earlier = discovered.drop_last();
        let last = discovered.last();
        hidden_names(s, earlier, name);
        hidden_names(s, earlier, last);
        let before = names_to_hide(s, earlier);
        assert(discovered.contains(name) == (earlier.contains(name) || last == name)) by {
            if earlier.contains(name) {
                assert(discovered[earlier.index_of(name)] == name);
            }
            if last == name {
                assert(discovered[discovered.len() - 1] == name);
            }
            if discovered.contains(name) && last != name {
                assert(earlier[discovered.index_of(name)] == name);
            }
        }
        assert(before.push(last).contains(name) == (before.contains(name) || last == name)) by {
            if before.contains(name) {
                assert(before.push(last)[before.index_of(name)] == name);
            }
            assert(before.push(last)[before.len() as int] == last);
            if before.push(last).contains(name) && last != name {
                assert(before[before.push(last).index_of(name)] == name);
            }
        }
    }
}

/// After the conversion a device is shown exactly if it was not hidden before
/// and either was listed or was not among the devices seen.
pub proof fn conversion_keeps_the_choice(s: Settings, discovered: Seq<Seq<char>>, name: Seq<char>)
    ensures
        converted_settings(s, discovered).shows(name) == (s.shows(name) && (s.shown.contains(name)
            || !discovered.contains(name))),
{
    hidden_names(s, discovered, name);
    let moved = names_to_hide(s, discovered);
    let all = s.hidden + moved;
    assert(all.contains(name) == (s.hidden.contains(name) || moved.contains(name))) by {
        if s.hidden.contains(name) {
            assert(all[s.hidden.index_of(name)] == name);
        }
        if moved.contains(name) {
            assert(all[s.hidden.len() + moved.index_of(name)] == name);
        }
        if all.contains(name) {
            let i = all.index_of(name);
            if i < s.hidden.len() {
                assert(s.hidden[i] == name);
            } else {
                assert(moved[i - s.hidden.len()] == name);
            }
        }
    }
}

/// The conversion runs once: whatever is discovered after it, there is nothing
/// left to do.
pub proof fn conversion_runs_once(
    s: Settings,
    discovered: Seq<Seq<char>>,
    later: Seq<Seq<char>>,
    sweeps: u32,
    r: MigrationStep,
)
    requires
        is_step(converted_settings(s, discovered), later, sweeps, r),
    ensures
        r is Done,
{
}

/// The conversion does not wait for ever: at the deadline it is over or saved.
pub proof fn conversion_meets_its_deadline(
    s: Settings,
    discovered: Seq<Seq<char>>,
    sweeps: u32,
    r: MigrationStep,
)
    requires
        sweeps >= MIGRATION_MAX_SWEEPS,
        is_step(s, discovered, sweeps, r),
    ensures
        !(r is Wait),
{
}

/// The conversion touches the two lists of names and nothing else.
pub proof fn conversion_touches_nothing_else(
    s: Settings,
    discovered: Seq<Seq<char>>,
    name: Seq<char>,
)
    ensures
        converted_settings(s, discovered).threshold(name) == s.threshold(name),
        converted_settings(s, discovered).poll_secs(name) == s.poll_secs(name),
        converted_settings(s, discovered).primary == s.primary,
        converted_settings(s, discovered).overrides == s.overrides,
{
}

} // verus!
