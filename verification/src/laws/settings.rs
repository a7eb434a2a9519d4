//! The settings: what each of them governs.

use crate::app::migration::{self, MigrationStep};
use crate::config::{self, Settings};
use crate::domain::display::{DisplayMode, Palette, TrayMode};
use crate::strings;
use vstd::prelude::*;

verus! {

/// At most a whole battery.
pub open spec fn at_most_full(percent: u8) -> u8 {
    if percent <= 100 {
        percent
    } else {
        100
    }
}

/// The percent at which a device is low: its own override's where there is one,
/// else the global one; no more than a whole battery.
pub open spec fn own_threshold(s: Settings, name: Seq<char>) -> u8 {
    if s.overrides.dom().contains(name) && s.overrides[name].low_threshold is Some {
        at_most_full(s.overrides[name].low_threshold->0)
    } else {
        at_most_full(s.low_threshold)
    }
}

/// A device is low by its own override where it has one, and by the global
/// threshold otherwise.
pub proof fn thresholds_are_the_settings(s: Settings, name: Seq<char>)
    ensures
        s.threshold(name) == own_threshold(s, name),
        s.threshold(name) <= 100,
{
}

/// A device is polled at its own interval where it has one, and at the global
/// one otherwise; never more often than every second.
pub proof fn intervals_are_the_settings(s: Settings, name: Seq<char>)
    ensures
        s.poll_secs(name) >= 1,
        s.overrides.dom().contains(name) && s.overrides[name].poll_interval_secs is Some
            && s.overrides[name].poll_interval_secs->0 >= 1 ==> s.poll_secs(name)
            == s.overrides[name].poll_interval_secs->0,
        !(s.overrides.dom().contains(name) && s.overrides[name].poll_interval_secs is Some)
            && s.poll_interval_secs >= 1 ==> s.poll_secs(name) == s.poll_interval_secs,
{
}

/// A device is hidden exactly if the settings list its name as hidden.
pub proof fn the_listed_are_hidden(s: Settings, name: Seq<char>)
    ensures
        s.shows(name) <==> (forall|i: int| 0 <= i < s.hidden.len() ==> #[trigger] s.hidden[i] != name),
{
    if !s.shows(name) {
        assert(s.hidden[s.hidden.index_of(name)] == name);
    }
}

/// Without a config file every device is shown, is low at twenty percent and is
/// polled every minute; there is one icon, a battery, and its device is chosen
/// automatically.
pub proof fn what_holds_without_a_config(name: Seq<char>)
    ensures
        ({
            let s = config::default_settings();
            &&& s.shows(name)
            &&& s.threshold(name) == 20
            &&& s.poll_secs(name) == 60
            &&& s.primary is None
            &&& s.shown.len() == 0
            &&& s.language is None
            &&& s.notifications_enabled
            &&& s.tray_mode == TrayMode::PrimaryOnly
            &&& s.display_mode == DisplayMode::IconOnly
            &&& s.palette == Palette::Catppuccin
        }),
{
}

// --- renames -----------------------------------------------------------------

/// A rename is worth saving exactly if the old name was hidden, had overrides of
/// its own or was pinned.
pub proof fn a_rename_matters_where_the_name_was_used(
    s: Settings,
    from: Seq<char>,
    to: Seq<char>,
)
    ensures
        config::any_renamed(s, seq![(from, to)]) == (s.hidden.contains(from)
            || s.overrides.dom().contains(from) || s.primary == Some(from)),
        config::renamed_all(s, seq![(from, to)]) == config::renamed(s, from, to),
{
    let one = seq![(from, to)];
    assert(one.drop_last() =~= Seq::empty());
    assert(config::renamed_all(s, one.drop_last()) == s);
    assert(!config::any_renamed(s, one.drop_last()));
}

/// Renames follow one another: what a device was given under its first name it
/// has under its last.
pub proof fn renames_follow_one_another(
    s: Settings,
    first: Seq<char>,
    second: Seq<char>,
    third: Seq<char>,
)
    requires
        first != second,
        second != third,
        first != third,
    ensures
        ({
            let after = config::renamed_all(s, seq![(first, second), (second, third)]);
            &&& s.hidden.contains(first) ==> after.hidden.contains(third)
            &&& s.overrides.dom().contains(first) ==> after.overrides.dom().contains(third)
                && after.overrides[third] == s.overrides[first]
            &&& s.primary == Some(first) ==> after.primary == Some(third)
            &&& !after.hidden.contains(first) && !after.hidden.contains(second)
            &&& !after.overrides.dom().contains(first) && !after.overrides.dom().contains(second)
            &&& after.primary != Some(first) && after.primary != Some(second)
        }),
{
    let both = seq![(first, second), (second, third)];
    let one = seq![(first, second)];
    assert(both.drop_last() =~= one);
    a_rename_matters_where_the_name_was_used(s, first, second);
    let mid = config::renamed(s, first, second);
    let after = config::renamed(mid, second, third);
    config::settings_follow_a_rename(s, first, second);
    config::settings_follow_a_rename(mid, second, third);
    config::the_old_name_is_gone(s, first, second);
    config::the_old_name_is_gone(mid, second, third);
    config::a_rename_touches_nothing_else(mid, second, third, first);
}

// --- the legacy whitelist ----------------------------------------------------

/// Whether a device on the whitelist has not been seen yet.
pub open spec fn is_waited_for(s: Settings, seen: Seq<Seq<char>>) -> bool {
    exists|i: int| 0 <= i < s.shown.len() && !seen.contains(#[trigger] s.shown[i])
}

/// The whitelist is converted as soon as every device on it has been seen, and at
/// the latest after ten sweeps; until then it is waited, and without one there is
/// nothing to do.
pub proof fn a_whitelist_waits_for_its_devices(
    s: Settings,
    seen: Seq<Seq<char>>,
    sweeps: u32,
    r: MigrationStep,
)
    requires
        migration::is_step(s, seen, sweeps, r),
    ensures
        (r is Done) == (s.shown.len() == 0),
        (r is Wait) == (s.shown.len() > 0 && is_waited_for(s, seen) && sweeps < 10),
{
    missing_are_waited_for(s, seen);
}

proof fn missing_are_waited_for(s: Settings, seen: Seq<Seq<char>>)
    ensures
        (migration::missing_names(s.shown, seen).len() > 0) == is_waited_for(s, seen),
{
    let absent = |name: Seq<char>| !seen.contains(name);
    let missing = s.shown.filter(absent);
    if missing.len() > 0 {
        let name = missing[0];
        s.shown.lemma_filter_pred(absent, 0);
        assert(missing.contains(name));
        s.shown.lemma_filter_contains_rev(absent, name);
        assert(s.shown[s.shown.index_of(name)] == name);
    }
    if is_waited_for(s, seen) {
        let i = choose|i: int| 0 <= i < s.shown.len() && !seen.contains(#[trigger] s.shown[i]);
        s.shown.lemma_filter_contains(absent, i);
        assert(missing.contains(s.shown[i]));
    }
}

/// What is saved then hides exactly what was hidden before and the devices that
/// were seen and not listed; the list itself is gone, and nothing else changes.
pub proof fn a_converted_whitelist_hides_the_others(
    s: Settings,
    seen: Seq<Seq<char>>,
    sweeps: u32,
    r: MigrationStep,
    name: Seq<char>,
)
    requires
        migration::is_step(s, seen, sweeps, r),
        r is Save,
    ensures
        ({
            let new = r->Save_0@;
            &&& new.hidden.contains(name) == (s.hidden.contains(name) || (seen.contains(name)
                && !s.shown.contains(name)))
            &&& new.shown.len() == 0
            &&& new.overrides == s.overrides
            &&& new.primary == s.primary
            &&& new.low_threshold == s.low_threshold
            &&& new.poll_interval_secs == s.poll_interval_secs
            &&& new.tray_mode == s.tray_mode
            &&& new.display_mode == s.display_mode
            &&& new.notifications_enabled == s.notifications_enabled
            &&& new.language == s.language
            &&& new.palette == s.palette
            &&& strings::texts(r->Save_1@).contains(name) ==> seen.contains(name)
                && !s.shown.contains(name) && !s.hidden.contains(name)
        }),
{
    migration::conversion_keeps_the_choice(s, seen, name);
    migration::hidden_names(s, seen, name);
}

} // verus!
