//! Human-facing text for a device's state: the charge-state word, a coarse
//! age, and the one-line entry the tray menu, the status bar's tooltip and the
//! settings window all render. `now` and `lang` are always parameters.

use crate::domain::estimate::{self, Estimate};
use crate::domain::primary::PrimaryStatus;
use crate::domain::time::{self, BootTime, Duration};
use crate::domain::types::{ChargeState, DeviceState, Presence};
use crate::i18n::{self, Lang, Phrase};
use crate::strings;
use vstd::prelude::*;
use vstd::string::*;

verus! {

/// How often a shown age has to be rendered anew: ages are shown in minutes at
/// the finest.
pub const AGE_STEP_SECS: u64 = 60;

/// Marks a charging device's value.
pub const CHARGING_SIGN: char = '⚡';

/// Marks a low device's value.
pub const LOW_SIGN: char = '⚠';

/// The word for a charge state in machine-readable output and the table.
pub open spec fn state_word(state: ChargeState) -> Seq<char> {
    match state {
        ChargeState::Charging => "charging"@,
        ChargeState::Discharging => "discharging"@,
        ChargeState::Full => "full"@,
    }
}

/// Wire value for `--json` and `list`; never translated (see `state_label`).
pub fn state_str(state: ChargeState) -> (r: &'static str)
    ensures
        r@ == state_word(state),
{
    match state {
        ChargeState::Charging => "charging",
        ChargeState::Discharging => "discharging",
        ChargeState::Full => "full",
    }
}

/// The phrase that names a charge state.
pub open spec fn state_phrase(state: ChargeState) -> Phrase {
    match state {
        ChargeState::Charging => Phrase::StateCharging,
        ChargeState::Discharging => Phrase::StateDischarging,
        ChargeState::Full => Phrase::StateFull,
    }
}

pub fn state_label(state: ChargeState, lang: Lang) -> (r: String)
    ensures
        r@ == i18n::wording(state_phrase(state), lang),
{
    let name = match state {
        ChargeState::Charging => Phrase::StateCharging,
        ChargeState::Discharging => Phrase::StateDischarging,
        ChargeState::Full => Phrase::StateFull,
    };
    i18n::phrase(name, lang).to_owned()
}

/// In English the label of a charge state is its wire value.
pub proof fn english_labels_are_wire_values(state: ChargeState)
    ensures
        i18n::wording(state_phrase(state), Lang::En) == state_word(state),
{
}

/// An age of `nanos` nanoseconds in words.
pub open spec fn age_text(nanos: nat, lang: Lang) -> Seq<char> {
    let secs = nanos / 1_000_000_000;
    if secs < 60 {
        i18n::wording(Phrase::JustNow, lang)
    } else if secs < 3600 {
        strings::decimal(secs / 60) + i18n::wording(Phrase::MinutesAgo, lang)
    } else if secs < 86400 {
        strings::decimal(secs / 3600) + i18n::wording(Phrase::HoursAgo, lang)
    } else {
        strings::decimal(secs / 86400) + i18n::wording(Phrase::DaysAgo, lang)
    }
}

/// Formats a duration as a coarse, human-scale age string. Coarse units only
/// (never raw seconds) — this reads in a tooltip, not a log.
pub fn format_age(age: Duration, lang: Lang) -> (r: String)
    ensures
        r@ == age_text(age@, lang),
{
    let secs: u64 = age.as_secs();
    if secs < 60 {
        i18n::phrase(Phrase::JustNow, lang).to_owned()
    } else if secs < 3600 {
        let mut r = strings::decimal_text(secs / 60);
        r.append(i18n::phrase(Phrase::MinutesAgo, lang));
        r
    } else if secs < 86400 {
        let mut r = strings::decimal_text(secs / 3600);
        r.append(i18n::phrase(Phrase::HoursAgo, lang));
        r
    } else {
        let mut r = strings::decimal_text(secs / 86400);
        r.append(i18n::phrase(Phrase::DaysAgo, lang));
        r
    }
}

/// A shown age does not change within a minute that starts at a whole one, so
/// rendering it anew every `AGE_STEP_SECS` misses nothing.
pub proof fn ages_step_by_the_minute(minutes: nat, a: nat, b: nat, lang: Lang)
    requires
        minutes * AGE_STEP_SECS * 1_000_000_000 <= a,
        a < (minutes + 1) * AGE_STEP_SECS * 1_000_000_000,
        minutes * AGE_STEP_SECS * 1_000_000_000 <= b,
        b < (minutes + 1) * AGE_STEP_SECS * 1_000_000_000,
    ensures
        age_text(a, lang) == age_text(b, lang),
{
    let x = a / 1_000_000_000;
    let y = b / 1_000_000_000;
    assert(x / 60 == minutes && y / 60 == minutes);
    assert(x / 3600 == minutes / 60 && y / 3600 == minutes / 60);
    assert(x / 86400 == minutes / 1440 && y / 86400 == minutes / 1440);
}

/// What a live reading's entry says after the device's name.
pub open spec fn live_text(percent: u8, state: ChargeState, remaining: Estimate, lang: Lang) -> Seq<
    char,
> {
    let charge = strings::decimal(percent as nat) + "%  "@ + i18n::wording(
        state_phrase(state),
        lang,
    );
    match remaining {
        Estimate::Remaining(d) => charge + "  "@ + i18n::wording(Phrase::BeforeRemaining, lang)
            + estimate::coarse_text(d@, lang) + i18n::wording(Phrase::AfterRemaining, lang),
        Estimate::Unknown | Estimate::Charging => charge,
    }
}

/// What a remembered reading's entry says after the device's name.
pub open spec fn retained_text(percent: u8, age: nat, lang: Lang) -> Seq<char> {
    strings::decimal(percent as nat) + "%  "@ + i18n::wording(Phrase::Offline, lang) + " ("@
        + age_text(age, lang) + ")"@
}

/// A device's one-line entry.
pub open spec fn entry_text(d: DeviceState, now: BootTime, lang: Lang) -> Seq<char> {
    let lead = d.info.name@ + ": "@;
    if d.presence == Presence::NoAccess {
        lead + i18n::wording(Phrase::NoAccessHint, lang)
    } else if d.presence == Presence::Online {
        match d.last_reading {
            Some(r) => lead + live_text(r.percent, r.state, d.estimate, lang),
            None => lead + i18n::wording(Phrase::Offline, lang),
        }
    } else {
        match (d.last_reading, d.last_seen) {
            (Some(r), Some(seen)) => lead + retained_text(
                r.percent,
                time::elapsed(now, seen),
                lang,
            ),
            _ => lead + i18n::wording(Phrase::Offline, lang),
        }
    }
}

fn live_entry(percent: u8, state: ChargeState, remaining: Estimate, lang: Lang) -> (r: String)
    ensures
        r@ == live_text(percent, state, remaining, lang),
{
    let mut r = strings::decimal_text(percent as u64);
    r.append("%  ");
    r.append(state_label(state, lang).as_str());
    match remaining {
        Estimate::Remaining(d) => {
            r.append("  ");
            r.append(i18n::phrase(Phrase::BeforeRemaining, lang));
            r.append(estimate::format_coarse(d, lang).as_str());
            r.append(i18n::phrase(Phrase::AfterRemaining, lang));
        },
        Estimate::Unknown | Estimate::Charging => {},
    }
    r
}

fn retained_entry(percent: u8, age: Duration, lang: Lang) -> (r: String)
    ensures
        r@ == retained_text(percent, age@, lang),
{
    let mut r = strings::decimal_text(percent as u64);
    r.append("%  ");
    r.append(i18n::phrase(Phrase::Offline, lang));
    r.append(" (");
    r.append(format_age(age, lang).as_str());
    r.append(")");
    r
}

/// Formats a device entry string for a menu item or tooltip.
///
/// `Online` renders the live reading. `Unreachable`/`Disconnected` render the
/// retained reading with its age (e.g. "88%  offline (2h ago)"), or plain
/// "offline" when there is nothing retained. `NoAccess` says how to fix it.
pub fn format_device_entry(state: &DeviceState, now: BootTime, lang: Lang) -> (r: String)
    ensures
        r@ == entry_text(*state, now, lang),
{
    let mut r = state.info.name.clone();
    r.append(": ");
    if state.presence == Presence::NoAccess {
        r.append(i18n::phrase(Phrase::NoAccessHint, lang));
        return r;
    }
    if state.presence == Presence::Online {
        match state.last_reading {
            Some(reading) => r.append(
                live_entry(reading.percent, reading.state, state.estimate, lang).as_str(),
            ),
            None => r.append(i18n::phrase(Phrase::Offline, lang)),
        }
        return r;
    }
    match (state.last_reading, state.last_seen) {
        (Some(reading), Some(seen)) => r.append(
            retained_entry(reading.percent, now.saturating_duration_since(seen), lang).as_str(),
        ),
        _ => r.append(i18n::phrase(Phrase::Offline, lang)),
    }
    r
}

/// A device's entry always opens with its name.
pub proof fn entries_open_with_the_name(d: DeviceState, now: BootTime, lang: Lang)
    ensures
        d.info.name@.is_prefix_of(entry_text(d, now, lang)),
{
    let entry = entry_text(d, now, lang);
    assert(entry.take(d.info.name@.len() as int) =~= d.info.name@);
}

/// The phrase that names a presence.
pub open spec fn presence_phrase(presence: Presence) -> Phrase {
    match presence {
        Presence::Online => Phrase::PresenceOnline,
        Presence::Unreachable => Phrase::PresenceUnreachable,
        Presence::Disconnected => Phrase::PresenceDisconnected,
        Presence::NoAccess => Phrase::PresenceNoAccess,
    }
}

fn presence_label(presence: Presence, lang: Lang) -> (r: &'static str)
    ensures
        r@ == i18n::wording(presence_phrase(presence), lang),
{
    let name = match presence {
        Presence::Online => Phrase::PresenceOnline,
        Presence::Unreachable => Phrase::PresenceUnreachable,
        Presence::Disconnected => Phrase::PresenceDisconnected,
        Presence::NoAccess => Phrase::PresenceNoAccess,
    };
    i18n::phrase(name, lang)
}

/// The sign in front of a device's value, which tells charging and low apart
/// without colour.
pub open spec fn sign_text(status: PrimaryStatus) -> Seq<char> {
    match status {
        PrimaryStatus::Low { .. } => seq![LOW_SIGN, ' '],
        PrimaryStatus::Charging { .. } => seq![CHARGING_SIGN, ' '],
        _ => Seq::empty(),
    }
}

/// A device row's value: the percentage of a live reading, or else the
/// presence, so that a remembered percentage never passes for a live one.
pub open spec fn value_text(
    presence: Presence,
    percent: Option<u8>,
    charge: Option<ChargeState>,
    status: PrimaryStatus,
    lang: Lang,
) -> Seq<char> {
    if presence == Presence::Online && percent is Some {
        let value = sign_text(status) + strings::decimal(percent->0 as nat) + "%"@;
        if charge == Some(ChargeState::Full) {
            value + " · "@ + i18n::wording(Phrase::StateFull, lang)
        } else {
            value
        }
    } else if status is Low {
        sign_text(status) + i18n::wording(presence_phrase(presence), lang)
    } else {
        i18n::wording(presence_phrase(presence), lang)
    }
}

/// A device row's value: the percentage of a live reading with its sign, else
/// the presence, with the low sign kept on a low memory.
pub fn charge_value(
    presence: Presence,
    percent: Option<u8>,
    charge: Option<ChargeState>,
    status: PrimaryStatus,
    lang: Lang,
) -> (r: String)
    ensures
        r@ == value_text(presence, percent, charge, status, lang),
{
    let mut r = String::new();
    let live = presence == Presence::Online && percent.is_some();
    match status {
        PrimaryStatus::Low { .. } => {
            r.push(LOW_SIGN);
            r.push(' ');
        },
        PrimaryStatus::Charging { .. } => if live {
            r.push(CHARGING_SIGN);
            r.push(' ');
        },
        _ => {},
    }
    let ghost sign = r@;
    assert(live || status is Low ==> sign =~= sign_text(status));
    assert(!live && !(status is Low) ==> sign =~= Seq::<char>::empty());
    if live {
        r.append(strings::decimal_text(percent.unwrap() as u64).as_str());
        r.append("%");
        match charge {
            Some(ChargeState::Full) => {
                r.append(" · ");
                r.append(i18n::phrase(Phrase::StateFull, lang));
            },
            _ => {},
        }
    } else {
        r.append(presence_label(presence, lang));
        assert(!(status is Low) ==> r@ =~= i18n::wording(presence_phrase(presence), lang));
    }
    r
}

/// A device row's note.
pub open spec fn note_text(
    presence: Presence,
    remaining: Option<nat>,
    age: Option<nat>,
    lang: Lang,
) -> Option<Seq<char>> {
    match presence {
        Presence::NoAccess => Some(i18n::wording(Phrase::NoteNoAccess, lang)),
        Presence::Online => match remaining {
            Some(left) => Some(
                i18n::wording(Phrase::BeforeRemaining, lang) + estimate::coarse_text(left, lang)
                    + i18n::wording(Phrase::AfterRemaining, lang),
            ),
            None => None,
        },
        _ => match age {
            Some(a) => Some(i18n::wording(Phrase::BeforeLastReading, lang) + age_text(a, lang)),
            None => None,
        },
    }
}

/// The nanoseconds of an optional span.
pub open spec fn optional_span(d: Option<Duration>) -> Option<nat> {
    match d {
        Some(span) => Some(span@),
        None => None,
    }
}

/// The characters of an optional text.
pub open spec fn optional_string(s: Option<String>) -> Option<Seq<char>> {
    match s {
        Some(text) => Some(text@),
        None => None,
    }
}

/// A device row's note: the remaining time of a live reading, the age of a
/// remembered one, or what to do about a device that cannot be opened.
pub fn status_note(
    presence: Presence,
    remaining: Option<Duration>,
    age: Option<Duration>,
    lang: Lang,
) -> (r: Option<String>)
    ensures
        optional_string(r) == note_text(
            presence,
            optional_span(remaining),
            optional_span(age),
            lang,
        ),
{
    match presence {
        Presence::NoAccess => Some(i18n::phrase(Phrase::NoteNoAccess, lang).to_owned()),
        Presence::Online => match remaining {
            Some(left) => {
                let mut r = i18n::phrase(Phrase::BeforeRemaining, lang).to_owned();
                r.append(estimate::format_coarse(left, lang).as_str());
                r.append(i18n::phrase(Phrase::AfterRemaining, lang));
                Some(r)
            },
            None => None,
        },
        _ => match age {
            Some(a) => {
                let mut r = i18n::phrase(Phrase::BeforeLastReading, lang).to_owned();
                r.append(format_age(a, lang).as_str());
                Some(r)
            },
            None => None,
        },
    }
}

} // verus!
