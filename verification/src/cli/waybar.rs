//! The line a status bar shows.

use crate::cli::json::{self, Json, JsonObject, JsonValue};
use crate::config::{Config, Settings};
use crate::domain::primary::{self, PrimaryStatus};
use crate::domain::roster::{self, Roster};
use crate::domain::text;
use crate::domain::time::BootTime;
use crate::domain::types::{self, DeviceState};
use crate::i18n::{self, Lang};
use crate::strings;
use vstd::prelude::*;
use vstd::string::*;

verus! {

/// How long, in seconds, the module waits for a first battery reading before
/// it prints whatever state it has.
pub const FIRST_SWEEP_WAIT_SECS: u64 = 2;

/// The line printed where none can be rendered.
pub const FALLBACK_LINE: &'static str = "{\"text\":\"error\",\"tooltip\":\"rigbat: failed to render status\",\"class\":\"offline\"}";

/// Which devices the settings show.
pub open spec fn shown_by(states: Seq<DeviceState>, s: Settings) -> Seq<bool> {
    Seq::new(states.len(), |i: int| s.shows(states[i].info.name@))
}

/// The devices a status surface lists, in its order.
pub open spec fn listed(states: Seq<DeviceState>, s: Settings, now: BootTime) -> Seq<DeviceState> {
    choose|list: Seq<DeviceState>| roster::is_roster(states, shown_by(states, s), now, list)
}

/// What is listed is the roster of the shown devices.
pub proof fn the_list_is_the_roster(states: Seq<DeviceState>, s: Settings, now: BootTime)
    requires
        states.len() <= usize::MAX,
    ensures
        roster::is_roster(states, shown_by(states, s), now, listed(states, s, now)),
{
    roster::a_roster_exists(states, shown_by(states, s), now);
}

/// The device a single view features, and its status.
pub open spec fn featured(states: Seq<DeviceState>, s: Settings, now: BootTime) -> Option<
    (DeviceState, PrimaryStatus),
> {
    match roster::featured_of(listed(states, s, now), s.primary) {
        Some(d) => Some((d, primary::status_of(d, s.threshold(d.info.name@)).0)),
        None => None,
    }
}

/// The devices a status surface lists, in its order.
pub(crate) fn roster_of<'a>(states: &'a [DeviceState], cfg: &Config, now: BootTime) -> (r: Roster<
    'a,
>)
    ensures
        r@ == listed(states@, cfg@, now),
        roster::is_roster(states@, shown_by(states@, cfg@), now, r@),
{
    let is_shown = |name: &str| -> (shown: bool)
        ensures
            shown == cfg@.shows(name@),
        { cfg.is_shown(name) };
    let r = Roster::visible(states, is_shown, now);
    let count: usize = states.len();
    proof {
        assert(states@.len() == count);
        let shown = choose|shown: Seq<bool>|
            {
                &&& shown.len() == states@.len()
                &&& forall|i: int|
                    0 <= i < states@.len() ==> roster::answers(
                        is_shown,
                        states@[i].info.name@,
                        #[trigger] shown[i],
                    )
                &&& #[trigger] roster::is_roster(states@, shown, now, r@)
            };
        assert forall|i: int| 0 <= i < states@.len() implies shown[i] == shown_by(
            states@,
            cfg@,
        )[i] by {
            assert(roster::answers(is_shown, states@[i].info.name@, shown[i]));
        }
        assert(shown =~= shown_by(states@, cfg@));
        roster::roster_is_unique(states@, shown, now, r@, listed(states@, cfg@, now));
    }
    r
}

/// The device the waybar module features and its status: the aggregate tray
/// icon's pick and classification.
pub fn waybar_featured<'a>(states: &'a [DeviceState], cfg: &Config, now: BootTime) -> (r: Option<
    (&'a DeviceState, PrimaryStatus),
>)
    ensures
        (match r {
            Some((d, status)) => Some((*d, status)),
            None => None,
        }) == featured(states@, cfg@, now),
{
    let roster = roster_of(states, cfg, now);
    let primary = match &cfg.primary_device {
        Some(name) => Some(name.as_str()),
        None => None,
    };
    assert(i18n::optional_text(primary) == cfg@.primary);
    match roster.featured(primary) {
        Some(device) => {
            let threshold: u8 = cfg.effective_low_threshold(device.info.name.as_str());
            let (status, _) = primary::device_status(device, threshold);
            Some((device, status))
        },
        None => None,
    }
}

/// The tooltip: a line per listed device.
pub open spec fn tooltip_text(list: Seq<DeviceState>, now: BootTime) -> Seq<char> {
    if list.len() == 0 {
        "No devices"@
    } else {
        strings::joined(
            list.map_values(|d: DeviceState| text::entry_text(d, now, Lang::En)),
            "\n"@,
        )
    }
}

/// A percentage as the module shows it.
pub open spec fn percent_text(percent: u8) -> Seq<char> {
    strings::decimal(percent as nat) + "%"@
}

/// The module's text.
pub open spec fn label_text(status: Option<PrimaryStatus>) -> Seq<char> {
    match status {
        None => "no devices"@,
        Some(PrimaryStatus::Offline) => "offline"@,
        Some(PrimaryStatus::Charging { percent }) => percent_text(percent),
        Some(PrimaryStatus::Low { percent }) => percent_text(percent),
        Some(PrimaryStatus::Normal { percent }) => percent_text(percent),
    }
}

/// The class the user's CSS styles the module by.
pub open spec fn class_text(status: Option<PrimaryStatus>) -> Seq<char> {
    match status {
        None => "offline"@,
        Some(PrimaryStatus::Offline) => "offline"@,
        Some(PrimaryStatus::Charging { .. }) => "charging"@,
        Some(PrimaryStatus::Low { .. }) => "low"@,
        Some(PrimaryStatus::Normal { .. }) => "ok"@,
    }
}

/// The percentage there is to report, if there is one.
pub open spec fn percentage_of(status: Option<PrimaryStatus>) -> Option<u8> {
    match status {
        None | Some(PrimaryStatus::Offline) => None,
        Some(PrimaryStatus::Charging { percent }) => Some(percent),
        Some(PrimaryStatus::Low { percent }) => Some(percent),
        Some(PrimaryStatus::Normal { percent }) => Some(percent),
    }
}

/// The module's payload.
pub open spec fn payload(states: Seq<DeviceState>, s: Settings, now: BootTime) -> Seq<
    (Seq<char>, Json),
> {
    let status = match featured(states, s, now) {
        Some((_, status)) => Some(status),
        None => None,
    };
    let fields = seq![
        ("text"@, Json::Text(label_text(status))),
        ("tooltip"@, Json::Text(tooltip_text(listed(states, s, now), now))),
        ("class"@, Json::Text(class_text(status))),
    ];
    match percentage_of(status) {
        Some(p) => fields.push(("percentage"@, Json::Number(p as nat))),
        None => fields,
    }
}

fn tooltip(roster: &Roster, now: BootTime) -> (r: String)
    ensures
        r@ == tooltip_text(roster@, now),
{
    let devices = roster.devices();
    let ghost list = roster@;
    assert(devices@.len() == list.len());
    if devices.len() == 0 {
        return "No devices".to_owned();
    }
    let mut lines: Vec<String> = Vec::new();
    let mut i: usize = 0;
    while i < devices.len()
        invariant
            list == roster@,
            devices@.map_values(|d: &DeviceState| *d) == list,
            i <= devices@.len(),
            lines@.len() == i,
            forall|k: int|
                0 <= k < i ==> (#[trigger] lines@[k])@ == text::entry_text(list[k], now, Lang::En),
        decreases devices@.len() - i,
    {
        assert(devices@.map_values(|d: &DeviceState| *d)[i as int] == *devices@[i as int]);
        // The command line always speaks English.
        lines.push(text::format_device_entry(devices[i], now, Lang::En));
        i += 1;
    }
    assert(strings::texts(lines@) =~= list.map_values(
        |d: DeviceState| text::entry_text(d, now, Lang::En),
    ));
    strings::join(&lines, "\n")
}

fn percent_label(percent: u8) -> (r: String)
    ensures
        r@ == percent_text(percent),
{
    let mut r = strings::decimal_text(percent as u64);
    r.append("%");
    r
}

/// Builds the waybar `custom` module payload (`return-type: json`): a single
/// object describing the featured device, with a tooltip line per device the
/// tray lists, in the tray's order.
///
/// `class` vocabulary: `charging`, `low`, `ok`, `offline`. `percentage` is
/// omitted, not `0`, when there is no reading to report.
pub fn to_waybar(states: &[DeviceState], cfg: &Config, now: BootTime) -> (o: JsonObject)
    ensures
        o@ == payload(states@, cfg@, now),
{
    let roster = roster_of(states, cfg, now);
    let tip = tooltip(&roster, now);
    let status = match waybar_featured(states, cfg, now) {
        Some((_, status)) => Some(status),
        None => None,
    };
    let (label, class, percentage): (String, &'static str, Option<u8>) = match status {
        None => ("no devices".to_owned(), "offline", None),
        Some(PrimaryStatus::Offline) => ("offline".to_owned(), "offline", None),
        Some(PrimaryStatus::Charging { percent }) => (
            percent_label(percent),
            "charging",
            Some(percent),
        ),
        Some(PrimaryStatus::Low { percent }) => (percent_label(percent), "low", Some(percent)),
        Some(PrimaryStatus::Normal { percent }) => (percent_label(percent), "ok", Some(percent)),
    };
    let mut o = JsonObject::new();
    o.put("text", JsonValue::Text(label));
    o.put("tooltip", JsonValue::Text(tip));
    o.put("class", JsonValue::Text(class.to_owned()));
    match percentage {
        Some(p) => o.put("percentage", JsonValue::Number(p as u64)),
        None => {},
    }
    assert(o@ =~= payload(states@, cfg@, now));
    o
}

/// The payload as one line of JSON — waybar's `custom` module reads exactly one
/// JSON object per line. Falls back to a valid (never empty) line, since a
/// custom module that receives malformed output logs an error on every update.
pub fn render_waybar_line(states: &[DeviceState], cfg: &Config, now: BootTime) -> (line: String)
    ensures
        line@ == match json::compact_json(payload(states@, cfg@, now)) {
            Some(t) => t,
            None => FALLBACK_LINE@,
        },
        !line@.contains('\n'),
{
    let object = to_waybar(states, cfg, now);
    let text = json::compact_text(&object);
    proof {
        reveal_strlit("{\"text\":\"error\",\"tooltip\":\"rigbat: failed to render status\",\"class\":\"offline\"}");
    }
    json::text_or(text, FALLBACK_LINE)
}

/// Whether there is a first frame worth printing: the featured device has a
/// reading, or no device is shown at all.
///
/// Judges the device the frame is actually built from. A roster can carry the
/// same mouse twice (sysfs and Bluetooth), and requiring every shown device to
/// answer never settles when one of them is permanently asleep.
pub fn is_settled(states: &[DeviceState], cfg: &Config, now: BootTime) -> (r: bool)
    ensures
        r == match featured(states@, cfg@, now) {
            Some((d, _)) => d.last_reading is Some,
            None => forall|i: int|
                0 <= i < states@.len() ==> !cfg@.shows((#[trigger] states@[i]).info.name@),
        },
{
    match waybar_featured(states, cfg, now) {
        Some((d, _)) => d.last_reading.is_some(),
        None => shows_none(states, cfg),
    }
}

fn shows_none(states: &[DeviceState], cfg: &Config) -> (r: bool)
    ensures
        r == forall|i: int|
            0 <= i < states@.len() ==> !cfg@.shows((#[trigger] states@[i]).info.name@),
{
    let mut i: usize = 0;
    while i < states.len()
        invariant
            i <= states@.len(),
            forall|k: int| 0 <= k < i ==> !cfg@.shows((#[trigger] states@[k]).info.name@),
        decreases states@.len() - i,
    {
        if cfg.is_shown(states[i].info.name.as_str()) {
            assert(cfg@.shows(states@[i as int].info.name@));
            return false;
        }
        i += 1;
    }
    true
}

/// Whether a rendered line is to be printed: not when it repeats the last one.
/// The state is republished on every poll, most of which leave the rendered
/// line as it was.
pub fn is_news(last: &Option<String>, line: &str) -> (r: bool)
    ensures
        r == (types::locator_text(*last) != Some(line@)),
{
    match last {
        Some(text) => !(*text.as_str() == *line),
        None => true,
    }
}

// --- laws --------------------------------------------------------------------

/// The module reports a percentage exactly when its class says there is one.
pub proof fn a_percentage_needs_a_reading(status: Option<PrimaryStatus>)
    ensures
        (percentage_of(status) is None) == (class_text(status) == "offline"@),
{
    reveal_strlit("offline");
    reveal_strlit("charging");
    reveal_strlit("low");
    reveal_strlit("ok");
    assert("offline"@.len() == 7 && "charging"@.len() == 8 && "low"@.len() == 3 && "ok"@.len() == 2);
}

} // verus!
