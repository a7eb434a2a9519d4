//! What the status bar, the tray, the windows and the JSON output show of the
//! devices.

use crate::cli::json::{self, Json};
use crate::cli::waybar;
use crate::cli::{self, Row};
use crate::config::Settings;
use crate::dashboard;
use crate::domain::display::TrayMode;
use crate::domain::roster;
use crate::domain::text;
use crate::domain::time::BootTime;
use crate::domain::types::{ChargeState, DeviceState, PollOutcome, Presence};
use crate::i18n::Lang;
use crate::ipc::DeviceCard;
use crate::laws::icons;
use crate::laws::lines;
use crate::laws::settings;
use crate::laws::words;
use crate::strings;
use crate::tray;
use vstd::prelude::*;

verus! {

// --- JSON rows ---------------------------------------------------------------

/// A row's JSON has these fields in this order: the name, the kind, the transport
/// and the locator of the device, whether it was read and how reachable it is,
/// and the percent and the charge state of its reading, each null where there is
/// none.
pub proof fn a_row_is_told_field_by_field(row: Row)
    ensures
        ({
            let f = cli::row_fields(row);
            &&& f[0] == ("name"@, Json::Text(row.0.name@))
            &&& f[1] == ("kind"@, Json::Text(lines::kind_word(row.0.kind)))
            &&& f[2] == ("transport"@, Json::Text(lines::transport_word(row.0.transport)))
            &&& f[3] == (
                "locator"@,
                if row.0.locator is Some {
                    Json::Text(row.0.locator->0@)
                } else {
                    Json::Null
                },
            )
            &&& f[4] == ("online"@, Json::Bool(row.1 is Reading))
            &&& f[5] == (
                "presence"@,
                Json::Text(
                    match row.1 {
                        PollOutcome::Reading(_) => "online"@,
                        PollOutcome::Failed => "unreachable"@,
                        PollOutcome::NoAccess => "no_access"@,
                    },
                ),
            )
            &&& row.1 is Reading ==> {
                &&& f[6] == ("percent"@, Json::Number(row.1->0.percent as nat))
                &&& f[7] == ("state"@, Json::Text(lines::charge_word(row.1->0.state)))
            }
            &&& !(row.1 is Reading) ==> {
                &&& f[6] == ("percent"@, Json::Null)
                &&& f[7] == ("state"@, Json::Null)
            }
            &&& f.len() == if row.1 is Reading && row.1->0.coarse {
                9int
            } else {
                8
            }
            &&& f.len() == 9 ==> f[8] == ("coarse"@, Json::Bool(true))
        }),
{
}

/// Sorted rows are the same rows, in the order of their names.
pub proof fn rows_are_sorted_by_name(rows: Seq<Row>, list: Seq<Row>, i: int, j: int)
    requires
        cli::is_sorted(rows, list),
        rows.len() <= usize::MAX,
        0 <= i < j < list.len(),
    ensures
        !strings::precedes(list[j].0.name@, list[i].0.name@),
        forall|k: int| 0 <= k < list.len() ==> rows.contains(#[trigger] list[k]),
        forall|k: int| 0 <= k < rows.len() ==> list.contains(#[trigger] rows[k]),
{
    let p = choose|p: Seq<usize>| #[trigger] cli::is_sorted_by(rows, list, p);
    let keys = cli::name_keys(rows);
    assert(roster::listed_before(keys, p[i] as int, p[j] as int));
    let x = list[i].0.name@;
    let y = list[j].0.name@;
    assert(keys[p[i] as int].1 == x);
    assert(keys[p[j] as int].1 == y);
    if strings::precedes(y, x) {
        if strings::precedes(x, y) {
            strings::precedes_transitive(x, y, x);
        }
        strings::precedes_irreflexive(x);
    }
    assert forall|k: int| 0 <= k < list.len() implies rows.contains(#[trigger] list[k]) by {
        assert(p[k] < keys.len());
        assert(rows[p[k] as int] == list[k]);
    }
    assert forall|k: int| 0 <= k < rows.len() implies list.contains(#[trigger] rows[k]) by {
        assert(p.contains(k as usize));
        let at = p.index_of(k as usize);
        assert(list[at] == rows[k]);
    }
}

// --- the status bar ----------------------------------------------------------

/// The device a single view shows, if any.
pub open spec fn in_view(states: Seq<DeviceState>, s: Settings, now: BootTime) -> Option<
    DeviceState,
> {
    roster::featured_of(waybar::listed(states, s, now), s.primary)
}

/// The status bar shows the percent of the device in view with a percent sign,
/// and reports it as a number; it is offline where that device was never read,
/// and says that there is none where nothing is in view.
pub proof fn the_bar_shows_the_percent_in_view(states: Seq<DeviceState>, s: Settings, now: BootTime)
    ensures
        ({
            let f = waybar::payload(states, s, now);
            let view = in_view(states, s, now);
            &&& f[0].0 == "text"@ && f[1].0 == "tooltip"@ && f[2].0 == "class"@
            &&& view is None ==> f[0].1 == Json::Text("no devices"@) && f.len() == 3
            &&& view is Some && view->0.last_reading is None ==> f[0].1 == Json::Text("offline"@)
                && f.len() == 3
            &&& view is Some && view->0.last_reading is Some ==> {
                let percent = view->0.last_reading->0.percent;
                &&& f[0].1 == Json::Text(strings::decimal(percent as nat) + "%"@)
                &&& f.len() == 4
                &&& f[3] == ("percentage"@, Json::Number(percent as nat))
            }
        }),
{
}

/// The status bar's class tells charging, low and ordinary readings apart, by the
/// own threshold of the device in view, and is that of an offline one where there
/// is no reading.
pub proof fn the_bar_is_styled_by_the_device_in_view(
    states: Seq<DeviceState>,
    s: Settings,
    now: BootTime,
)
    ensures
        ({
            let class = waybar::payload(states, s, now)[2].1;
            let view = in_view(states, s, now);
            if view is None || view->0.last_reading is None {
                class == Json::Text("offline"@)
            } else {
                let d = view->0;
                let r = d.last_reading->0;
                if d.presence == Presence::Online && r.state == ChargeState::Charging {
                    class == Json::Text("charging"@)
                } else if r.percent <= settings::own_threshold(s, d.info.name@) {
                    class == Json::Text("low"@)
                } else {
                    class == Json::Text("ok"@)
                }
            }
        }),
{
    let view = in_view(states, s, now);
    if view is Some {
        settings::thresholds_are_the_settings(s, view->0.info.name@);
    }
}

/// Parts joined by a line break: each stands between two breaks or an end.
proof fn a_part_stands_on_its_own_line(parts: Seq<Seq<char>>, i: int) -> (r: (
    Seq<char>,
    Seq<char>,
))
    requires
        0 <= i < parts.len(),
    ensures
        strings::joined(parts, "\n"@) == r.0 + parts[i] + r.1,
        r.0.len() == 0 || r.0.last() == '\n',
        r.1.len() == 0 || r.1[0] == '\n',
    decreases parts.len(),
{
    reveal_strlit("\n");
    if parts.len() == 1 {
        assert(strings::joined(parts, "\n"@) =~= Seq::empty() + parts[i] + Seq::empty());
        (Seq::empty(), Seq::empty())
    } else {
        let earlier = parts.drop_last();
        if i == parts.len() - 1 {
            let before = strings::joined(earlier, "\n"@) + "\n"@;
            assert(strings::joined(parts, "\n"@) =~= before + parts[i] + Seq::empty());
            (before, Seq::empty())
        } else {
            let (before, after) = a_part_stands_on_its_own_line(earlier, i);
            let rest = after + "\n"@ + parts.last();
            assert(earlier[i] == parts[i]);
            assert(strings::joined(parts, "\n"@) =~= before + parts[i] + rest);
            (before, rest)
        }
    }
}

/// The tooltip has a line for every listed device, and that is its entry in
/// English; without one it says that there are none.
pub proof fn the_tooltip_has_a_line_for_every_device(
    states: Seq<DeviceState>,
    s: Settings,
    now: BootTime,
    i: int,
) -> (r: (Seq<char>, Seq<char>))
    requires
        0 <= i < waybar::listed(states, s, now).len(),
    ensures
        waybar::payload(states, s, now)[1].1 == Json::Text(
            r.0 + text::entry_text(waybar::listed(states, s, now)[i], now, Lang::En) + r.1,
        ),
        r.0.len() == 0 || r.0.last() == '\n',
        r.1.len() == 0 || r.1[0] == '\n',
{
    let list = waybar::listed(states, s, now);
    let parts = list.map_values(|d: DeviceState| text::entry_text(d, now, Lang::En));
    let (before, after) = a_part_stands_on_its_own_line(parts, i);
    assert(parts[i] == text::entry_text(list[i], now, Lang::En));
    (before, after)
}

/// With nothing listed the tooltip says so.
pub proof fn an_empty_tooltip_says_so(states: Seq<DeviceState>, s: Settings, now: BootTime)
    requires
        waybar::listed(states, s, now).len() == 0,
    ensures
        waybar::payload(states, s, now)[1].1 == Json::Text("No devices"@),
{
}

// --- the tray ----------------------------------------------------------------

/// The tray has one icon, of the device in view, or one for every listed device.
pub proof fn the_tray_has_one_icon_or_all(states: Seq<DeviceState>, s: Settings, now: BootTime)
    ensures
        s.tray_mode == TrayMode::PerDevice ==> tray::icons(states, s, now) == waybar::listed(
            states,
            s,
            now,
        ),
        s.tray_mode == TrayMode::PrimaryOnly ==> {
            let view = in_view(states, s, now);
            &&& view is Some ==> tray::icons(states, s, now) == seq![view->0]
            &&& view is None ==> tray::icons(states, s, now).len() == 0
        },
{
}

/// What a window is told of a device: who it is, how reachable, what it last read
/// and how long ago, in whole seconds, and how much time that leaves.
pub proof fn a_card_tells_what_was_read(d: DeviceState, s: Settings, now: BootTime, in_tray: bool)
    ensures
        ({
            let c = tray::card(d, s, now, in_tray);
            &&& c.name@ == d.info.name@
            &&& c.kind == d.info.kind
            &&& c.transport == d.info.transport
            &&& c.locator == d.info.locator
            &&& c.presence == d.presence
            &&& c.in_tray == in_tray
            &&& d.last_reading is Some ==> c.percent == Some(d.last_reading->0.percent) && c.charge
                == Some(d.last_reading->0.state)
            &&& d.last_reading is None ==> c.percent is None && c.charge is None
            &&& d.last_seen is None ==> c.seen_secs_ago is None
            &&& d.last_seen is Some ==> {
                &&& c.seen_secs_ago is Some
                &&& 0 <= words::nanos_between(d.last_seen->0, now) - c.seen_secs_ago->0
                    * 1_000_000_000 < 1_000_000_000
            }
            &&& !(d.estimate is Remaining) ==> c.remaining_secs is None
            &&& d.estimate is Remaining && d.estimate->Remaining_0@ <= u64::MAX ==> {
                &&& c.remaining_secs is Some
                &&& 0 <= d.estimate->Remaining_0@ - c.remaining_secs->0 * 1_000_000_000
                    < 1_000_000_000
            }
        }),
{
}

/// A window is told the status that the device's icon shows: charging, low by its
/// own threshold or ordinary, offline where it was never read, and a memory where
/// it is not online.
pub proof fn a_card_has_the_status_of_the_icon(
    d: DeviceState,
    s: Settings,
    now: BootTime,
    in_tray: bool,
)
    ensures
        ({
            let c = tray::card(d, s, now, in_tray);
            let r = d.last_reading->0;
            let charging = d.presence == Presence::Online && r.state == ChargeState::Charging;
            &&& (c.status is Offline) == (d.last_reading is None)
            &&& d.last_reading is Some ==> {
                &&& icons::carried(c.status) == Some(r.percent)
                &&& (c.status is Charging) == charging
                &&& (c.status is Low) == (!charging && r.percent <= settings::own_threshold(
                    s,
                    d.info.name@,
                ))
            }
            &&& c.stale == (d.presence != Presence::Online && d.last_reading is Some)
        }),
{
    settings::thresholds_are_the_settings(s, d.info.name@);
}

/// The windows are told of every listed device, in the order of the list, and
/// whether it has an icon.
pub proof fn every_listed_device_has_its_card(
    states: Seq<DeviceState>,
    s: Settings,
    now: BootTime,
    i: int,
)
    requires
        0 <= i < waybar::listed(states, s, now).len(),
    ensures
        tray::shown_cards(states, s, now).len() == waybar::listed(states, s, now).len(),
        ({
            let d = waybar::listed(states, s, now)[i];
            let c = tray::shown_cards(states, s, now)[i];
            &&& c == tray::card(d, s, now, c.in_tray)
            &&& s.tray_mode == TrayMode::PerDevice ==> c.in_tray
            &&& s.tray_mode == TrayMode::PrimaryOnly ==> c.in_tray == (in_view(states, s, now)
                is Some && in_view(states, s, now)->0.info.key() == d.info.key())
        }),
{
    let d = waybar::listed(states, s, now)[i];
    let with_icon = tray::icons(states, s, now);
    if s.tray_mode == TrayMode::PerDevice {
        assert(with_icon[i] == d);
        assert(tray::has_icon(with_icon, d));
    } else if in_view(states, s, now) is Some {
        assert(with_icon[0] == in_view(states, s, now)->0);
    }
}

/// The windows are told of every hidden device, in the order they are known, as
/// of one without an icon; and of no other among those.
pub proof fn every_hidden_device_has_its_card(states: Seq<DeviceState>, s: Settings, now: BootTime)
    ensures
        tray::hidden_cards(states, s, now) == states.filter(
            |d: DeviceState| s.hidden.contains(d.info.name@),
        ).map_values(|d: DeviceState| tray::card(d, s, now, false)),
    decreases states.len(),
{
    reveal(Seq::filter);
    let hidden = |d: DeviceState| s.hidden.contains(d.info.name@);
    let told = |d: DeviceState| tray::card(d, s, now, false);
    if states.len() == 0 {
        assert(tray::hidden_cards(states, s, now) =~= states.filter(hidden).map_values(told));
    } else {
        every_hidden_device_has_its_card(states.drop_last(), s, now);
        assert(tray::hidden_cards(states, s, now) =~= states.filter(hidden).map_values(told));
    }
}

/// Sorted cards are the same cards, those of online devices first, then by their
/// names in lower case.
pub proof fn cards_are_in_order(cards: Seq<DeviceCard>, list: Seq<DeviceCard>, i: int, j: int)
    requires
        dashboard::is_sorted(cards, list),
        cards.len() <= usize::MAX,
        0 <= i < j < list.len(),
    ensures
        list[j].presence == Presence::Online ==> list[i].presence == Presence::Online,
        (list[i].presence == Presence::Online) == (list[j].presence == Presence::Online)
            ==> !strings::precedes(
            strings::lowercase(list[j].name@),
            strings::lowercase(list[i].name@),
        ),
        forall|k: int| 0 <= k < list.len() ==> cards.contains(#[trigger] list[k]),
        forall|k: int| 0 <= k < cards.len() ==> list.contains(#[trigger] cards[k]),
{
    let p = choose|p: Seq<usize>| #[trigger] dashboard::is_sorted_by(cards, list, p);
    let keys = dashboard::card_keys(cards);
    assert(roster::listed_before(keys, p[i] as int, p[j] as int));
    assert(list[i] == cards[p[i] as int]);
    assert(list[j] == cards[p[j] as int]);
    let x = strings::lowercase(list[i].name@);
    let y = strings::lowercase(list[j].name@);
    if strings::precedes(y, x) {
        if strings::precedes(x, y) {
            strings::precedes_transitive(x, y, x);
        }
        strings::precedes_irreflexive(x);
    }
    assert forall|k: int| 0 <= k < list.len() implies cards.contains(#[trigger] list[k]) by {
        assert(p[k] < keys.len());
        assert(cards[p[k] as int] == list[k]);
    }
    assert forall|k: int| 0 <= k < cards.len() implies list.contains(#[trigger] cards[k]) by {
        assert(p.contains(k as usize));
        let at = p.index_of(k as usize);
        assert(list[at] == cards[k]);
    }
}

/// A field of an object is found by its key: the first that has it.
pub proof fn a_field_is_found_by_its_key(
    fields: Seq<(Seq<char>, Json)>,
    key: Seq<char>,
    i: int,
)
    requires
        0 <= i < fields.len(),
        forall|k: int| 0 <= k < i ==> (#[trigger] fields[k]).0 != key,
    ensures
        fields[i].0 == key ==> json::value_of(fields, key) == Some(fields[i].1),
        fields[i].0 != key && i == fields.len() - 1 ==> json::value_of(fields, key) is None,
    decreases fields.len(),
{
    let rest = fields.drop_first();
    if i > 0 {
        assert(fields[0].0 != key);
        assert forall|k: int| 0 <= k < i - 1 implies (#[trigger] rest[k]).0 != key by {
            assert(fields[k + 1].0 != key);
        }
        a_field_is_found_by_its_key(rest, key, i - 1);
    } else if fields.len() == 1 {
        assert(json::value_of(rest, key) is None);
    }
}

} // verus!
