use rigbat::dashboard::{
    after_fetch, closes, contents, details, kind_glyph, refresh_in_flight, row_note, row_plan, sort_cards,
    value_text, window_size, Bar, Contents, Emphasis, Fill, Retry, FOOTER_HEIGHT, MARGIN,
    MAX_VISIBLE_ROWS, REFRESH_SPINNER_LIMIT_SECS, ROW_HEIGHT,
};
use rigbat::domain::primary::PrimaryStatus;
use rigbat::domain::text::{state_label, LOW_SIGN};
use rigbat::domain::time::Duration;
use rigbat::domain::types::{ChargeState, DeviceKind, Presence, Transport};
use rigbat::i18n::{phrase, Lang, Phrase};
use rigbat::ipc::DeviceCard;

fn card(name: &str, presence: Presence, percent: Option<u8>) -> DeviceCard {
    let status = match percent {
        Some(p) if p <= 20 => PrimaryStatus::Low { percent: p },
        Some(p) => PrimaryStatus::Normal { percent: p },
        None => PrimaryStatus::Offline,
    };
    DeviceCard {
        name: name.to_owned(),
        kind: DeviceKind::Mouse,
        transport: Transport::Hidraw,
        locator: None,
        presence,
        percent,
        charge: percent.map(|_| ChargeState::Discharging),
        status,
        stale: presence != Presence::Online && percent.is_some(),
        seen_secs_ago: percent.map(|_| 2 * 3600),
        remaining_secs: Some(7 * 3600),
        in_tray: true,
    }
}

fn full(name: &str) -> DeviceCard {
    DeviceCard {
        charge: Some(ChargeState::Full),
        remaining_secs: None,
        kind: DeviceKind::Controller,
        ..card(name, Presence::Online, Some(100))
    }
}

fn roster() -> Vec<DeviceCard> {
    vec![
        card("NuPhy Air75 V2", Presence::Disconnected, Some(88)),
        card("SteelSeries Aerox 5 Wireless", Presence::Online, Some(15)),
        card("MX Anywhere 3", Presence::Online, Some(62)),
    ]
}

#[test]
fn online_devices_come_first_then_by_name() {
    let names: Vec<String> = sort_cards(&roster()).into_iter().map(|c| c.name).collect();
    assert_eq!(
        names,
        [
            "MX Anywhere 3",
            "SteelSeries Aerox 5 Wireless",
            "NuPhy Air75 V2"
        ]
    );
}

/// Kind, transport and tray membership live in the tooltip, not the row.
#[test]
fn a_row_carries_no_kind_transport_or_state_noise() {
    for lang in Lang::ALL {
        for c in roster() {
            let plan = row_plan(&c, lang, 0);
            let noise = [
                DeviceKind::Mouse.label(lang),
                Transport::Hidraw.as_str().to_owned(),
                phrase(Phrase::InTray, lang).to_owned(),
                state_label(ChargeState::Discharging, lang).to_owned(),
            ];
            for word in &noise {
                assert!(!plan.value.contains(word.as_str()), "{lang:?}: {plan:?}");
                let note = plan.note.clone().unwrap_or_default();
                assert!(!note.contains(word.as_str()), "{lang:?}: {plan:?}");
            }
        }
        assert_eq!(
            details(&roster()[0], lang),
            format!(
                "{} · hidraw · {}",
                DeviceKind::Mouse.label(lang),
                phrase(Phrase::InTray, lang)
            )
        );
    }
}

#[test]
fn a_row_without_access_sorts_after_online_ones() {
    let mut devices = roster();
    devices.insert(0, card("Aerox 5 Wireless", Presence::NoAccess, None));
    let presences: Vec<Presence> = sort_cards(&devices).iter().map(|c| c.presence).collect();
    assert_eq!(&presences[..2], [Presence::Online, Presence::Online]);
}

#[test]
fn a_retained_reading_that_is_not_low_names_the_presence_not_a_percent() {
    let unreachable = card("m", Presence::Unreachable, Some(88));
    assert_eq!(value_text(&unreachable, Lang::En), "Unreachable");
    let low = card("m", Presence::Unreachable, Some(12));
    assert_eq!(
        value_text(&low, Lang::En),
        format!("{LOW_SIGN} Unreachable")
    );
}

#[test]
fn a_full_reading_at_100_while_discharging_shows_no_state_word() {
    let c = card("m", Presence::Online, Some(100));
    assert_eq!(value_text(&c, Lang::En), "100%");
    assert_eq!(value_text(&full("m"), Lang::En), "100% · full");
}

#[test]
fn window_fits_the_rows_exactly_and_scrolls_past_the_cap() {
    let footer_and_margins = 2 * MARGIN + FOOTER_HEIGHT;
    assert_eq!(window_size(0), window_size(1));
    assert_eq!(window_size(3)[1], 3 * ROW_HEIGHT + footer_and_margins);
    assert_eq!(window_size(40), window_size(MAX_VISIBLE_ROWS));
    assert_eq!(window_size(3), [380, 200]);
}

#[test]
fn the_window_says_what_is_missing() {
    assert_eq!(contents(None), Contents::NoTray);
    assert_eq!(contents(Some(0)), Contents::NoDevices);
    assert_eq!(contents(Some(10)), Contents::Rows { scrolls: false });
    assert_eq!(contents(Some(11)), Contents::Rows { scrolls: true });
}

#[test]
fn the_refresh_spinner_ends_on_a_snapshot_a_failure_or_the_limit() {
    let started = Some(Duration::from_secs(0));
    assert!(refresh_in_flight(started, false));
    assert!(!refresh_in_flight(None, false), "a snapshot ends it");
    assert!(!refresh_in_flight(started, true), "a failed call ends it");
    let limit = Some(Duration::from_secs(REFRESH_SPINNER_LIMIT_SECS));
    assert!(!refresh_in_flight(limit, false), "the limit ends it");
}

#[test]
fn notes_count_on_from_the_snapshot() {
    let away = card("m", Presence::Disconnected, Some(88));
    assert_eq!(
        row_note(&away, Lang::En, 3600).as_deref(),
        Some("last reading 3h ago")
    );
    let here = card("m", Presence::Online, Some(88));
    assert_eq!(row_note(&here, Lang::En, 3600).as_deref(), Some("~7h left"));
}

#[test]
fn a_row_is_drawn_by_its_state() {
    let low = row_plan(&card("m", Presence::Online, Some(15)), Lang::En, 0);
    assert_eq!(low.glyph, kind_glyph(DeviceKind::Mouse));
    assert_eq!(low.emphasis, Emphasis::Low);
    assert_eq!(
        low.bar,
        Some(Bar {
            percent: 15,
            fill: Fill::Low,
            dim: false
        })
    );
    let memory = row_plan(&card("m", Presence::Unreachable, Some(88)), Lang::En, 0);
    assert_eq!(memory.emphasis, Emphasis::Secondary);
    let ok = row_plan(&card("m", Presence::Online, Some(88)), Lang::En, 0);
    assert_eq!(ok.emphasis, Emphasis::Strong);
}

#[test]
fn the_window_closes_on_escape_or_a_lost_focus() {
    let mut was_focused = false;
    assert!(!closes(&mut was_focused, false, Some(false)));
    assert!(!closes(&mut was_focused, false, Some(true)));
    assert!(was_focused);
    assert!(!closes(&mut was_focused, false, None));
    assert!(closes(&mut was_focused, false, Some(false)));
    assert!(closes(&mut was_focused, true, Some(true)));
}

#[test]
fn a_restarted_tray_is_asked_ten_times() {
    let mut tries = 0;
    loop {
        tries += 1;
        match after_fetch(tries, false) {
            Retry::Again => {}
            Retry::GiveUp => break,
            Retry::Done => unreachable!("nothing was fetched"),
        }
    }
    assert_eq!(tries, 10);
    assert_eq!(after_fetch(1, true), Retry::Done);
    assert_eq!(after_fetch(10, true), Retry::Done);
}
