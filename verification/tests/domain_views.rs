use rigbat::domain::display::{DisplayMode, Palette};
use rigbat::domain::estimate::Estimate;
use rigbat::domain::primary::{
    classify, classify_stale, device_status, select_featured, PrimaryStatus,
};
use rigbat::domain::roster::{is_visible, Roster, RETAINED_ICON_MAX_AGE_SECS};
use rigbat::domain::text::{
    charge_value, format_age, format_device_entry, state_label, state_str, status_note,
    CHARGING_SIGN, LOW_SIGN,
};
use rigbat::domain::time::{BootTime, Duration};
use rigbat::domain::types::{
    BatteryReading, ChargeState, DeviceId, DeviceInfo, DeviceKind, DeviceState, Presence, Transport,
};
use rigbat::i18n::Lang;

fn test_now() -> BootTime {
    BootTime::from_boot(Duration::from_secs(7 * 24 * 60 * 60))
}

// --- display -----------------------------------------------------------------

#[test]
fn display_mode_all_has_three_variants() {
    assert_eq!(DisplayMode::ALL.len(), 3);
}

#[test]
fn display_mode_all_contains_each_variant() {
    assert!(DisplayMode::ALL.contains(&DisplayMode::IconOnly));
    assert!(DisplayMode::ALL.contains(&DisplayMode::PercentOnly));
    assert!(DisplayMode::ALL.contains(&DisplayMode::PercentInIcon));
}

#[test]
fn display_mode_label_non_empty() {
    for lang in Lang::ALL {
        for mode in DisplayMode::ALL {
            assert!(
                !mode.label(lang).is_empty(),
                "label for {mode:?} is empty in {lang:?}"
            );
        }
    }
}

#[test]
fn display_mode_label_values() {
    assert_eq!(DisplayMode::IconOnly.label(Lang::En), "Battery icon only");
    assert_eq!(
        DisplayMode::PercentOnly.label(Lang::En),
        "Percentage as text"
    );
    assert_eq!(
        DisplayMode::PercentInIcon.label(Lang::En),
        "Percentage inside icon"
    );
    assert_eq!(DisplayMode::IconOnly.label(Lang::Ru), "Только значок");
}

#[test]
fn every_palette_has_a_label_in_every_language() {
    for lang in Lang::ALL {
        for palette in Palette::ALL {
            assert!(!palette.label(lang).is_empty(), "{palette:?} in {lang:?}");
        }
    }
}

// --- primary -----------------------------------------------------------------

#[test]
fn none_is_offline() {
    assert_eq!(classify(None, 20), PrimaryStatus::Offline);
}

#[test]
fn charging_above_threshold_is_charging() {
    let r = BatteryReading::new(80, ChargeState::Charging);
    assert_eq!(
        classify(Some(r), 20),
        PrimaryStatus::Charging { percent: 80 }
    );
}

#[test]
fn charging_below_threshold_is_charging_not_low() {
    let r = BatteryReading::new(10, ChargeState::Charging);
    assert_eq!(
        classify(Some(r), 20),
        PrimaryStatus::Charging { percent: 10 }
    );
}

#[test]
fn discharging_below_threshold_is_low() {
    let r = BatteryReading::new(15, ChargeState::Discharging);
    assert_eq!(classify(Some(r), 20), PrimaryStatus::Low { percent: 15 });
}

#[test]
fn discharging_above_threshold_is_ok() {
    let r = BatteryReading::new(50, ChargeState::Discharging);
    assert_eq!(classify(Some(r), 20), PrimaryStatus::Normal { percent: 50 });
}

#[test]
fn at_threshold_is_low() {
    let r = BatteryReading::new(20, ChargeState::Discharging);
    assert_eq!(classify(Some(r), 20), PrimaryStatus::Low { percent: 20 });
}

#[test]
fn full_high_percent_is_ok() {
    let r = BatteryReading::new(100, ChargeState::Full);
    assert_eq!(classify(Some(r), 20), PrimaryStatus::Normal { percent: 100 });
}

#[test]
fn battery_reading_clamps_over_100() {
    let r = BatteryReading::new(150, ChargeState::Discharging);
    assert_eq!(r.percent, 100);
}

#[test]
fn classify_stale_below_threshold_is_low() {
    assert_eq!(classify_stale(15, 20), PrimaryStatus::Low { percent: 15 });
}

#[test]
fn classify_stale_above_threshold_is_ok() {
    assert_eq!(classify_stale(80, 20), PrimaryStatus::Normal { percent: 80 });
}

#[test]
fn classify_stale_at_threshold_is_low() {
    assert_eq!(classify_stale(20, 20), PrimaryStatus::Low { percent: 20 });
}

#[test]
fn classify_stale_ignores_stored_charging_state() {
    // classify_stale takes a bare percent, not a ChargeState, so a
    // percentage that was stored alongside Charging still comes out
    // Low/Normal — never Charging.
    assert_eq!(classify_stale(80, 20), PrimaryStatus::Normal { percent: 80 });
    assert_eq!(classify_stale(15, 20), PrimaryStatus::Low { percent: 15 });
}

#[test]
fn a_remembered_charging_reading_is_not_shown_as_charging() {
    let mut d = online("mouse", test_now());
    d.last_reading = Some(BatteryReading::new(80, ChargeState::Charging));
    assert_eq!(
        device_status(&d, 20),
        (PrimaryStatus::Charging { percent: 80 }, false)
    );
    d.presence = Presence::Unreachable;
    assert_eq!(
        device_status(&d, 20),
        (PrimaryStatus::Normal { percent: 80 }, true)
    );
    d.last_reading = None;
    assert_eq!(device_status(&d, 20), (PrimaryStatus::Offline, false));
}

#[test]
fn select_featured_explicit_choice_wins_when_shown() {
    let shown = [("mouse", true), ("keyboard", false)];
    assert_eq!(
        select_featured(&shown, Some("keyboard")),
        Some("keyboard".to_string())
    );
}

#[test]
fn select_featured_explicit_choice_ignored_when_not_shown() {
    let shown = [("mouse", true), ("keyboard", false)];
    assert_eq!(
        select_featured(&shown, Some("gamepad")),
        Some("mouse".to_string())
    );
}

#[test]
fn select_featured_no_choice_prefers_online() {
    let shown = [("mouse", false), ("keyboard", true)];
    assert_eq!(select_featured(&shown, None), Some("keyboard".to_string()));
}

#[test]
fn select_featured_no_online_falls_back_to_first() {
    let shown = [("mouse", false), ("keyboard", false)];
    assert_eq!(select_featured(&shown, None), Some("mouse".to_string()));
}

#[test]
fn select_featured_empty_returns_none() {
    assert_eq!(select_featured(&[], None), None);
}

// --- roster ------------------------------------------------------------------

fn device(
    name: &str,
    transport: Transport,
    presence: Presence,
    reading: Option<(u8, BootTime)>,
) -> DeviceState {
    DeviceState {
        info: DeviceInfo {
            name: name.to_owned(),
            kind: DeviceKind::Mouse,
            transport,
            locator: None,
        },
        last_reading: reading.map(|(p, _)| BatteryReading::new(p, ChargeState::Discharging)),
        last_seen: reading.map(|(_, seen)| seen),
        presence,
        estimate: Estimate::Unknown,
    }
}

fn online(name: &str, now: BootTime) -> DeviceState {
    device(name, Transport::Sysfs, Presence::Online, Some((50, now)))
}

fn all(_: &str) -> bool {
    true
}

fn names(roster: &Roster<'_>) -> Vec<String> {
    roster
        .devices()
        .iter()
        .map(|d| d.info.name.clone())
        .collect()
}

fn featured_id(devices: &[DeviceState], primary: Option<&str>, now: BootTime) -> Option<DeviceId> {
    Roster::visible(devices, all, now)
        .featured(primary)
        .map(|d| d.info.id())
}

#[test]
fn a_hidden_device_is_not_visible() {
    let now = test_now();
    let mouse = online("mouse", now);
    assert!(is_visible(&mouse, all, now));
    assert!(!is_visible(&mouse, |n: &str| n != "mouse", now));
}

#[test]
fn a_device_that_never_answered_is_not_visible() {
    let now = test_now();
    let dongle = device("dongle", Transport::Hidraw, Presence::Unreachable, None);
    assert!(!is_visible(&dongle, all, now));
}

#[test]
fn a_retained_reading_is_visible_for_a_day_and_not_after() {
    let seen = test_now();
    let keys = device(
        "keys",
        Transport::Hidraw,
        Presence::Unreachable,
        Some((88, seen)),
    );
    let at_the_cap = seen + Duration::from_secs(RETAINED_ICON_MAX_AGE_SECS);
    assert!(is_visible(&keys, all, at_the_cap));
    let later = at_the_cap + Duration::from_secs(1);
    assert!(!is_visible(&keys, all, later));
}

#[test]
fn a_device_without_access_is_visible_without_a_reading() {
    let locked = device("locked", Transport::Hidraw, Presence::NoAccess, None);
    assert!(is_visible(&locked, all, test_now()));
}

#[test]
fn roster_lists_online_devices_first_then_by_name_ignoring_case() {
    let now = test_now();
    let devices = vec![
        device(
            "alpha",
            Transport::Sysfs,
            Presence::Unreachable,
            Some((10, now)),
        ),
        online("zebra", now),
        device("Locked", Transport::Hidraw, Presence::NoAccess, None),
        online("Mouse", now),
    ];
    let roster = Roster::visible(&devices, all, now);
    assert_eq!(names(&roster), ["Mouse", "zebra", "alpha", "Locked"]);
}

#[test]
fn same_named_devices_keep_their_relative_order() {
    let now = test_now();
    let devices = vec![
        device("MX", Transport::Sysfs, Presence::Online, Some((70, now))),
        device(
            "MX",
            Transport::Bluetooth,
            Presence::Online,
            Some((40, now)),
        ),
    ];
    let transports: Vec<Transport> = Roster::visible(&devices, all, now)
        .devices()
        .iter()
        .map(|d| d.info.transport)
        .collect();
    assert_eq!(transports, [Transport::Sysfs, Transport::Bluetooth]);
}

#[test]
fn roster_leaves_out_what_is_not_visible() {
    let now = test_now();
    let devices = vec![
        online("mouse", now),
        online("hidden", now),
        device("dongle", Transport::Hidraw, Presence::Unreachable, None),
    ];
    let roster = Roster::visible(&devices, |n: &str| n != "hidden", now);
    assert_eq!(names(&roster), ["mouse"]);
}

#[test]
fn featured_follows_a_visible_pin() {
    let now = test_now();
    let devices = vec![online("mouse", now), online("keyboard", now)];
    let pick = featured_id(&devices, Some("mouse"), now).map(|id| id.name);
    assert_eq!(pick.as_deref(), Some("mouse"));
}

#[test]
fn featured_ignores_a_pin_that_is_not_visible() {
    let now = test_now();
    let devices = vec![
        online("mouse", now),
        device("dongle", Transport::Hidraw, Presence::Unreachable, None),
    ];
    let pick = featured_id(&devices, Some("dongle"), now).map(|id| id.name);
    assert_eq!(pick.as_deref(), Some("mouse"));
    let hidden = Roster::visible(&devices, |n: &str| n != "mouse", now).featured(Some("mouse"));
    assert_eq!(hidden, None);
}

#[test]
fn featured_prefers_an_online_device_over_a_sleeping_one() {
    let now = test_now();
    let devices = vec![
        device(
            "alpha",
            Transport::Sysfs,
            Presence::Unreachable,
            Some((90, now)),
        ),
        online("zebra", now),
    ];
    let pick = featured_id(&devices, None, now).map(|id| id.name);
    assert_eq!(pick.as_deref(), Some("zebra"));
}

#[test]
fn featured_picks_the_online_copy_of_a_duplicate_name() {
    let now = test_now();
    let devices = vec![
        device(
            "MX",
            Transport::Sysfs,
            Presence::Unreachable,
            Some((70, now)),
        ),
        device(
            "MX",
            Transport::Bluetooth,
            Presence::Online,
            Some((40, now)),
        ),
    ];
    for primary in [None, Some("MX")] {
        let pick = featured_id(&devices, primary, now).map(|id| id.transport);
        assert_eq!(pick, Some(Transport::Bluetooth), "pin {primary:?}");
    }
}

#[test]
fn with_nothing_online_featured_skips_a_dongle_without_a_reading() {
    let now = test_now();
    let dongle = device("a-dongle", Transport::Hidraw, Presence::Unreachable, None);
    let keys = device(
        "keys",
        Transport::Hidraw,
        Presence::Unreachable,
        Some((88, now)),
    );
    let pick = featured_id(&[dongle.clone(), keys], None, now).map(|id| id.name);
    assert_eq!(pick.as_deref(), Some("keys"));
    assert_eq!(featured_id(&[dongle], None, now), None);
}

// --- text --------------------------------------------------------------------

fn plain(name: &str) -> DeviceInfo {
    DeviceInfo {
        name: name.into(),
        kind: DeviceKind::Other,
        transport: Transport::Sysfs,
        locator: None,
    }
}

fn state(
    name: &str,
    presence: Presence,
    last_reading: Option<BatteryReading>,
    last_seen: Option<BootTime>,
) -> DeviceState {
    DeviceState {
        info: plain(name),
        last_reading,
        last_seen,
        presence,
        estimate: Estimate::Unknown,
    }
}

fn state_with_estimate(
    name: &str,
    last_reading: Option<BatteryReading>,
    estimate: Estimate,
) -> DeviceState {
    DeviceState {
        info: plain(name),
        last_reading,
        last_seen: Some(test_now()),
        presence: Presence::Online,
        estimate,
    }
}

#[test]
fn format_age_under_a_minute_is_just_now() {
    assert_eq!(format_age(Duration::from_secs(0), Lang::En), "just now");
    assert_eq!(format_age(Duration::from_secs(59), Lang::En), "just now");
}

#[test]
fn format_age_minutes() {
    assert_eq!(format_age(Duration::from_secs(60), Lang::En), "1m ago");
    assert_eq!(
        format_age(Duration::from_secs(59 * 60), Lang::En),
        "59m ago"
    );
}

#[test]
fn format_age_hours() {
    assert_eq!(format_age(Duration::from_secs(3600), Lang::En), "1h ago");
    assert_eq!(
        format_age(Duration::from_secs(23 * 3600), Lang::En),
        "23h ago"
    );
}

#[test]
fn format_age_days() {
    assert_eq!(format_age(Duration::from_secs(86400), Lang::En), "1d ago");
    assert_eq!(
        format_age(Duration::from_secs(3 * 86400), Lang::En),
        "3d ago"
    );
}

#[test]
fn format_device_entry_online_offline_reading() {
    let now = test_now();
    assert_eq!(
        format_device_entry(&state("mouse", Presence::Online, None, None), now, Lang::En),
        "mouse: offline"
    );
}

#[test]
fn format_device_entry_online_discharging() {
    let now = test_now();
    let r = BatteryReading::new(75, ChargeState::Discharging);
    assert_eq!(
        format_device_entry(
            &state("keyboard", Presence::Online, Some(r), Some(now)),
            now,
            Lang::En
        ),
        "keyboard: 75%  discharging"
    );
}

#[test]
fn format_device_entry_online_charging() {
    let now = test_now();
    let r = BatteryReading::new(42, ChargeState::Charging);
    assert_eq!(
        format_device_entry(
            &state("headset", Presence::Online, Some(r), Some(now)),
            now,
            Lang::En
        ),
        "headset: 42%  charging"
    );
}

#[test]
fn format_device_entry_online_full() {
    let now = test_now();
    let r = BatteryReading::new(100, ChargeState::Full);
    assert_eq!(
        format_device_entry(
            &state("controller", Presence::Online, Some(r), Some(now)),
            now,
            Lang::En
        ),
        "controller: 100%  full"
    );
}

#[test]
fn format_device_entry_retained_reading_shows_age() {
    let seen = test_now();
    let now = seen + Duration::from_secs(2 * 3600);
    let r = BatteryReading::new(88, ChargeState::Discharging);
    assert_eq!(
        format_device_entry(
            &state("NuPhy Air75", Presence::Disconnected, Some(r), Some(seen)),
            now,
            Lang::En
        ),
        "NuPhy Air75: 88%  offline (2h ago)"
    );
}

#[test]
fn format_device_entry_unreachable_with_retained_reading() {
    let seen = test_now();
    let now = seen + Duration::from_secs(300);
    let r = BatteryReading::new(50, ChargeState::Discharging);
    assert_eq!(
        format_device_entry(
            &state("mouse", Presence::Unreachable, Some(r), Some(seen)),
            now,
            Lang::En
        ),
        "mouse: 50%  offline (5m ago)"
    );
}

#[test]
fn format_device_entry_appends_remaining_when_estimate_is_remaining() {
    let r = BatteryReading::new(62, ChargeState::Discharging);
    let s = state_with_estimate(
        "MX Anywhere 3",
        Some(r),
        Estimate::Remaining(Duration::from_secs(7 * 3600)),
    );
    assert_eq!(
        format_device_entry(&s, test_now(), Lang::En),
        "MX Anywhere 3: 62%  discharging  ~7h left"
    );
}

#[test]
fn format_device_entry_appends_nothing_when_estimate_is_unknown() {
    let r = BatteryReading::new(62, ChargeState::Discharging);
    let s = state_with_estimate("mouse", Some(r), Estimate::Unknown);
    assert_eq!(
        format_device_entry(&s, test_now(), Lang::En),
        "mouse: 62%  discharging"
    );
}

#[test]
fn format_device_entry_appends_nothing_when_estimate_is_charging() {
    let r = BatteryReading::new(62, ChargeState::Charging);
    let s = state_with_estimate("mouse", Some(r), Estimate::Charging);
    assert_eq!(
        format_device_entry(&s, test_now(), Lang::En),
        "mouse: 62%  charging"
    );
}

#[test]
fn format_device_entry_disconnected_without_reading() {
    let now = test_now();
    assert_eq!(
        format_device_entry(
            &state("gamepad", Presence::Disconnected, None, None),
            now,
            Lang::En
        ),
        "gamepad: offline"
    );
}

#[test]
fn format_device_entry_without_access_says_how_to_fix_it() {
    let r = BatteryReading::new(62, ChargeState::Discharging);
    let now = test_now();
    assert_eq!(
        format_device_entry(
            &state("mouse", Presence::NoAccess, Some(r), Some(now)),
            now,
            Lang::En
        ),
        "mouse: no access (run rigbat doctor)"
    );
}

#[test]
fn russian_entries_render_every_shape() {
    let seen = test_now();
    let now = seen + Duration::from_secs(2 * 3600);
    let r = BatteryReading::new(88, ChargeState::Discharging);
    let remaining = state_with_estimate(
        "MX Anywhere 3",
        Some(BatteryReading::new(62, ChargeState::Discharging)),
        Estimate::Remaining(Duration::from_secs(7 * 3600)),
    );
    for (entry, expected) in [
        (
            format_device_entry(
                &state("mouse", Presence::Online, Some(r), Some(seen)),
                seen,
                Lang::Ru,
            ),
            "mouse: 88%  разряжается",
        ),
        (
            format_device_entry(&remaining, test_now(), Lang::Ru),
            "MX Anywhere 3: 62%  разряжается  осталось ~7 ч",
        ),
        (
            format_device_entry(
                &state("mouse", Presence::Disconnected, Some(r), Some(seen)),
                now,
                Lang::Ru,
            ),
            "mouse: 88%  не на связи (2 ч назад)",
        ),
        (
            format_device_entry(
                &state("gamepad", Presence::Disconnected, None, None),
                now,
                Lang::Ru,
            ),
            "gamepad: не на связи",
        ),
    ] {
        assert_eq!(entry, expected);
    }
}

#[test]
fn russian_ages_use_abbreviated_units() {
    assert_eq!(format_age(Duration::from_secs(5), Lang::Ru), "только что");
    assert_eq!(
        format_age(Duration::from_secs(5 * 60), Lang::Ru),
        "5 мин назад"
    );
    assert_eq!(
        format_age(Duration::from_secs(21 * 3600), Lang::Ru),
        "21 ч назад"
    );
    assert_eq!(
        format_age(Duration::from_secs(3 * 86400), Lang::Ru),
        "3 д назад"
    );
}

#[test]
fn state_label_translates_but_state_str_does_not() {
    assert_eq!(state_label(ChargeState::Full, Lang::Ru), "заряжено");
    assert_eq!(state_label(ChargeState::Full, Lang::En), "full");
    assert_eq!(state_str(ChargeState::Full), "full");
}

#[test]
fn values_and_notes_of_a_row() {
    let value = |presence, percent, charge, status| {
        charge_value(presence, percent, charge, status, Lang::En)
    };
    let d = Some(ChargeState::Discharging);
    assert_eq!(
        value(Presence::Online, Some(15), d, PrimaryStatus::Low { percent: 15 }),
        format!("{LOW_SIGN} 15%")
    );
    assert_eq!(
        value(
            Presence::Online,
            Some(40),
            Some(ChargeState::Charging),
            PrimaryStatus::Charging { percent: 40 }
        ),
        format!("{CHARGING_SIGN} 40%")
    );
    assert_eq!(
        value(Presence::NoAccess, None, None, PrimaryStatus::Offline),
        "No access"
    );
    let hour = Duration::from_secs(3600);
    assert_eq!(
        status_note(Presence::Online, Some(hour), None, Lang::En).as_deref(),
        Some("~1h left")
    );
    assert_eq!(
        status_note(Presence::Unreachable, Some(hour), Some(hour), Lang::En).as_deref(),
        Some("last reading 1h ago")
    );
    assert_eq!(status_note(Presence::Online, None, Some(hour), Lang::En), None);
    assert_eq!(
        status_note(Presence::NoAccess, None, None, Lang::En).as_deref(),
        Some("run rigbat doctor")
    );
}
