use rigbat::app::manager::PollFailure;
use rigbat::cli::json::{text_or, JsonObject, JsonValue};
use rigbat::cli::waybar::{
    is_news, is_settled, render_waybar_line, to_waybar, waybar_featured, FALLBACK_LINE,
};
use rigbat::cli::{
    poll_outcome, print_json, print_table, print_table_wide, sort_rows, state_word, to_json, Row,
};
use rigbat::config::Config;
use rigbat::domain::estimate::Estimate;
use rigbat::domain::primary::{device_status, PrimaryStatus};
use rigbat::domain::time::{BootTime, Duration};
use rigbat::domain::types::{
    BatteryReading, ChargeState, DeviceInfo, DeviceKind, DeviceState, PollOutcome, Presence,
    Transport,
};
use rigbat::tray::iconed;

fn test_now() -> BootTime {
    BootTime::from_boot(Duration::from_secs(7 * 24 * 60 * 60))
}

fn device(name: &str) -> DeviceInfo {
    DeviceInfo {
        name: name.to_owned(),
        kind: DeviceKind::Other,
        transport: Transport::Sysfs,
        locator: None,
    }
}

fn device_with_locator(name: &str, locator: &str) -> DeviceInfo {
    DeviceInfo {
        name: name.to_owned(),
        kind: DeviceKind::Other,
        transport: Transport::Bluetooth,
        locator: Some(locator.to_owned()),
    }
}

fn text(s: &str) -> JsonValue {
    JsonValue::Text(s.to_owned())
}

fn field<'a>(obj: &'a JsonObject, key: &str) -> &'a JsonValue {
    obj.get(key).expect("the key is there")
}

#[test]
fn to_json_online_device() {
    let reading = BatteryReading::new(75, ChargeState::Charging);
    let rows: Vec<Row> = vec![(device("mouse"), PollOutcome::Reading(reading))];

    let arr = to_json(&rows);
    assert_eq!(arr.len(), 1);

    let obj = &arr[0];
    assert_eq!(*field(obj, "name"), text("mouse"));
    assert_eq!(*field(obj, "online"), JsonValue::Bool(true));
    assert_eq!(*field(obj, "percent"), JsonValue::Number(75));
    assert_eq!(*field(obj, "state"), text("charging"));
    assert_eq!(*field(obj, "transport"), text("sysfs"));
    assert_eq!(*field(obj, "locator"), JsonValue::Null);
}

#[test]
fn to_json_flags_only_a_coarse_reading() {
    let coarse = BatteryReading::new_coarse(60, ChargeState::Discharging);
    let exact = BatteryReading::new(60, ChargeState::Discharging);
    let rows: Vec<Row> = vec![
        (device("pad"), PollOutcome::Reading(coarse)),
        (device("mouse"), PollOutcome::Reading(exact)),
    ];

    let arr = to_json(&rows);
    assert_eq!(*field(&arr[0], "coarse"), JsonValue::Bool(true));
    assert_eq!(*field(&arr[0], "percent"), JsonValue::Number(60));
    assert!(arr[1].get("coarse").is_none());
}

#[test]
fn to_json_offline_device() {
    let rows: Vec<Row> = vec![(device("headset"), PollOutcome::Failed)];

    let arr = to_json(&rows);
    let obj = &arr[0];

    assert_eq!(*field(obj, "online"), JsonValue::Bool(false));
    assert_eq!(*field(obj, "percent"), JsonValue::Null);
    assert_eq!(*field(obj, "state"), JsonValue::Null);
    assert_eq!(*field(obj, "transport"), text("sysfs"));
}

#[test]
fn to_json_mixed() {
    let reading = BatteryReading::new(50, ChargeState::Discharging);
    let rows: Vec<Row> = vec![
        (device("keyboard"), PollOutcome::Reading(reading)),
        (device("mouse"), PollOutcome::Failed),
    ];

    let arr = to_json(&rows);
    assert_eq!(arr.len(), 2);

    assert_eq!(*field(&arr[0], "online"), JsonValue::Bool(true));
    assert_eq!(*field(&arr[0], "percent"), JsonValue::Number(50));
    assert_eq!(*field(&arr[0], "state"), text("discharging"));

    assert_eq!(*field(&arr[1], "online"), JsonValue::Bool(false));
    assert_eq!(*field(&arr[1], "percent"), JsonValue::Null);
}

#[test]
fn to_json_no_access_device_keeps_existing_keys_and_adds_presence() {
    let reading = BatteryReading::new(50, ChargeState::Discharging);
    let rows: Vec<Row> = vec![
        (device("keyboard"), PollOutcome::Reading(reading)),
        (device("headset"), PollOutcome::Failed),
        (device("mouse"), PollOutcome::NoAccess),
    ];

    let arr = to_json(&rows);

    assert_eq!(*field(&arr[0], "presence"), text("online"));
    assert_eq!(*field(&arr[1], "presence"), text("unreachable"));
    assert_eq!(*field(&arr[2], "presence"), text("no_access"));
    assert_eq!(*field(&arr[2], "online"), JsonValue::Bool(false));
    assert_eq!(*field(&arr[2], "percent"), JsonValue::Null);
    assert_eq!(*field(&arr[2], "state"), JsonValue::Null);
}

#[test]
fn table_state_word_tells_no_access_from_offline() {
    assert_eq!(state_word(PollOutcome::Failed), "offline");
    assert_eq!(state_word(PollOutcome::NoAccess), "no access");
}

#[test]
fn to_json_includes_transport_and_locator() {
    let reading = BatteryReading::new(80, ChargeState::Discharging);
    let rows: Vec<Row> = vec![(
        device_with_locator("mouse", "AA:BB:CC:DD:EE:FF"),
        PollOutcome::Reading(reading),
    )];

    let arr = to_json(&rows);
    assert_eq!(*field(&arr[0], "transport"), text("bluetooth"));
    assert_eq!(*field(&arr[0], "locator"), text("AA:BB:CC:DD:EE:FF"));
}

/// Every cell of a column starts where its header does.
#[test]
fn print_table_wide_columns_are_wide_enough() {
    let reading = BatteryReading::new(80, ChargeState::Discharging);
    let rows: Vec<Row> = vec![
        (
            device_with_locator("MX Master 3", "AA:BB:CC:DD:EE:FF"),
            PollOutcome::Reading(reading),
        ),
        (device("keyboard"), PollOutcome::Failed),
    ];
    let out = print_table_wide(&rows);
    let lines: Vec<&str> = out.lines().collect();
    assert_eq!(lines.len(), 3);
    for (header, cell) in [
        ("TRANSPORT", "bluetooth"),
        ("LOCATOR", "AA:BB:CC:DD:EE:FF"),
        ("PERCENT", "80%"),
        ("STATE", "discharging"),
    ] {
        assert_eq!(lines[0].find(header), lines[1].find(cell), "{header}");
    }
    assert_eq!(lines[0].find("TRANSPORT"), lines[2].find("sysfs"));
    assert_eq!(lines[0].find("STATE"), lines[2].find("offline"));
}

#[test]
fn print_table_wide_does_not_panic() {
    let reading = BatteryReading::new(80, ChargeState::Discharging);
    let rows: Vec<Row> = vec![
        (
            device_with_locator("MX Master 3", "AA:BB:CC:DD:EE:FF"),
            PollOutcome::Reading(reading),
        ),
        (device("keyboard"), PollOutcome::Failed),
        (device("mouse"), PollOutcome::NoAccess),
    ];
    assert_eq!(print_table_wide(&rows).lines().count(), 4);
}

#[test]
fn print_table_aligns_non_ascii_names_by_char_count() {
    let rows: Vec<Row> = vec![
        (device("Клавиатура"), PollOutcome::Failed),
        (device("mouse"), PollOutcome::Failed),
    ];
    let out = print_table(&rows);
    let columns: Vec<usize> = out
        .lines()
        .map(|line| line[..line.find("offline").expect("the state")].chars().count())
        .collect();
    assert_eq!(columns.len(), 2);
    assert_eq!(columns[0], columns[1]);
    assert!(columns[0] >= "Клавиатура".chars().count() + 2);
}

#[test]
fn an_empty_list_says_so() {
    assert_eq!(print_table(&[]), "No devices found\n");
    assert_eq!(print_table_wide(&[]), "No devices found\n");
    assert_eq!(print_json(&[]), "[]");
}

#[test]
fn rows_are_sorted_by_name() {
    let rows: Vec<Row> = ["mouse", "Headset", "anchor"]
        .iter()
        .map(|n| (device(n), PollOutcome::Failed))
        .collect();
    let sorted: Vec<String> = sort_rows(&rows).iter().map(|(d, _)| d.name.clone()).collect();
    assert_eq!(sorted, ["Headset", "anchor", "mouse"]);
}

#[test]
fn a_poll_that_ended_without_an_answer_failed() {
    let r = BatteryReading::new(40, ChargeState::Full);
    assert_eq!(poll_outcome(Some(Ok(r))), PollOutcome::Reading(r));
    assert_eq!(
        poll_outcome(Some(Err(PollFailure::AccessDenied))),
        PollOutcome::NoAccess
    );
    assert_eq!(poll_outcome(Some(Err(PollFailure::Other))), PollOutcome::Failed);
    assert_eq!(poll_outcome(None), PollOutcome::Failed);
}

#[test]
fn the_json_listing_parses_and_is_indented() {
    let reading = BatteryReading::new(75, ChargeState::Charging);
    let rows: Vec<Row> = vec![
        (device("mo\"use\n"), PollOutcome::Reading(reading)),
        (device("pad"), PollOutcome::NoAccess),
    ];
    let out = print_json(&rows);
    assert!(out.starts_with("[\n  {\n"));
    let value: serde_json::Value = serde_json::from_str(&out).expect("JSON");
    assert_eq!(value[0]["name"], "mo\"use\n");
    assert_eq!(value[0]["percent"], 75);
    assert_eq!(value[1]["percent"], serde_json::Value::Null);
    assert_eq!(value[1]["presence"], "no_access");
}

#[test]
fn a_failure_to_serialise_falls_back() {
    let error = serde_json::from_str::<serde_json::Value>("x").unwrap_err();
    assert_eq!(text_or(Err(error), "[]"), "[]");
    assert_eq!(text_or(Ok("{}".to_owned()), "[]"), "{}");
    assert!(serde_json::from_str::<serde_json::Value>(FALLBACK_LINE).is_ok());
}

// --- waybar ------------------------------------------------------------------

fn device_state(
    name: &str,
    presence: Presence,
    last_reading: Option<BatteryReading>,
    last_seen: Option<BootTime>,
) -> DeviceState {
    DeviceState {
        info: device(name),
        last_reading,
        last_seen,
        presence,
        estimate: Estimate::Unknown,
    }
}

fn tooltip(value: &JsonObject) -> String {
    match field(value, "tooltip") {
        JsonValue::Text(t) => t.clone(),
        _ => panic!("tooltip is a string"),
    }
}

#[test]
fn waybar_charging_device_is_charging_class() {
    let reading = BatteryReading::new(80, ChargeState::Charging);
    let states = vec![device_state("mouse", Presence::Online, Some(reading), None)];
    let cfg = Config::default();

    let value = to_waybar(&states, &cfg, test_now());
    assert_eq!(*field(&value, "class"), text("charging"));
    assert_eq!(*field(&value, "percentage"), JsonValue::Number(80));
    assert_eq!(*field(&value, "text"), text("80%"));
}

#[test]
fn waybar_low_battery_is_low_class() {
    let reading = BatteryReading::new(10, ChargeState::Discharging);
    let states = vec![device_state("mouse", Presence::Online, Some(reading), None)];
    let cfg = Config {
        low_threshold: 20,
        ..Config::default()
    };

    let value = to_waybar(&states, &cfg, test_now());
    assert_eq!(*field(&value, "class"), text("low"));
    assert_eq!(*field(&value, "percentage"), JsonValue::Number(10));
}

#[test]
fn waybar_healthy_battery_is_ok_class() {
    let reading = BatteryReading::new(80, ChargeState::Discharging);
    let states = vec![device_state("mouse", Presence::Online, Some(reading), None)];
    let cfg = Config::default();

    let value = to_waybar(&states, &cfg, test_now());
    assert_eq!(*field(&value, "class"), text("ok"));
    assert_eq!(*field(&value, "percentage"), JsonValue::Number(80));
}

#[test]
fn waybar_leaves_out_a_device_that_never_answered_like_the_tray() {
    let states = vec![device_state("mouse", Presence::Disconnected, None, None)];
    let cfg = Config::default();

    let value = to_waybar(&states, &cfg, test_now());
    assert_eq!(*field(&value, "class"), text("offline"));
    assert!(value.get("percentage").is_none());
    assert_eq!(*field(&value, "text"), text("no devices"));
    assert_eq!(*field(&value, "tooltip"), text("No devices"));
}

#[test]
fn waybar_unreachable_with_retained_reading_shows_it_like_the_tray() {
    let seen = test_now();
    let now = seen + Duration::from_secs(300);
    let reading = BatteryReading::new(88, ChargeState::Discharging);
    let states = vec![device_state(
        "mouse",
        Presence::Unreachable,
        Some(reading),
        Some(seen),
    )];
    let cfg = Config::default();

    let value = to_waybar(&states, &cfg, now);
    assert_eq!(*field(&value, "class"), text("ok"));
    assert_eq!(*field(&value, "percentage"), JsonValue::Number(88));
    assert_eq!(tooltip(&value), "mouse: 88%  offline (5m ago)");
}

#[test]
fn waybar_no_devices_is_offline_with_fallback_text() {
    let states: Vec<DeviceState> = vec![];
    let cfg = Config::default();

    let value = to_waybar(&states, &cfg, test_now());
    assert_eq!(*field(&value, "class"), text("offline"));
    assert_eq!(*field(&value, "text"), text("no devices"));
    assert!(value.get("percentage").is_none());
}

#[test]
fn waybar_tooltip_lists_the_tray_roster_in_its_order() {
    let seen = test_now();
    let now = seen + Duration::from_secs(300);
    let charging = BatteryReading::new(80, ChargeState::Charging);
    let retained = BatteryReading::new(50, ChargeState::Discharging);
    let states = vec![
        device_state(
            "keyboard",
            Presence::Unreachable,
            Some(retained),
            Some(seen),
        ),
        device_state("dongle", Presence::Disconnected, None, None),
        device_state("mouse", Presence::Online, Some(charging), Some(now)),
    ];
    let cfg = Config::default();

    let tip = tooltip(&to_waybar(&states, &cfg, now));
    let lines: Vec<&str> = tip.lines().collect();
    assert_eq!(
        lines,
        ["mouse: 80%  charging", "keyboard: 50%  offline (5m ago)"]
    );
}

#[test]
fn waybar_features_an_online_device_over_one_without_access() {
    let reading = BatteryReading::new(60, ChargeState::Discharging);
    let states = vec![
        device_state("mouse", Presence::NoAccess, None, None),
        device_state("keyboard", Presence::Online, Some(reading), None),
    ];

    let value = to_waybar(&states, &Config::default(), test_now());
    assert_eq!(*field(&value, "text"), text("60%"));
    assert!(tooltip(&value).contains("mouse: no access (run rigbat doctor)"));
}

#[test]
fn waybar_respects_hidden_devices_filter() {
    let reading = BatteryReading::new(50, ChargeState::Discharging);
    let states = vec![
        device_state("mouse", Presence::Online, Some(reading), None),
        device_state("keyboard", Presence::Online, Some(reading), None),
    ];
    let cfg = Config {
        hidden_devices: vec!["mouse".to_string()],
        ..Config::default()
    };

    let tip = tooltip(&to_waybar(&states, &cfg, test_now()));
    assert_eq!(tip.lines().count(), 1);
    assert!(tip.contains("keyboard"));
}

#[test]
fn waybar_respects_explicit_primary_device() {
    let reading_mouse = BatteryReading::new(90, ChargeState::Discharging);
    let reading_kbd = BatteryReading::new(10, ChargeState::Discharging);
    let states = vec![
        device_state("mouse", Presence::Online, Some(reading_mouse), None),
        device_state("keyboard", Presence::Online, Some(reading_kbd), None),
    ];
    let cfg = Config {
        primary_device: Some("keyboard".to_string()),
        ..Config::default()
    };

    let value = to_waybar(&states, &cfg, test_now());
    assert_eq!(*field(&value, "percentage"), JsonValue::Number(10));
    assert_eq!(*field(&value, "class"), text("low"));
}

#[test]
fn waybar_percentage_key_absent_when_featured_device_has_no_reading() {
    let states = vec![device_state("mouse", Presence::NoAccess, None, None)];
    let cfg = Config::default();

    let value = to_waybar(&states, &cfg, test_now());
    assert!(value.get("percentage").is_none());
    assert_eq!(*field(&value, "text"), text("offline"));
}

fn assert_single_line_json(text: &str) -> serde_json::Value {
    assert_eq!(text.lines().count(), 1, "expected exactly one line");
    serde_json::from_str(text).expect("output must parse as JSON")
}

#[test]
fn waybar_output_is_one_line_and_parses_as_json() {
    let reading = BatteryReading::new(80, ChargeState::Charging);
    let states = vec![device_state("mouse", Presence::Online, Some(reading), None)];
    let cfg = Config::default();

    let line = render_waybar_line(&states, &cfg, test_now());
    let parsed = assert_single_line_json(&line);
    assert_eq!(parsed["class"], "charging");
    assert_eq!(parsed["percentage"], 80);
}

#[test]
fn a_name_with_a_line_break_stays_on_one_line() {
    let reading = BatteryReading::new(80, ChargeState::Charging);
    let states = vec![device_state(
        "mo\nuse",
        Presence::Online,
        Some(reading),
        None,
    )];
    let line = render_waybar_line(&states, &Config::default(), test_now());
    assert_single_line_json(&line);
}

#[test]
fn a_repeated_line_is_no_news() {
    assert!(is_news(&None, "{}"));
    assert!(!is_news(&Some("{}".to_owned()), "{}"));
    assert!(is_news(&Some("{}".to_owned()), "[]"));
}

#[test]
fn the_first_line_waits_for_the_featured_reading() {
    let cfg = Config::default();
    let silent = vec![device_state("mouse", Presence::Unreachable, None, None)];
    assert!(!is_settled(&silent, &cfg, test_now()));
    let reading = BatteryReading::new(80, ChargeState::Charging);
    let read = vec![device_state("mouse", Presence::Online, Some(reading), None)];
    assert!(is_settled(&read, &cfg, test_now()));
    assert!(is_settled(&[], &cfg, test_now()));
    let hidden = Config {
        hidden_devices: vec!["mouse".to_string()],
        ..Config::default()
    };
    assert!(is_settled(&silent, &hidden, test_now()));
}

/// The featured device and its status are those of the aggregate tray icon.
#[test]
fn waybar_and_the_tray_icon_feature_the_same_device_and_status() {
    let now = test_now();
    let seen = now.checked_sub(Duration::from_secs(300)).unwrap();
    let device = |name: &str, transport, presence, percent: Option<u8>, last_seen| {
        let mut d = device_state(
            name,
            presence,
            percent.map(|p| BatteryReading::new(p, ChargeState::Discharging)),
            percent.map(|_| last_seen),
        );
        d.info.transport = transport;
        d
    };
    let states = vec![
        device(
            "MX",
            Transport::Sysfs,
            Presence::Unreachable,
            Some(70),
            seen,
        ),
        device("MX", Transport::Bluetooth, Presence::Online, Some(40), now),
        device(
            "Keys",
            Transport::Hidraw,
            Presence::Unreachable,
            Some(88),
            seen,
        ),
        device(
            "Dongle",
            Transport::Hidraw,
            Presence::Unreachable,
            None,
            seen,
        ),
    ];
    let cases = [
        (None, "MX", Transport::Bluetooth, 40),
        (Some("MX"), "MX", Transport::Bluetooth, 40),
        (Some("Keys"), "Keys", Transport::Hidraw, 88),
        (Some("Dongle"), "MX", Transport::Bluetooth, 40),
    ];
    for (primary, name, transport, percent) in cases {
        let cfg = Config {
            primary_device: primary.map(str::to_owned),
            ..Config::default()
        };
        let icons = iconed(&states, &cfg, now);
        assert_eq!(icons.len(), 1, "pin {primary:?}");
        let tray = icons[0];
        let (waybar, waybar_status) =
            waybar_featured(&states, &cfg, now).expect("waybar too");
        assert_eq!(waybar.info.id(), tray.info.id(), "pin {primary:?}");
        let threshold = cfg.effective_low_threshold(&tray.info.name);
        assert_eq!(
            waybar_status,
            device_status(tray, threshold).0,
            "pin {primary:?}"
        );
        assert_eq!(
            (
                waybar.info.name.as_str(),
                waybar.info.transport,
                waybar_status
            ),
            (name, transport, PrimaryStatus::Normal { percent }),
            "pin {primary:?}"
        );

        let json = to_waybar(&states, &cfg, now);
        assert_eq!(
            *field(&json, "percentage"),
            JsonValue::Number(u64::from(percent)),
            "pin {primary:?}"
        );
    }
}
