use rigbat::config::Config;
use rigbat::domain::display::{DisplayMode, TrayMode};
use rigbat::domain::estimate::Estimate;
use rigbat::domain::primary::PrimaryStatus;
use rigbat::domain::time::{BootTime, Duration};
use rigbat::domain::types::{
    BatteryReading, ChargeState, DeviceInfo, DeviceKind, DeviceState, Presence, Transport,
};
use rigbat::icon::Theme;
use rigbat::tray::{card_of, icon_key, iconed, snapshot};

fn test_now() -> BootTime {
    BootTime::from_boot(Duration::from_secs(7 * 24 * 60 * 60))
}

fn ago(secs: u64) -> BootTime {
    test_now().checked_sub(Duration::from_secs(secs)).unwrap()
}

fn device(name: &str, presence: Presence, percent: u8, seen: BootTime) -> DeviceState {
    DeviceState {
        info: DeviceInfo {
            name: name.to_owned(),
            kind: DeviceKind::Mouse,
            transport: Transport::Hidraw,
            locator: None,
        },
        last_reading: Some(BatteryReading::new(percent, ChargeState::Discharging)),
        last_seen: Some(seen),
        presence,
        estimate: Estimate::Unknown,
    }
}

fn states() -> Vec<DeviceState> {
    vec![
        device("Keys", Presence::Unreachable, 88, ago(300)),
        device("Mouse", Presence::Online, 15, test_now()),
        device("Headset", Presence::Online, 60, test_now()),
    ]
}

fn names(devices: &[&DeviceState]) -> Vec<String> {
    devices.iter().map(|d| d.info.name.clone()).collect()
}

#[test]
fn one_icon_per_listed_device() {
    let cfg = Config {
        tray_mode: TrayMode::PerDevice,
        ..Config::default()
    };
    let states = states();
    assert_eq!(
        names(&iconed(&states, &cfg, test_now())),
        ["Headset", "Mouse", "Keys"]
    );
}

#[test]
fn the_aggregate_icon_follows_the_pin() {
    let states = states();
    let mut cfg = Config::default();
    assert_eq!(names(&iconed(&states, &cfg, test_now())), ["Headset"]);
    cfg.primary_device = Some("Keys".to_owned());
    assert_eq!(names(&iconed(&states, &cfg, test_now())), ["Keys"]);
    assert!(iconed(&[], &cfg, test_now()).is_empty());
}

#[test]
fn a_hidden_device_has_no_icon() {
    let states = states();
    for tray_mode in [TrayMode::PrimaryOnly, TrayMode::PerDevice] {
        let cfg = Config {
            tray_mode,
            primary_device: Some("Mouse".to_owned()),
            hidden_devices: vec!["Mouse".to_owned()],
            ..Config::default()
        };
        let shown = names(&iconed(&states, &cfg, test_now()));
        assert!(!shown.contains(&"Mouse".to_owned()));
        assert!(!shown.is_empty());
    }
}

#[test]
fn an_icon_is_keyed_by_its_device_and_the_settings() {
    let theme = Theme {
        normal: [1, 2, 3, 4],
        low: [5, 6, 7, 8],
        charging: [9, 10, 11, 12],
        offline: [13, 14, 15, 16],
    };
    let cfg = Config {
        display_mode: DisplayMode::PercentOnly,
        ..Config::default()
    };
    let key = icon_key(&states()[1], &cfg, theme);
    assert_eq!(key.status, PrimaryStatus::Low { percent: 15 });
    assert!(!key.stale);
    assert_eq!(key.kind, Some(DeviceKind::Mouse));
    assert_eq!(key.mode, DisplayMode::PercentOnly);
    assert_eq!(key.theme, theme);

    let remembered = icon_key(&states()[0], &cfg, theme);
    assert_eq!(remembered.status, PrimaryStatus::Normal { percent: 88 });
    assert!(remembered.stale);
}

#[test]
fn a_card_says_what_is_known_of_its_device() {
    let mut keys = device("Keys", Presence::Unreachable, 88, ago(301));
    keys.info.locator = Some("AA:BB".to_owned());
    keys.estimate = Estimate::Remaining(Duration::from_secs(7200));
    let card = card_of(&keys, &Config::default(), test_now(), true);
    assert_eq!(card.name, "Keys");
    assert_eq!(card.locator.as_deref(), Some("AA:BB"));
    assert_eq!(card.percent, Some(88));
    assert_eq!(card.charge, Some(ChargeState::Discharging));
    assert_eq!(card.status, PrimaryStatus::Normal { percent: 88 });
    assert!(card.stale && card.in_tray);
    assert_eq!(card.seen_secs_ago, Some(301));
    assert_eq!(card.remaining_secs, Some(7200));

    keys.last_reading = None;
    keys.last_seen = None;
    keys.estimate = Estimate::Charging;
    let silent = card_of(&keys, &Config::default(), test_now(), false);
    assert_eq!((silent.percent, silent.charge), (None, None));
    assert_eq!((silent.seen_secs_ago, silent.remaining_secs), (None, None));
    assert_eq!(silent.status, PrimaryStatus::Offline);
    assert!(!silent.in_tray);
}

#[test]
fn a_snapshot_parts_the_hidden_from_the_shown() {
    let cfg = Config {
        hidden_devices: vec!["Headset".to_owned()],
        ..Config::default()
    };
    let snapshot = snapshot(&states(), &cfg, test_now());
    assert_eq!(snapshot.display_mode, cfg.display_mode);
    let shown: Vec<(&str, bool)> = snapshot
        .devices
        .iter()
        .map(|c| (c.name.as_str(), c.in_tray))
        .collect();
    assert_eq!(shown, [("Mouse", true), ("Keys", false)]);
    let hidden: Vec<(&str, bool)> = snapshot
        .hidden
        .iter()
        .map(|c| (c.name.as_str(), c.in_tray))
        .collect();
    assert_eq!(hidden, [("Headset", false)]);
}
