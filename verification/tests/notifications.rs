use rigbat::config::Config;
use rigbat::domain::estimate::Estimate;
use rigbat::domain::time::{BootTime, Duration};
use rigbat::domain::types::{
    BatteryReading, ChargeState, DeviceId, DeviceInfo, DeviceKind, DeviceState, Presence,
    Transport, TrayState,
};
use rigbat::i18n::Lang;
use rigbat::notifications::{
    alert_level, compute_pending, toasts, Level, LowTracker, NOTIFY_TIMEOUT_SECS,
};

fn test_now() -> BootTime {
    BootTime::from_boot(Duration::from_secs(7 * 24 * 60 * 60))
}

#[test]
fn hidden_device_never_notifies() {
    let mut tracker = LowTracker::new();
    let cfg = Config {
        hidden_devices: vec!["mouse".to_string()],
        low_threshold: 20,
        ..Config::default()
    };
    let now = test_now();
    let state = TrayState {
        devices: vec![device_state_at(
            "mouse",
            Presence::Online,
            Some(5),
            Some(now),
        )],
    };
    assert!(compute_pending(&state, &cfg, &mut tracker).is_empty());

    // Unhiding must not fire on a crossing consumed while invisible: the
    // tracker never saw the hidden readings, so confirmation starts now.
    let shown = Config {
        hidden_devices: Vec::new(),
        ..cfg
    };
    assert!(compute_pending(&state, &shown, &mut tracker).is_empty());
}

#[test]
fn notify_timeout_is_well_under_dbus_default() {
    assert!(NOTIFY_TIMEOUT_SECS > 0);
    assert!(NOTIFY_TIMEOUT_SECS < 25);
}

#[test]
fn one_low_reading_does_not_notify() {
    let mut t = LowTracker::new();
    let t0 = test_now();
    assert!(!t.observe(&test_id("mouse"), Level::Low, Some(t0)));
}

#[test]
fn two_distinct_low_readings_notify_exactly_once() {
    let mut t = LowTracker::new();
    let t0 = test_now();
    let t1 = t0 + Duration::from_secs(60);
    assert!(!t.observe(&test_id("mouse"), Level::Low, Some(t0)));
    assert!(t.observe(&test_id("mouse"), Level::Low, Some(t1)));
    // Already notified for this crossing — no second fire.
    let t2 = t1 + Duration::from_secs(60);
    assert!(!t.observe(&test_id("mouse"), Level::Low, Some(t2)));
}

#[test]
fn republished_same_reading_does_not_notify() {
    let mut t = LowTracker::new();
    let t0 = test_now();
    assert!(!t.observe(&test_id("mouse"), Level::Low, Some(t0)));
    // Same last_seen — a republication of the same reading, not a new one.
    assert!(!t.observe(&test_id("mouse"), Level::Low, Some(t0)));
    assert!(!t.observe(&test_id("mouse"), Level::Low, Some(t0)));
}

#[test]
fn rearm_after_not_low_needs_two_fresh_confirmations() {
    let mut t = LowTracker::new();
    let t0 = test_now();
    let t1 = t0 + Duration::from_secs(60);
    assert!(!t.observe(&test_id("mouse"), Level::Low, Some(t0)));
    assert!(t.observe(&test_id("mouse"), Level::Low, Some(t1)));

    // Recovers, then goes low again — the old streak must not carry over.
    t.observe(&test_id("mouse"), Level::Rearmed, None);
    let t2 = t1 + Duration::from_secs(120);
    let t3 = t2 + Duration::from_secs(60);
    assert!(!t.observe(&test_id("mouse"), Level::Low, Some(t2)));
    assert!(t.observe(&test_id("mouse"), Level::Low, Some(t3)));
}

#[test]
fn going_offline_between_low_readings_leaves_streak_intact() {
    let mut t = LowTracker::new();
    let t0 = test_now();
    // First low reading builds a streak of one.
    assert!(!t.observe(&test_id("mouse"), Level::Low, Some(t0)));
    // Device goes non-Online: compute_pending skips it entirely, so
    // observe is simply not called — the streak is untouched.
    let t1 = t0 + Duration::from_secs(60);
    // Comes back Online, still low, with a fresh reading: streak reaches
    // LOW_CONFIRMATIONS and fires.
    assert!(t.observe(&test_id("mouse"), Level::Low, Some(t1)));
}

#[test]
fn missing_last_seen_does_not_panic_or_notify() {
    let mut t = LowTracker::new();
    assert!(!t.observe(&test_id("mouse"), Level::Low, None));
}

#[test]
fn two_devices_tracked_independently() {
    let mut t = LowTracker::new();
    let t0 = test_now();
    let t1 = t0 + Duration::from_secs(60);

    assert!(!t.observe(&test_id("mouse"), Level::Low, Some(t0)));
    assert!(!t.observe(&test_id("keyboard"), Level::Low, Some(t0)));
    assert!(t.observe(&test_id("mouse"), Level::Low, Some(t1)));
    assert!(t.observe(&test_id("keyboard"), Level::Low, Some(t1)));
    // mouse already notified — no second fire
    let t2 = t1 + Duration::from_secs(60);
    assert!(!t.observe(&test_id("mouse"), Level::Low, Some(t2)));
    // keyboard re-arms after recovery
    t.observe(&test_id("keyboard"), Level::Rearmed, None);
    assert!(!t.observe(&test_id("keyboard"), Level::Low, Some(t2)));
    let t3 = t2 + Duration::from_secs(60);
    assert!(t.observe(&test_id("keyboard"), Level::Low, Some(t3)));
    // mouse still armed
    assert!(!t.observe(&test_id("mouse"), Level::Low, Some(t3)));
}

// --- compute_pending ------------------------------------------------

/// A `DeviceId` matching what `device_state` builds, so tracker tests and
/// `compute_pending` tests name the same device.
fn test_id(name: &str) -> DeviceId {
    DeviceId {
        name: name.to_owned(),
        transport: Transport::Sysfs,
        locator: None,
    }
}

/// Two entries for one physical device — the sysfs and Bluetooth views the
/// project deliberately does not merge — can carry the same name. Their
/// low-battery streaks must stay apart.
#[test]
fn same_name_on_two_transports_tracks_separately() {
    let mut t = LowTracker::new();
    let t0 = test_now();
    let t1 = t0 + Duration::from_secs(60);
    let sysfs = DeviceId {
        name: "MX Anywhere 3".to_owned(),
        transport: Transport::Sysfs,
        locator: Some("00:00:5e:00:53:01".to_owned()),
    };
    let bluetooth = DeviceId {
        transport: Transport::Bluetooth,
        ..sysfs.clone()
    };

    // One confirmation each: neither may borrow the other's.
    assert!(!t.observe(&sysfs, Level::Low, Some(t0)));
    assert!(!t.observe(&bluetooth, Level::Low, Some(t0)));

    // The second confirmation fires each of them once, independently.
    assert!(t.observe(&sysfs, Level::Low, Some(t1)));
    assert!(t.observe(&bluetooth, Level::Low, Some(t1)));

    // And one recovering must not re-arm the other.
    t.observe(&sysfs, Level::Rearmed, None);
    assert!(!t.observe(&bluetooth, Level::Low, Some(t1 + Duration::from_secs(60))));
}

fn device_state(name: &str, presence: Presence, percent: Option<u8>) -> DeviceState {
    device_state_at(
        name,
        presence,
        percent,
        percent.map(|_| test_now()),
    )
}

fn device_state_at(
    name: &str,
    presence: Presence,
    percent: Option<u8>,
    last_seen: Option<BootTime>,
) -> DeviceState {
    DeviceState {
        info: DeviceInfo {
            name: name.to_owned(),
            kind: DeviceKind::Mouse,
            transport: Transport::Sysfs,
            locator: None,
        },
        last_reading: percent.map(|p| BatteryReading::new(p, ChargeState::Discharging)),
        last_seen,
        presence,
        estimate: Estimate::Unknown,
    }
}

#[test]
fn disconnected_device_with_low_retained_reading_does_not_notify() {
    let mut tracker = LowTracker::new();
    let cfg = Config::default();
    let state = TrayState {
        devices: vec![device_state("mouse", Presence::Disconnected, Some(5))],
    };

    let pending = compute_pending(&state, &cfg, &mut tracker);

    assert!(pending.is_empty());
}

#[test]
fn unreachable_device_with_low_retained_reading_does_not_notify() {
    let mut tracker = LowTracker::new();
    let cfg = Config::default();
    let state = TrayState {
        devices: vec![device_state("mouse", Presence::Unreachable, Some(5))],
    };

    let pending = compute_pending(&state, &cfg, &mut tracker);

    assert!(pending.is_empty());
}

#[test]
fn no_access_device_with_low_retained_reading_does_not_notify() {
    let mut tracker = LowTracker::new();
    let cfg = Config::default();
    let state = TrayState {
        devices: vec![device_state("mouse", Presence::NoAccess, Some(5))],
    };

    assert!(compute_pending(&state, &cfg, &mut tracker).is_empty());
    assert!(compute_pending(&state, &cfg, &mut tracker).is_empty());
}

#[test]
fn device_still_low_after_reconnecting_does_not_double_notify() {
    let mut tracker = LowTracker::new();
    let cfg = Config::default();
    let t0 = test_now();
    let t1 = t0 + Duration::from_secs(60);

    // First low reading while Online — only one confirmation so far.
    let online_low_1 = TrayState {
        devices: vec![device_state_at(
            "mouse",
            Presence::Online,
            Some(5),
            Some(t0),
        )],
    };
    assert!(compute_pending(&online_low_1, &cfg, &mut tracker).is_empty());

    // Goes away while still low: skipped entirely, tracker untouched.
    let disconnected = TrayState {
        devices: vec![device_state_at(
            "mouse",
            Presence::Disconnected,
            Some(5),
            Some(t0),
        )],
    };
    assert!(compute_pending(&disconnected, &cfg, &mut tracker).is_empty());

    // Comes back Online with a fresh low reading: second confirmation fires.
    let online_low_2 = TrayState {
        devices: vec![device_state_at(
            "mouse",
            Presence::Online,
            Some(5),
            Some(t1),
        )],
    };
    assert_eq!(
        compute_pending(&online_low_2, &cfg, &mut tracker),
        vec![("mouse".to_string(), 5)]
    );

    // Still low, same reading republished: no second notification.
    assert!(compute_pending(&online_low_2, &cfg, &mut tracker).is_empty());
}

fn pending_over(
    readings: &[(u8, ChargeState)],
    cfg: &Config,
    tracker: &mut LowTracker,
) -> Vec<(String, u8)> {
    let t0 = test_now();
    let mut fired = Vec::new();
    for (i, (percent, charge)) in readings.iter().enumerate() {
        let mut device = device_state_at(
            "mouse",
            Presence::Online,
            Some(*percent),
            Some(t0 + Duration::from_secs(60 * i as u64)),
        );
        device.last_reading = Some(BatteryReading::new(*percent, *charge));
        let state = TrayState {
            devices: vec![device],
        };
        fired.extend(compute_pending(&state, cfg, tracker));
    }
    fired
}

fn threshold_20() -> Config {
    Config {
        low_threshold: 20,
        ..Config::default()
    }
}

#[test]
fn hovering_around_the_threshold_notifies_once() {
    let d = ChargeState::Discharging;
    let readings = [
        (19, d),
        (19, d),
        (21, d),
        (19, d),
        (19, d),
        (24, d),
        (19, d),
        (18, d),
    ];
    let fired = pending_over(&readings, &threshold_20(), &mut LowTracker::new());
    assert_eq!(fired, [("mouse".to_owned(), 19)]);
}

#[test]
fn rising_well_above_the_threshold_rearms() {
    let d = ChargeState::Discharging;
    let readings = [(19, d), (19, d), (25, d), (19, d), (18, d)];
    let fired = pending_over(&readings, &threshold_20(), &mut LowTracker::new());
    assert_eq!(fired, [("mouse".to_owned(), 19), ("mouse".to_owned(), 18)]);
}

#[test]
fn charging_rearms() {
    let (c, d) = (ChargeState::Charging, ChargeState::Discharging);
    let readings = [(19, d), (19, d), (19, c), (19, d), (18, d)];
    let fired = pending_over(&readings, &threshold_20(), &mut LowTracker::new());
    assert_eq!(fired, [("mouse".to_owned(), 19), ("mouse".to_owned(), 18)]);
}

#[test]
fn going_offline_does_not_rearm() {
    let cfg = threshold_20();
    let mut tracker = LowTracker::new();
    let low = [(19, ChargeState::Discharging); 2];
    assert_eq!(pending_over(&low, &cfg, &mut tracker).len(), 1);
    let away = TrayState {
        devices: vec![device_state("mouse", Presence::Unreachable, Some(19))],
    };
    assert!(compute_pending(&away, &cfg, &mut tracker).is_empty());
    assert!(pending_over(&low, &cfg, &mut tracker).is_empty());
}

#[test]
fn a_device_that_leaves_the_roster_is_forgotten() {
    let cfg = threshold_20();
    let mut tracker = LowTracker::new();
    pending_over(&[(19, ChargeState::Discharging); 3], &cfg, &mut tracker);
    compute_pending(
        &TrayState {
            devices: Vec::new(),
        },
        &cfg,
        &mut tracker,
    );
    assert!(tracker.is_empty());
}

#[test]
fn online_device_above_threshold_does_not_notify() {
    let mut tracker = LowTracker::new();
    let cfg = Config::default();
    let state = TrayState {
        devices: vec![device_state("mouse", Presence::Online, Some(80))],
    };

    assert!(compute_pending(&state, &cfg, &mut tracker).is_empty());
}

#[test]
fn the_margin_above_the_threshold_rearms() {
    let at = |percent| Some(BatteryReading::new(percent, ChargeState::Discharging));
    assert_eq!(alert_level(at(20), 20), Level::Low);
    assert_eq!(alert_level(at(21), 20), Level::Recovering);
    assert_eq!(alert_level(at(24), 20), Level::Recovering);
    assert_eq!(alert_level(at(25), 20), Level::Rearmed);
    let charging = Some(BatteryReading::new(5, ChargeState::Charging));
    assert_eq!(alert_level(charging, 20), Level::Rearmed);
    assert_eq!(alert_level(None, 20), Level::Recovering);
}

#[test]
fn toasts_name_the_device_and_its_charge() {
    let pending = vec![("mouse".to_owned(), 15)];
    let shown = toasts(&pending, true, Lang::En);
    assert_eq!(shown.len(), 1);
    assert_eq!(shown[0].device, "mouse");
    assert_eq!(shown[0].percent, 15);
    assert!(format!("{} {}", shown[0].summary, shown[0].body).contains("mouse"));
    assert!(format!("{} {}", shown[0].summary, shown[0].body).contains("15%"));
    assert!(toasts(&pending, false, Lang::En).is_empty());
}
