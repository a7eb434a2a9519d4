use rigbat::domain::estimate::Estimate;
use rigbat::domain::time::{BootTime, Duration};
use rigbat::domain::types::{
    freedesktop_icon_name, guess_kind, BatteryReading, ChargeState, DeviceInfo, DeviceKind,
    DeviceState, PollOutcome, Presence, Transport,
};

fn test_now() -> BootTime {
    BootTime::from_boot(Duration::from_secs(7 * 24 * 60 * 60))
}

fn day() -> Duration {
    Duration::from_secs(24 * 60 * 60)
}

fn state_at(
    presence: Presence,
    reading: Option<BatteryReading>,
    seen: Option<BootTime>,
) -> DeviceState {
    DeviceState {
        info: DeviceInfo {
            name: "mouse".to_owned(),
            kind: DeviceKind::Mouse,
            transport: Transport::Hidraw,
            locator: None,
        },
        last_reading: reading,
        last_seen: seen,
        presence,
        estimate: Estimate::Unknown,
    }
}

#[test]
fn duration_since_saturates_and_a_point_may_predate_boot() {
    let t = BootTime::from_boot(Duration::from_secs(10));
    let later = t + Duration::from_secs(5);
    assert_eq!(later.saturating_duration_since(t), Duration::from_secs(5));
    assert_eq!(t.saturating_duration_since(later), Duration::from_secs(0));

    let before_boot = t.checked_sub(Duration::from_secs(3600)).unwrap();
    assert_eq!(
        t.saturating_duration_since(before_boot),
        Duration::from_secs(3600)
    );
}

#[test]
fn a_point_before_the_clock_begins_is_none() {
    let t = BootTime::from_boot(Duration::from_secs(0));
    let earliest = t.checked_sub(Duration::from_nanos(u64::MAX)).unwrap();
    assert_eq!(earliest.checked_sub(Duration::from_secs(1)), None);
}

#[test]
fn adding_back_what_was_subtracted_gives_the_point() {
    let t = BootTime::from_boot(Duration::from_secs(10));
    for d in [
        Duration::from_secs(0),
        Duration::from_secs(3600),
        Duration::from_nanos(u64::MAX / 2),
    ] {
        let before = t.checked_sub(d).expect("the clock reaches back");
        assert_eq!(before + d, t);
        assert_eq!(t.saturating_duration_since(before), d);
    }
}

#[test]
fn spans_convert_and_saturate() {
    assert_eq!(Duration::from_millis(1500).as_secs(), 1);
    assert_eq!(Duration::from_millis(1500).as_nanos(), 1_500_000_000);
    assert_eq!(Duration::from_secs(3).saturating_double(), Duration::from_secs(6));
    let longest = Duration::from_secs(u64::MAX).saturating_double();
    assert_eq!(longest.as_secs(), u64::MAX);
    assert_eq!(longest.saturating_double(), longest);
}

#[test]
fn online_device_is_always_informative() {
    let now = test_now();
    let state = state_at(Presence::Online, None, None);
    assert!(state.is_currently_informative(now, day()));
}

#[test]
fn offline_device_that_never_answered_is_not_informative() {
    let now = test_now();
    for presence in [Presence::Unreachable, Presence::Disconnected] {
        let state = state_at(presence, None, None);
        assert!(!state.is_currently_informative(now, day()));
    }
}

#[test]
fn no_access_device_is_informative_without_a_reading() {
    let state = state_at(Presence::NoAccess, None, None);
    assert!(state.is_currently_informative(test_now(), day()));
}

#[test]
fn poll_outcome_maps_to_presence_and_reading() {
    let r = BatteryReading::new(40, ChargeState::Discharging);
    assert_eq!(PollOutcome::Reading(r).presence(), Presence::Online);
    assert_eq!(PollOutcome::Reading(r).reading(), Some(r));
    assert_eq!(PollOutcome::Failed.presence(), Presence::Unreachable);
    assert_eq!(PollOutcome::NoAccess.presence(), Presence::NoAccess);
    assert_eq!(PollOutcome::NoAccess.reading(), None);
}

/// `--json` and the dashboard print this spelling.
#[test]
fn no_access_serializes_as_snake_case() {
    assert_eq!(Presence::NoAccess.as_str(), "no_access");
    assert_eq!(Presence::Online.as_str(), "online");
    assert_eq!(Presence::Unreachable.as_str(), "unreachable");
    assert_eq!(Presence::Disconnected.as_str(), "disconnected");
}

#[test]
fn offline_device_keeps_a_recent_reading() {
    let now = test_now();
    let seen = now.checked_sub(Duration::from_secs(3600));
    let state = state_at(
        Presence::Unreachable,
        Some(BatteryReading::new(88, ChargeState::Discharging)),
        seen,
    );
    assert!(state.is_currently_informative(now, day()));
}

#[test]
fn offline_device_loses_a_reading_older_than_the_cap() {
    let now = test_now();
    let seen = now.checked_sub(Duration::from_secs(24 * 60 * 60 + 1));
    let state = state_at(
        Presence::Unreachable,
        Some(BatteryReading::new(88, ChargeState::Discharging)),
        seen,
    );
    assert!(!state.is_currently_informative(now, day()));
}

/// Exactly at the cap still counts: the boundary belongs to the side that
/// keeps showing something.
#[test]
fn offline_device_at_exactly_the_cap_is_still_informative() {
    let now = test_now();
    let seen = now.checked_sub(day());
    let state = state_at(
        Presence::Unreachable,
        Some(BatteryReading::new(88, ChargeState::Discharging)),
        seen,
    );
    assert!(state.is_currently_informative(now, day()));
}

#[test]
fn host_suspend_counts_toward_the_cap() {
    let seen = test_now();
    let awake = 20 * 3600;
    let suspended = 5 * 3600;
    let now = seen + Duration::from_secs(awake + suspended);
    let state = state_at(
        Presence::Unreachable,
        Some(BatteryReading::new(88, ChargeState::Discharging)),
        Some(seen),
    );
    assert!(!state.is_currently_informative(now, day()));
}

/// Logitech ships a "G Pro" mouse and a "G Pro X" headset, so the
/// category word has to outrank the product line.
#[test]
fn guess_kind_category_word_beats_product_line() {
    assert_eq!(
        guess_kind("Logitech G Pro X Wireless Headset"),
        DeviceKind::Headset
    );
    assert_eq!(guess_kind("Logitech G Pro Wireless"), DeviceKind::Mouse);
}

#[test]
fn guess_kind_category_word_beats_product_line_for_keyboards() {
    assert_eq!(guess_kind("NuPhy Air75 V2-2"), DeviceKind::Keyboard);
    assert_eq!(
        guess_kind("Some Air75 Gaming Mouse"),
        DeviceKind::Mouse,
        "an explicit category word must win over a keyboard model number"
    );
}

#[test]
fn guess_kind_mouse() {
    assert_eq!(guess_kind("MX Anywhere 3"), DeviceKind::Mouse);
}

#[test]
fn guess_kind_keyboard() {
    assert_eq!(guess_kind("NuPhy Air75 V2-2"), DeviceKind::Keyboard);
}

#[test]
fn guess_kind_headset() {
    assert_eq!(guess_kind("UGREEN HiTune Max5"), DeviceKind::Headset);
}

#[test]
fn guess_kind_earbuds_are_headsets() {
    for name in [
        "Nothing Ear (2)",
        "Nothing Ear",
        "AirPods Pro",
        "Galaxy Buds+",
        "Sony Headphones",
    ] {
        assert_eq!(guess_kind(name), DeviceKind::Headset, "{name}");
    }
}

#[test]
fn guess_kind_ear_inside_a_word_is_not_a_headset() {
    assert_eq!(guess_kind("Nearby Keyboard"), DeviceKind::Keyboard);
    assert_eq!(guess_kind("Nearby Tracker"), DeviceKind::Other);
    assert_eq!(guess_kind("Gear Tag"), DeviceKind::Other);
}

#[test]
fn guess_kind_controller() {
    assert_eq!(guess_kind("DualSense"), DeviceKind::Controller);
}

#[test]
fn guess_kind_other() {
    assert_eq!(guess_kind("Unknown Thing"), DeviceKind::Other);
}

#[test]
fn guess_kind_case_insensitive() {
    assert_eq!(guess_kind("AEROX"), DeviceKind::Mouse);
}

/// The word boundary is any character that is no letter or digit, in any
/// script.
#[test]
fn guess_kind_words_end_at_punctuation_and_not_inside_other_scripts() {
    assert_eq!(guess_kind("(ear)"), DeviceKind::Headset);
    assert_eq!(guess_kind("éear"), DeviceKind::Other);
}

#[test]
fn freedesktop_icon_name_mouse() {
    assert_eq!(freedesktop_icon_name(DeviceKind::Mouse), "input-mouse");
}

#[test]
fn freedesktop_icon_name_keyboard() {
    assert_eq!(
        freedesktop_icon_name(DeviceKind::Keyboard),
        "input-keyboard"
    );
}

#[test]
fn freedesktop_icon_name_headset() {
    assert_eq!(freedesktop_icon_name(DeviceKind::Headset), "audio-headset");
}

#[test]
fn freedesktop_icon_name_controller() {
    assert_eq!(
        freedesktop_icon_name(DeviceKind::Controller),
        "input-gaming"
    );
}

#[test]
fn freedesktop_icon_name_other() {
    assert_eq!(freedesktop_icon_name(DeviceKind::Other), "battery");
}

#[test]
fn device_kind_as_str_exhaustive() {
    assert_eq!(DeviceKind::Mouse.as_str(), "mouse");
    assert_eq!(DeviceKind::Keyboard.as_str(), "keyboard");
    assert_eq!(DeviceKind::Headset.as_str(), "headset");
    assert_eq!(DeviceKind::Controller.as_str(), "controller");
    assert_eq!(DeviceKind::Other.as_str(), "other");
}

fn info(name: &str, transport: Transport) -> DeviceInfo {
    DeviceInfo {
        name: name.to_owned(),
        kind: DeviceKind::Other,
        transport,
        locator: None,
    }
}

#[test]
fn device_id_differs_by_transport() {
    let sysfs = info("mouse", Transport::Sysfs);
    let bluetooth = info("mouse", Transport::Bluetooth);
    assert_ne!(sysfs.id(), bluetooth.id());
    assert!(!sysfs.id().same(&bluetooth.id()));
}

#[test]
fn device_id_equal_for_identical_inputs_and_hashes_equal() {
    let a = info("mouse", Transport::Sysfs);
    let b = info("mouse", Transport::Sysfs);
    assert_eq!(a.id(), b.id());
    assert!(a.id().same(&b.id()));

    let mut set = std::collections::HashSet::new();
    set.insert(a.id());
    set.insert(b.id());
    assert_eq!(set.len(), 1);
}

#[test]
fn transport_as_str() {
    assert_eq!(Transport::Sysfs.as_str(), "sysfs");
    assert_eq!(Transport::Bluetooth.as_str(), "bluetooth");
    assert_eq!(Transport::Hidraw.as_str(), "hidraw");
}

#[test]
fn a_memory_that_faded_stays_faded() {
    let seen = test_now();
    let state = state_at(
        Presence::Disconnected,
        Some(BatteryReading::new(10, ChargeState::Full)),
        Some(seen),
    );
    for hours in [25, 26, 300] {
        let now = seen + Duration::from_secs(hours * 3600);
        assert!(!state.is_currently_informative(now, day()), "{hours}");
    }
}
