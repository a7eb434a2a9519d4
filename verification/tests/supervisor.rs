use rigbat::app::history::{push_history_point, seed_history, HISTORY_CAP};
use rigbat::app::manager::{config_to_convert, may_save, publish, take_poll, PollFailure};
use rigbat::app::supervisor::{
    ConfigRole, DeviceRegistry, Followup, Found, Reconciled, Seen, SourceEvent, TaskAction,
    DISCONNECTED_RETENTION_SECS, OFFLINE_AFTER_FAILURES,
};
use rigbat::config::Config;
use rigbat::domain::estimate::Estimate;
use rigbat::domain::time::{BootTime, Duration};
use rigbat::domain::types::{
    BatteryReading, ChargeState, DeviceId, DeviceInfo, DeviceKind, Presence, Transport, TrayState,
};

const NOW_UNIX: i64 = 1_700_000_000;

fn test_now() -> BootTime {
    BootTime::from_boot(Duration::from_secs(7 * 24 * 60 * 60))
}

fn device(name: &str) -> DeviceInfo {
    DeviceInfo {
        name: name.to_owned(),
        kind: DeviceKind::Other,
        transport: Transport::Sysfs,
        locator: Some(name.to_owned()),
    }
}

fn reading_discharging(percent: u8) -> BatteryReading {
    BatteryReading::new(percent, ChargeState::Discharging)
}

fn found(backend: &'static str, info: &DeviceInfo) -> Found {
    Found {
        info: info.clone(),
        backend,
        seen: None,
        rows: Vec::new(),
    }
}

/// A sweep at `test_now()` in which `succeeded` answered and no task had ended.
fn sweep(
    registry: &mut DeviceRegistry,
    devices: &[Found],
    succeeded: &[&'static str],
) -> Reconciled {
    registry.reconcile(devices, succeeded, &[], test_now(), NOW_UNIX, test_now())
}

fn sysfs_sweep(registry: &mut DeviceRegistry, devices: &[&DeviceInfo]) -> Reconciled {
    let devices: Vec<Found> = devices.iter().map(|d| found("sysfs", d)).collect();
    sweep(registry, &devices, &["sysfs"])
}

fn live_generation(registry: &DeviceRegistry, id: &DeviceId) -> u64 {
    registry.live_generation(id).unwrap_or(0)
}

fn record_live(registry: &mut DeviceRegistry, id: &DeviceId, reading: Option<BatteryReading>) {
    let generation = live_generation(registry, id);
    registry.record(id, generation, reading, test_now());
}

/// A registry with one device that has just been read at 80%.
fn with_online_device(a: &DeviceInfo) -> DeviceRegistry {
    let mut registry = DeviceRegistry::new();
    sysfs_sweep(&mut registry, &[a]);
    record_live(&mut registry, &a.id(), Some(reading_discharging(80)));
    registry
}

#[test]
fn reading_from_a_retired_generation_is_dropped() {
    let mut registry = DeviceRegistry::new();
    let a = device("a");

    sysfs_sweep(&mut registry, &[&a]);
    let first = live_generation(&registry, &a.id());
    registry.record(&a.id(), first, Some(reading_discharging(80)), test_now());

    sysfs_sweep(&mut registry, &[]);
    sysfs_sweep(&mut registry, &[&a]);
    let second = live_generation(&registry, &a.id());
    assert_ne!(first, second);

    registry.record(&a.id(), first, Some(reading_discharging(10)), test_now());
    let snapshot = registry.snapshot();
    assert_eq!(snapshot[0].presence, Presence::Disconnected);
    assert_eq!(snapshot[0].last_reading, Some(reading_discharging(80)));

    registry.record(&a.id(), second, Some(reading_discharging(55)), test_now());
    let snapshot = registry.snapshot();
    assert_eq!(snapshot[0].presence, Presence::Online);
    assert_eq!(snapshot[0].last_reading, Some(reading_discharging(55)));
}

#[test]
fn reading_from_an_aborted_task_does_not_revive_a_vanished_device() {
    let mut registry = DeviceRegistry::new();
    let a = device("a");

    sysfs_sweep(&mut registry, &[&a]);
    let generation = live_generation(&registry, &a.id());
    registry.record(&a.id(), generation, Some(reading_discharging(80)), test_now());
    sysfs_sweep(&mut registry, &[]);

    registry.record(&a.id(), generation, Some(reading_discharging(79)), test_now());

    assert_eq!(registry.snapshot()[0].presence, Presence::Disconnected);
}

#[test]
fn reassigned_node_ends_the_task_and_disconnects_the_device() {
    let a = device("a");
    let mut registry = with_online_device(&a);

    let mut failures: u32 = 0;
    let step = take_poll(Err(PollFailure::NodeReassigned), &mut failures);
    assert_eq!(step.event, SourceEvent::NodeReassigned);
    assert!(step.ends);
    let generation = live_generation(&registry, &a.id());
    assert!(registry.retire(&a.id(), generation));

    assert_eq!(registry.live_generation(&a.id()), None);
    let snapshot = registry.snapshot();
    assert_eq!(snapshot[0].presence, Presence::Disconnected);
    assert_eq!(snapshot[0].last_reading, Some(reading_discharging(80)));
}

/// The task keeps polling: access can be granted without the device leaving.
#[test]
fn access_denied_is_reported_as_its_own_event_and_the_task_keeps_running() {
    let mut registry = DeviceRegistry::new();
    let a = device("a");
    sysfs_sweep(&mut registry, &[&a]);
    let generation = live_generation(&registry, &a.id());

    let mut failures: u32 = 0;
    let step = take_poll(Err(PollFailure::AccessDenied), &mut failures);
    assert_eq!(step.event, SourceEvent::AccessDenied);
    assert!(!step.ends);
    let followup = registry.take_report(&a.id(), generation, step.event, test_now());
    assert_eq!(followup, Followup::Nothing);

    assert_eq!(registry.snapshot()[0].presence, Presence::NoAccess);
    assert_eq!(registry.live_generation(&a.id()), Some(generation));
}

#[test]
fn access_denial_shows_at_once_and_a_reading_clears_it() {
    let a = device("a");
    let mut registry = with_online_device(&a);

    let generation = live_generation(&registry, &a.id());
    registry.deny(&a.id(), generation);
    let snapshot = registry.snapshot();
    assert_eq!(snapshot[0].presence, Presence::NoAccess);
    assert_eq!(snapshot[0].last_reading, Some(reading_discharging(80)));

    record_live(&mut registry, &a.id(), Some(reading_discharging(79)));
    assert_eq!(registry.snapshot()[0].presence, Presence::Online);
}

#[test]
fn a_silent_poll_after_access_is_granted_reads_unreachable_not_no_access() {
    let mut registry = DeviceRegistry::new();
    let a = device("a");
    sysfs_sweep(&mut registry, &[&a]);

    let generation = live_generation(&registry, &a.id());
    registry.deny(&a.id(), generation);
    record_live(&mut registry, &a.id(), None);

    assert_eq!(registry.snapshot()[0].presence, Presence::Unreachable);
}

#[test]
fn access_denial_from_a_stale_generation_is_ignored() {
    let a = device("a");
    let mut registry = with_online_device(&a);
    let stale = live_generation(&registry, &a.id());
    // The task ended and was started again.
    let r = registry.reconcile(
        &[found("sysfs", &a)],
        &["sysfs"],
        &[stale],
        test_now(),
        NOW_UNIX,
        test_now(),
    );
    assert_eq!(r.actions.len(), 1);
    record_live(&mut registry, &a.id(), Some(reading_discharging(80)));

    registry.deny(&a.id(), stale);

    assert_eq!(registry.snapshot()[0].presence, Presence::Online);
}

#[test]
fn retire_from_a_stale_generation_keeps_the_live_task() {
    let mut registry = DeviceRegistry::new();
    let a = device("a");

    sysfs_sweep(&mut registry, &[&a]);
    let first = live_generation(&registry, &a.id());
    sysfs_sweep(&mut registry, &[]);
    sysfs_sweep(&mut registry, &[&a]);
    let second = live_generation(&registry, &a.id());
    registry.record(&a.id(), second, Some(reading_discharging(80)), test_now());

    assert!(!registry.retire(&a.id(), first));
    assert_eq!(live_generation(&registry, &a.id()), second);
    assert_eq!(registry.snapshot()[0].presence, Presence::Online);

    assert!(registry.retire(&a.id(), second));
    assert_eq!(registry.live_generation(&a.id()), None);

    // The next sweep that finds the device spawns afresh, not via the crash path.
    sysfs_sweep(&mut registry, &[&a]);
    assert!(live_generation(&registry, &a.id()) > second);
    assert_eq!(registry.snapshot()[0].presence, Presence::Disconnected);
}

#[test]
fn registry_record_then_snapshot_preserves_discovery_order() {
    let mut registry = DeviceRegistry::new();
    let a = device("a");
    let b = device("b");
    sysfs_sweep(&mut registry, &[&a, &b]);

    record_live(&mut registry, &a.id(), Some(reading_discharging(10)));
    record_live(&mut registry, &b.id(), Some(reading_discharging(20)));

    let snapshot = registry.snapshot();
    assert_eq!(snapshot.len(), 2);
    assert_eq!(snapshot[0].info.name, "a");
    assert_eq!(snapshot[0].last_reading, Some(reading_discharging(10)));
    assert_eq!(snapshot[0].presence, Presence::Online);
    assert_eq!(snapshot[1].info.name, "b");
    assert_eq!(snapshot[1].last_reading, Some(reading_discharging(20)));
    assert_eq!(registry.names(), ["a", "b"]);
}

#[test]
fn registry_ignores_reading_for_unregistered_id() {
    let mut registry = DeviceRegistry::new();
    let ghost = device("ghost");

    record_live(&mut registry, &ghost.id(), Some(reading_discharging(99)));

    assert!(registry.snapshot().is_empty());
}

#[test]
fn one_failed_poll_keeps_online_and_reading() {
    let a = device("a");
    let mut registry = with_online_device(&a);

    record_live(&mut registry, &a.id(), None);

    let snapshot = registry.snapshot();
    assert_eq!(snapshot[0].presence, Presence::Online);
    assert_eq!(snapshot[0].last_reading, Some(reading_discharging(80)));
}

#[test]
fn offline_after_failures_flips_to_unreachable() {
    let a = device("a");
    let mut registry = with_online_device(&a);

    for _ in 0..OFFLINE_AFTER_FAILURES {
        record_live(&mut registry, &a.id(), None);
    }

    let snapshot = registry.snapshot();
    assert_eq!(snapshot[0].presence, Presence::Unreachable);
    // The reading stays retained even once Unreachable.
    assert_eq!(snapshot[0].last_reading, Some(reading_discharging(80)));
}

#[test]
fn success_after_failures_resets_counter_and_online() {
    let a = device("a");
    // Never read; and read before it left and came back.
    let mut fresh = DeviceRegistry::new();
    sysfs_sweep(&mut fresh, &[&a]);
    let mut returned = with_online_device(&a);
    sysfs_sweep(&mut returned, &[]);
    sysfs_sweep(&mut returned, &[&a]);

    for mut registry in [fresh, returned] {
        for _ in 0..OFFLINE_AFTER_FAILURES - 1 {
            record_live(&mut registry, &a.id(), None);
        }
        assert_ne!(registry.snapshot()[0].presence, Presence::Online);

        record_live(&mut registry, &a.id(), Some(reading_discharging(75)));
        assert_eq!(registry.snapshot()[0].presence, Presence::Online);

        // Counter was reset to zero — it takes all the failures again to trip
        // Unreachable, not a single one.
        for _ in 0..OFFLINE_AFTER_FAILURES - 1 {
            record_live(&mut registry, &a.id(), None);
            assert_eq!(registry.snapshot()[0].presence, Presence::Online);
        }
        record_live(&mut registry, &a.id(), None);
        assert_eq!(registry.snapshot()[0].presence, Presence::Unreachable);
    }
}

#[test]
fn vanished_device_becomes_disconnected_keeps_reading_and_aborts_task() {
    let a = device("a");
    let mut registry = with_online_device(&a);
    let generation = live_generation(&registry, &a.id());
    assert!(registry.is_live(&a.id(), generation));

    // Next discovery sweep succeeds but no longer sees the device.
    let r = sysfs_sweep(&mut registry, &[]);

    assert_eq!(r.actions, [TaskAction::Abort { generation }]);
    assert_eq!(registry.live_generation(&a.id()), None);
    let snapshot = registry.snapshot();
    assert_eq!(snapshot.len(), 1);
    assert_eq!(snapshot[0].presence, Presence::Disconnected);
    assert_eq!(snapshot[0].last_reading, Some(reading_discharging(80)));
    assert!(snapshot[0].last_seen.is_some());
}

/// A task that panics ends without ever reporting, so a stale `Online` reading
/// from before the crash must not survive the sweep that notices it ended.
#[test]
fn crashed_task_is_demoted_and_respawned() {
    let a = device("a");
    let mut registry = with_online_device(&a);
    let crashed = live_generation(&registry, &a.id());
    assert_eq!(registry.snapshot()[0].presence, Presence::Online);

    // Next sweep still sees the device, with a fresh replacement source.
    let r = registry.reconcile(
        &[found("sysfs", &a)],
        &["sysfs"],
        &[crashed],
        test_now(),
        NOW_UNIX,
        test_now(),
    );

    let snapshot = registry.snapshot();
    assert_eq!(snapshot[0].presence, Presence::Unreachable);
    assert_eq!(snapshot[0].last_reading, Some(reading_discharging(80)));

    let generation = live_generation(&registry, &a.id());
    assert_ne!(generation, crashed);
    assert_eq!(r.actions, [TaskAction::Spawn { found: 0, generation }]);
    registry.record(&a.id(), generation, Some(reading_discharging(55)), test_now());

    let snapshot = registry.snapshot();
    assert_eq!(snapshot[0].presence, Presence::Online);
    assert_eq!(snapshot[0].last_reading, Some(reading_discharging(55)));
}

/// A device that legitimately vanishes from discovery is aborted, not
/// mistaken for a crash.
#[test]
fn vanished_device_is_not_reported_as_crashed() {
    let a = device("a");
    let mut registry = with_online_device(&a);

    sysfs_sweep(&mut registry, &[]);

    assert_eq!(registry.live_generation(&a.id()), None);
    assert_eq!(registry.snapshot()[0].presence, Presence::Disconnected);
}

#[test]
fn disconnected_without_a_reading_is_dropped_immediately() {
    let mut registry = DeviceRegistry::new();
    let a = device("a");

    // Never polled successfully before it vanishes — nothing to retain.
    sysfs_sweep(&mut registry, &[&a]);
    assert_eq!(registry.snapshot().len(), 1);
    sysfs_sweep(&mut registry, &[]);

    assert!(registry.snapshot().is_empty());
}

#[test]
fn reappeared_device_reuses_entry_and_returns_online() {
    let a = device("a");
    let mut registry = with_online_device(&a);
    sysfs_sweep(&mut registry, &[]);
    assert_eq!(registry.snapshot()[0].presence, Presence::Disconnected);

    sysfs_sweep(&mut registry, &[&a]);
    assert!(registry.live_generation(&a.id()).is_some());
    assert_eq!(registry.snapshot().len(), 1);
    record_live(&mut registry, &a.id(), Some(reading_discharging(60)));

    let snapshot = registry.snapshot();
    assert_eq!(snapshot.len(), 1);
    assert_eq!(snapshot[0].presence, Presence::Online);
    assert_eq!(snapshot[0].last_reading, Some(reading_discharging(60)));
}

#[test]
fn failed_backend_sweep_does_not_retire_its_devices() {
    let a = device("a");
    let mut registry = with_online_device(&a);
    let generation = live_generation(&registry, &a.id());

    let r = sweep(&mut registry, &[], &[]);

    assert!(r.actions.is_empty());
    assert_eq!(registry.live_generation(&a.id()), Some(generation));
    let snapshot = registry.snapshot();
    assert_eq!(snapshot.len(), 1);
    assert_eq!(snapshot[0].presence, Presence::Online);
    assert_eq!(snapshot[0].last_reading, Some(reading_discharging(80)));
}

#[test]
fn succeeded_backend_sweep_still_retires_its_devices() {
    let a = device("a");
    let mut registry = with_online_device(&a);

    sweep(&mut registry, &[], &["sysfs"]);

    assert_eq!(registry.live_generation(&a.id()), None);
    assert_eq!(registry.snapshot()[0].presence, Presence::Disconnected);
}

/// Two backends share `Transport::Hidraw`; a failure of one says nothing about
/// the devices of the other.
#[test]
fn backend_ownership_does_not_collapse_across_shared_transport() {
    let mut registry = DeviceRegistry::new();
    let mouse = DeviceInfo {
        transport: Transport::Hidraw,
        ..device("aerox")
    };
    let controller = DeviceInfo {
        transport: Transport::Hidraw,
        ..device("ultimate")
    };
    sweep(
        &mut registry,
        &[found("steelseries", &mouse), found("eightbitdo", &controller)],
        &["steelseries", "eightbitdo"],
    );
    record_live(&mut registry, &mouse.id(), Some(reading_discharging(80)));
    record_live(&mut registry, &controller.id(), Some(reading_discharging(60)));

    // steelseries failed, eightbitdo found nothing.
    sweep(&mut registry, &[], &["eightbitdo"]);

    assert!(registry.live_generation(&mouse.id()).is_some());
    assert_eq!(registry.live_generation(&controller.id()), None);
}

#[test]
fn disconnected_entry_older_than_cap_is_pruned() {
    let a = device("a");
    let mut registry = with_online_device(&a);
    let last_seen = test_now();
    sysfs_sweep(&mut registry, &[]);
    assert_eq!(registry.snapshot()[0].presence, Presence::Disconnected);

    // Still within the cap.
    let retention = Duration::from_secs(DISCONNECTED_RETENTION_SECS);
    assert!(registry.prune_stale(last_seen + retention).is_empty());
    assert_eq!(registry.snapshot().len(), 1);

    // Past the cap.
    registry.prune_stale(last_seen + retention + Duration::from_secs(1));
    assert!(registry.snapshot().is_empty());
}

#[test]
fn reconcile_reports_a_rename_instead_of_adding_a_row() {
    let mut registry = DeviceRegistry::new();
    let before = DeviceInfo {
        name: "MX Anywhere 3".to_owned(),
        kind: DeviceKind::Mouse,
        transport: Transport::Sysfs,
        locator: Some("00:00:5e:00:53:01".to_owned()),
    };
    let after = DeviceInfo {
        name: "Work mouse".to_owned(),
        ..before.clone()
    };

    let first = Found {
        seen: Some(Seen::New),
        ..found("sysfs", &before)
    };
    let r = sweep(&mut registry, &[first], &["sysfs"]);
    assert!(r.renames.is_empty());

    let second = Found {
        seen: Some(Seen::Renamed {
            from: "MX Anywhere 3".to_owned(),
        }),
        ..found("sysfs", &after)
    };
    let r = sweep(&mut registry, &[second], &["sysfs"]);
    assert_eq!(
        r.renames,
        vec![("MX Anywhere 3".to_string(), "Work mouse".to_string())]
    );

    // The live roster must not keep the old name around as a Disconnected
    // duplicate: the tray would show one device twice for a day.
    let roster = registry.snapshot();
    assert_eq!(roster.len(), 1);
    assert_eq!(roster[0].info.name, "Work mouse");
}

#[test]
fn record_writes_reading_to_store_when_present() {
    let mut registry = DeviceRegistry::new();
    let a = device("a");
    sysfs_sweep(&mut registry, &[&a]);
    let generation = live_generation(&registry, &a.id());

    let r = reading_discharging(80);
    let event = SourceEvent::Polled(Some(r));
    assert_eq!(
        registry.take_report(&a.id(), generation, event, test_now()),
        Followup::Store(r)
    );
    assert_eq!(
        registry.take_report(&a.id(), generation, SourceEvent::Polled(None), test_now()),
        Followup::Nothing
    );
    assert_eq!(
        registry.take_report(&a.id(), generation + 1, event, test_now()),
        Followup::Nothing
    );
    assert_eq!(
        registry.take_report(&a.id(), generation, SourceEvent::NodeReassigned, test_now()),
        Followup::Abort
    );
}

/// A device discovered for the first time in a fresh process still finds the
/// change points a previous run stored for it, so the estimate does not start
/// from zero.
#[test]
fn newly_discovered_device_seeds_history_from_store() {
    let rows = vec![
        (NOW_UNIX - 600, 77),
        (NOW_UNIX - 4200, 78),
        (NOW_UNIX - 7800, 79),
        (NOW_UNIX - 11400, 80),
    ];
    let history = seed_history(&rows, test_now(), NOW_UNIX);
    let percents: Vec<u8> = history.iter().map(|&(_, p)| p).collect();
    assert_eq!(percents, vec![80, 79, 78, 77]);

    let mut registry = DeviceRegistry::new();
    let a = device("a");
    let known = Found {
        seen: Some(Seen::Known),
        rows,
        ..found("sysfs", &a)
    };
    sweep(&mut registry, &[known], &["sysfs"]);
    record_live(&mut registry, &a.id(), Some(reading_discharging(77)));
    // 1% an hour.
    assert_eq!(
        registry.snapshot()[0].estimate,
        Estimate::Remaining(Duration::from_secs(77 * 3600))
    );
}

#[test]
fn push_history_point_dedups_and_caps_like_live_polling() {
    let base = test_now();
    let mut history = Vec::new();
    push_history_point(&mut history, base, 80);
    push_history_point(&mut history, base, 80); // duplicate, dropped
    push_history_point(&mut history, base, 79);
    assert_eq!(history, vec![(base, 80), (base, 79)]);

    // An increase clears everything recorded before it.
    push_history_point(&mut history, base, 90);
    assert_eq!(history, vec![(base, 90)]);
}

#[test]
fn a_full_history_loses_its_oldest_point() {
    let base = test_now();
    let mut history = Vec::new();
    for percent in (60..=90u8).rev() {
        push_history_point(&mut history, base, percent);
        assert!(history.len() <= HISTORY_CAP);
    }
    assert_eq!(history.len(), HISTORY_CAP);
    assert_eq!(history[0].1, 79);
    assert_eq!(history[HISTORY_CAP - 1].1, 60);
}

/// A silent device's polls and every later sweep change nothing a surface
/// shows, so none of them wakes a receiver.
#[test]
fn unchanged_state_is_not_republished() {
    let mut registry = DeviceRegistry::new();
    let mouse = device("mouse");
    let mut current = TrayState {
        devices: Vec::new(),
    };
    sysfs_sweep(&mut registry, &[&mouse]);
    assert!(publish(&mut current, registry.snapshot()));
    for _ in 0..4 {
        record_live(&mut registry, &mouse.id(), None);
        sysfs_sweep(&mut registry, &[&mouse]);
        assert!(!publish(&mut current, registry.snapshot()));
    }
    assert_eq!(current.devices.len(), 1);
    record_live(&mut registry, &mouse.id(), Some(reading_discharging(80)));
    assert!(publish(&mut current, registry.snapshot()));
    assert_eq!(current.devices[0].last_reading, Some(reading_discharging(80)));
}

#[test]
fn only_the_first_failure_in_a_row_is_reported() {
    let mut failures: u32 = 0;
    let first = take_poll(Err(PollFailure::Other), &mut failures);
    assert_eq!(first.event, SourceEvent::Polled(None));
    assert!(first.warns && !first.ends);
    assert!(!take_poll(Err(PollFailure::Other), &mut failures).warns);
    let r = reading_discharging(50);
    let ok = take_poll(Ok(r), &mut failures);
    assert_eq!(ok.event, SourceEvent::Polled(Some(r)));
    assert_eq!(failures, 0);
    assert!(take_poll(Err(PollFailure::Other), &mut failures).warns);
}

/// Only the process that owns the config file may convert or save it.
#[test]
fn a_reader_never_touches_the_config() {
    let listed = Config {
        shown_devices: vec!["a".to_string()],
        ..Config::default()
    };
    let read = config_to_convert(ConfigRole::Reader, listed.clone());
    assert!(read.shown_devices.is_empty());
    assert_eq!(config_to_convert(ConfigRole::Owner, listed.clone()), listed);
    assert!(may_save(ConfigRole::Owner));
    assert!(!may_save(ConfigRole::Reader));
}
