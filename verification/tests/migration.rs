use rigbat::app::migration::{
    converted, migrate_shown_devices, migrate_shown_devices_once, moved_names, Conversion,
    Migration, MigrationStep, MIGRATION_MAX_SWEEPS,
};
use rigbat::config::Config;

fn owned(names: &[&str]) -> Vec<String> {
    names.iter().map(|s| (*s).to_string()).collect()
}

fn ready(cfg: &Config, discovered: &[&str]) -> (Config, Vec<String>) {
    match migrate_shown_devices(cfg, &owned(discovered)) {
        Migration::Ready(migrated, moved) => Some((*migrated, moved)),
        _ => None,
    }
    .expect("expected Migration::Ready")
}

#[test]
fn migrate_shown_devices_converts_absent_names_to_hidden() {
    let cfg = Config {
        shown_devices: vec!["a".to_string()],
        ..Config::default()
    };
    let (migrated, moved) = ready(&cfg, &["a", "b"]);
    assert_eq!(migrated.hidden_devices, vec!["b".to_string()]);
    assert!(migrated.shown_devices.is_empty());
    assert_eq!(moved, vec!["b".to_string()]);
}

#[test]
fn migrate_shown_devices_empty_shown_is_noop() {
    let cfg = Config::default();
    assert_eq!(
        migrate_shown_devices(&cfg, &["a".to_string(), "b".to_string()]),
        Migration::NotNeeded
    );
}

/// A sweep taken before Bluetooth peripherals enumerate sees a partial
/// roster. Converting then would clear the whitelist while finding
/// nothing to hide, and a cleared whitelist is what stops the conversion
/// running again — so the loss would be permanent.
#[test]
fn migrate_shown_devices_defers_while_a_listed_device_is_unseen() {
    let cfg = Config {
        shown_devices: vec!["mouse".to_string(), "keyboard".to_string()],
        ..Config::default()
    };
    assert_eq!(
        migrate_shown_devices(&cfg, &["mouse".to_string()]),
        Migration::Defer {
            missing: vec!["keyboard".to_string()]
        }
    );
}

#[test]
fn migrate_shown_devices_ready_once_every_listed_device_is_seen() {
    let cfg = Config {
        shown_devices: vec!["mouse".to_string(), "keyboard".to_string()],
        ..Config::default()
    };
    let (migrated, moved) = ready(&cfg, &["mouse", "keyboard", "dupe"]);
    assert_eq!(migrated.hidden_devices, vec!["dupe".to_string()]);
    assert_eq!(moved, vec!["dupe".to_string()]);
}

/// The deadline path: `converted` is what the caller falls back to once
/// `MIGRATION_MAX_SWEEPS` sweeps have passed without a complete roster.
#[test]
fn converted_hides_only_what_was_actually_seen() {
    let cfg = Config {
        shown_devices: vec!["mouse".to_string(), "sold-headset".to_string()],
        ..Config::default()
    };
    let migrated = converted(&cfg, &["mouse".to_string(), "dupe".to_string()]);
    assert_eq!(migrated.hidden_devices, vec!["dupe".to_string()]);
    assert!(migrated.shown_devices.is_empty());
}

/// The "runs once" guarantee: the already-converted config has an empty
/// whitelist, so a later sweep with a larger roster cannot hide a device
/// retroactively.
#[test]
fn migrate_shown_devices_second_call_with_larger_roster_adds_nothing() {
    let cfg = Config {
        shown_devices: vec!["a".to_string()],
        ..Config::default()
    };
    let (migrated, _) = ready(&cfg, &["a"]);
    assert!(migrated.hidden_devices.is_empty());

    assert_eq!(
        migrate_shown_devices(&migrated, &["a".to_string(), "b".to_string()]),
        Migration::NotNeeded
    );
}

#[test]
fn migrate_shown_devices_unions_existing_hidden_devices() {
    let cfg = Config {
        shown_devices: vec!["a".to_string()],
        hidden_devices: vec!["headset".to_string()],
        ..Config::default()
    };
    let (migrated, moved) = ready(&cfg, &["a", "b"]);
    assert_eq!(
        migrated.hidden_devices,
        vec!["headset".to_string(), "b".to_string()]
    );
    assert_eq!(moved, vec!["b".to_string()]);
}

#[test]
fn a_hidden_name_is_not_hidden_twice() {
    let cfg = Config {
        shown_devices: vec!["a".to_string()],
        hidden_devices: vec!["b".to_string()],
        ..Config::default()
    };
    assert_eq!(moved_names(&cfg, &owned(&["a", "b", "c"])), owned(&["c"]));
}

/// At the deadline the conversion runs with what was seen.
#[test]
fn a_device_that_never_comes_back_does_not_hold_up_the_conversion() {
    let cfg = Config {
        shown_devices: owned(&["mouse", "sold-headset"]),
        ..Config::default()
    };
    let seen = owned(&["mouse", "dupe"]);
    let mut conversion = Conversion::new();
    for _ in 0..MIGRATION_MAX_SWEEPS {
        assert!(matches!(
            conversion.after_sweep(&cfg, &seen),
            MigrationStep::Wait
        ));
    }
    let step = conversion.after_sweep(&cfg, &seen);
    let MigrationStep::Save(saved, hidden) = step else {
        panic!("the deadline passed without a conversion");
    };
    assert_eq!(saved.hidden_devices, owned(&["dupe"]));
    assert_eq!(hidden, owned(&["dupe"]));

    // A failed save is tried again; a saved conversion is over for good.
    assert!(!conversion.done);
    conversion.saved();
    let later = conversion.after_sweep(&cfg, &owned(&["mouse", "sold-headset", "new"]));
    assert!(matches!(later, MigrationStep::Done));
}

#[test]
fn a_config_without_a_whitelist_is_done_at_once() {
    assert!(matches!(
        migrate_shown_devices_once(&Config::default(), &owned(&["a"]), 0),
        MigrationStep::Done
    ));
}
