use rigbat::config::files::{event_touches, is_content_change, unique_tmp_path, FileEvent};
use rigbat::config::overrides::{DeviceSettings, Overrides};
use rigbat::config::{
    apply_renames, rename_device, settled, Config, DEFAULT_LOW_THRESHOLD, DEFAULT_POLL_INTERVAL_SECS,
};
use rigbat::domain::display::{DisplayMode, Palette, TrayMode};
use rigbat::i18n::Lang;

#[test]
fn rename_device_moves_every_per_device_setting() {
    let mut cfg = Config {
        hidden_devices: vec!["old".to_string(), "other".to_string()],
        primary_device: Some("old".to_string()),
        ..Config::default()
    };
    cfg.device_overrides.insert(
        "old".to_string(),
        DeviceSettings {
            low_threshold: Some(35),
            poll_interval_secs: None,
        },
    );

    assert!(rename_device(&mut cfg, "old", "new"));
    assert_eq!(
        cfg.hidden_devices,
        vec!["new".to_string(), "other".to_string()]
    );
    assert_eq!(cfg.primary_device, Some("new".to_string()));
    assert!(!cfg.device_overrides.contains_key("old"));
    assert_eq!(
        cfg.device_overrides
            .get("new")
            .and_then(|d| d.low_threshold),
        Some(35)
    );
}

#[test]
fn rename_device_does_not_duplicate_a_non_adjacent_hidden_entry() {
    let mut cfg = Config {
        hidden_devices: vec!["old".to_string(), "other".to_string(), "new".to_string()],
        ..Config::default()
    };

    assert!(rename_device(&mut cfg, "old", "new"));
    assert_eq!(
        cfg.hidden_devices,
        vec!["new".to_string(), "other".to_string()]
    );
}

#[test]
fn rename_device_reports_no_change_when_the_name_is_unknown() {
    let mut cfg = Config {
        hidden_devices: vec!["other".to_string()],
        ..Config::default()
    };

    assert!(!rename_device(&mut cfg, "old", "new"));
    assert_eq!(cfg.hidden_devices, vec!["other".to_string()]);
}

/// A device hidden under both names — possible if it was seen under the
/// new name before the rename was noticed — must end up hidden once.
#[test]
fn rename_device_does_not_duplicate_a_hidden_entry() {
    let mut cfg = Config {
        hidden_devices: vec!["old".to_string(), "new".to_string()],
        ..Config::default()
    };

    assert!(rename_device(&mut cfg, "old", "new"));
    assert_eq!(cfg.hidden_devices, vec!["new".to_string()]);
}

#[test]
fn default_config() {
    let cfg = Config::default();
    assert_eq!(cfg.display_mode, DisplayMode::IconOnly);
    assert!(cfg.hidden_devices.is_empty());
}

#[test]
fn a_config_without_a_file_has_the_documented_defaults() {
    let cfg = Config::default();
    assert_eq!(cfg.tray_mode, TrayMode::PrimaryOnly);
    assert!(cfg.notifications_enabled);
    assert_eq!(cfg.primary_device, None);
    assert_eq!(cfg.palette, Palette::Catppuccin);
    assert_eq!(cfg.language, None);
    assert_eq!(cfg.poll_interval_secs, 60);
    assert_eq!(cfg.low_threshold, 20);
    assert!(cfg.device_overrides.is_empty());
}

#[test]
fn is_shown_empty_hidden_devices_allows_all() {
    let cfg = Config::default();
    assert!(cfg.is_shown("mouse"));
    assert!(cfg.is_shown("keyboard"));
    assert!(cfg.is_shown("anything"));
}

#[test]
fn is_shown_hides_only_the_named_device() {
    let cfg = Config {
        display_mode: DisplayMode::IconOnly,
        hidden_devices: vec!["mouse".to_string()],
        notifications_enabled: true,
        tray_mode: TrayMode::PrimaryOnly,
        primary_device: None,
        ..Config::default()
    };
    assert!(!cfg.is_shown("mouse"));
    assert!(cfg.is_shown("keyboard"));
    // Never mentioned in hidden_devices — shown by default, including a
    // name that is not currently discovered.
    assert!(cfg.is_shown("headset"));
}

#[test]
fn a_language_unknown_to_this_build_follows_the_session() {
    let cfg = Config {
        language: Some("ru".to_string()),
        ..Config::default()
    };
    assert_eq!(cfg.lang(Lang::En), Lang::Ru);
    let newer = Config {
        language: Some("de".to_string()),
        ..Config::default()
    };
    assert_eq!(newer.lang(Lang::Ru), Lang::Ru);
    assert_eq!(Config::default().lang(Lang::Ru), Lang::Ru);
}

#[test]
fn unique_tmp_path_differs_between_processes() {
    let path = "/tmp/rigbat-test/config.json";
    assert_ne!(unique_tmp_path(path, 111, 0), unique_tmp_path(path, 222, 0));
}

#[test]
fn unique_tmp_path_differs_within_same_process() {
    let path = "/tmp/rigbat-test/config.json";
    assert_ne!(unique_tmp_path(path, 111, 0), unique_tmp_path(path, 111, 1));
    assert_eq!(
        unique_tmp_path(path, 111, 1),
        "/tmp/rigbat-test/config.json.111-1.tmp"
    );
}

/// The same as `Path::with_extension` gives.
#[test]
fn unique_tmp_path_replaces_the_extension_like_path_does() {
    for path in [
        "/home/u/.config/rigbat/config.json",
        "config.json",
        "config",
        "a.b/config",
        ".hidden",
        "dir/.hidden",
        "dir/.hidden.json",
        "dir/..x",
        "dir/a..",
        "dir/a.b/",
        "dir//a.b//",
        "dir/a.b/.",
        "dir/a.b/./",
        "a//.",
        "",
        "/",
        "/.",
        ".",
        "./",
        "..",
        "dir/..",
        "dir/../",
        "конфиг.json",
    ] {
        let expected = std::path::Path::new(path).with_extension("json.7-9.tmp");
        assert_eq!(
            unique_tmp_path(path, 7, 9),
            expected.to_str().expect("UTF-8"),
            "{path:?}"
        );
    }
}

#[test]
fn is_content_change_access_read_is_false() {
    assert!(!is_content_change(FileEvent::Access));
}

#[test]
fn is_content_change_access_open_is_false() {
    assert!(!is_content_change(FileEvent::Access));
}

#[test]
fn is_content_change_modify_data_is_true() {
    assert!(is_content_change(FileEvent::Data));
}

#[test]
fn is_content_change_modify_name_to_is_true() {
    assert!(is_content_change(FileEvent::Name));
}

#[test]
fn is_content_change_create_file_is_true() {
    assert!(is_content_change(FileEvent::Create));
}

#[test]
fn is_content_change_modify_metadata_is_false() {
    assert!(!is_content_change(FileEvent::Metadata));
}

const CONFIG: &str = "/home/user/.config/rigbat/config.json";

#[test]
fn event_touches_matching_filename() {
    assert!(event_touches(&[CONFIG.to_owned()], CONFIG));
}

#[test]
fn event_touches_non_matching_filename() {
    let other = "/home/user/.config/rigbat/other.json".to_owned();
    assert!(!event_touches(&[other], CONFIG));
}

#[test]
fn event_touches_tmp_file_excluded() {
    let tmp = "/home/user/.config/rigbat/config.json.tmp".to_owned();
    assert!(!event_touches(&[tmp], CONFIG));
}

/// The name is what the platform's own path type takes it for.
#[test]
fn event_touches_compares_file_names() {
    let paths = [
        "", "/", ".", "..", "a", "a/", "a/.", "a/./", "a//", "./a", "/a", "b/a", "a/..", "../a",
        "a/b", ".a", "...", "a.", "/./", "b/./a/.", "a/../", "é/ü",
    ];
    for path in paths {
        for target in paths {
            let same = std::path::Path::new(path).file_name()
                == std::path::Path::new(target).file_name();
            assert_eq!(
                event_touches(&[path.to_owned()], target),
                same,
                "{path:?} {target:?}"
            );
        }
    }
    assert!(!event_touches(&[], CONFIG));
    assert!(event_touches(&["x".to_owned(), CONFIG.to_owned()], CONFIG));
}

#[test]
fn effective_poll_interval_secs_global_default_when_no_override() {
    let cfg = Config::default();
    assert_eq!(
        cfg.effective_poll_interval_secs("mouse"),
        DEFAULT_POLL_INTERVAL_SECS
    );
}

#[test]
fn effective_poll_interval_secs_override_wins() {
    let mut cfg = Config::default();
    cfg.device_overrides.insert(
        "mouse".to_string(),
        DeviceSettings {
            poll_interval_secs: Some(30),
            low_threshold: None,
        },
    );
    assert_eq!(cfg.effective_poll_interval_secs("mouse"), 30);
    // Other devices still use global.
    assert_eq!(
        cfg.effective_poll_interval_secs("keyboard"),
        DEFAULT_POLL_INTERVAL_SECS
    );
}

#[test]
fn effective_poll_interval_secs_zero_clamped_to_one() {
    let mut cfg = Config::default();
    cfg.device_overrides.insert(
        "mouse".to_string(),
        DeviceSettings {
            poll_interval_secs: Some(0),
            low_threshold: None,
        },
    );
    assert_eq!(cfg.effective_poll_interval_secs("mouse"), 1);
}

#[test]
fn effective_poll_interval_secs_global_zero_clamped_to_one() {
    let cfg = Config {
        poll_interval_secs: 0,
        ..Config::default()
    };
    assert_eq!(cfg.effective_poll_interval_secs("mouse"), 1);
}

#[test]
fn effective_low_threshold_global_default_when_no_override() {
    let cfg = Config::default();
    assert_eq!(cfg.effective_low_threshold("mouse"), DEFAULT_LOW_THRESHOLD);
}

#[test]
fn effective_low_threshold_override_wins() {
    let mut cfg = Config::default();
    cfg.device_overrides.insert(
        "mouse".to_string(),
        DeviceSettings {
            poll_interval_secs: None,
            low_threshold: Some(10),
        },
    );
    assert_eq!(cfg.effective_low_threshold("mouse"), 10);
    assert_eq!(
        cfg.effective_low_threshold("keyboard"),
        DEFAULT_LOW_THRESHOLD
    );
}

/// A hand-edited config.json can carry any `u8`; above 100 every
/// discharging device would classify as low forever.
#[test]
fn effective_low_threshold_clamps_above_full_charge() {
    let mut overrides = Overrides::new();
    overrides.insert(
        "mouse".to_string(),
        DeviceSettings {
            poll_interval_secs: None,
            low_threshold: Some(255),
        },
    );
    let cfg = Config {
        low_threshold: 250,
        device_overrides: overrides,
        ..Config::default()
    };
    assert_eq!(cfg.effective_low_threshold("mouse"), 100);
    assert_eq!(cfg.effective_low_threshold("keyboard"), 100);
}

/// The config half of a rename: the settings keyed by the old name move to
/// the new one, and nothing is saved when none was.
#[test]
fn apply_renames_moves_settings_and_republishes() {
    let on_disk = Config {
        hidden_devices: vec!["MX Anywhere 3".to_string()],
        primary_device: Some("MX Anywhere 3".to_string()),
        ..Config::default()
    };
    let renames = [("MX Anywhere 3".to_string(), "Work mouse".to_string())];

    let published = apply_renames(&on_disk, &renames).expect("something to save");
    assert_eq!(published.hidden_devices, vec!["Work mouse".to_string()]);
    assert_eq!(published.primary_device, Some("Work mouse".to_string()));

    assert_eq!(apply_renames(&published, &renames), None);
    assert_eq!(apply_renames(&on_disk, &[]), None);
}

#[test]
fn overrides_are_a_map_by_name() {
    let settings = |n| DeviceSettings {
        poll_interval_secs: Some(n),
        low_threshold: None,
    };
    let mut o = Overrides::new();
    assert!(o.is_empty());
    for (name, n) in [("b", 2), ("a", 1), ("c", 3), ("b", 20)] {
        o.insert(name.to_string(), settings(n));
    }
    assert_eq!(o.len(), 3);
    assert_eq!(o.get("b"), Some(settings(20)));
    assert_eq!(o.nth(0), Some(("a", settings(1))));
    assert_eq!(o.nth(3), None);
    assert_eq!(o.remove("a"), Some(settings(1)));
    assert_eq!(o.remove("a"), None);
    assert!(!o.contains_key("a"));
    assert_eq!(o.clone(), o);
}

/// Walking by index gives every override once, in the order of the names.
#[test]
fn every_override_is_walked_once() {
    let mut o = Overrides::new();
    for (i, name) in ["d", "a", "c", "b", "é", ""].into_iter().enumerate() {
        o.insert(
            name.to_owned(),
            DeviceSettings {
                poll_interval_secs: Some(i as u64),
                low_threshold: None,
            },
        );
    }
    let walked: Vec<(&str, Option<u64>)> = (0..o.len())
        .map(|i| o.nth(i).expect("an override"))
        .map(|(name, settings)| (name, settings.poll_interval_secs))
        .collect();
    assert_eq!(
        walked,
        [
            ("", Some(5)),
            ("a", Some(1)),
            ("b", Some(3)),
            ("c", Some(2)),
            ("d", Some(0)),
            ("é", Some(4)),
        ]
    );
    assert_eq!(o.nth(o.len()), None);
}

#[test]
fn an_absent_or_broken_config_file_means_the_defaults() {
    let stored = Config {
        low_threshold: 35,
        ..Config::default()
    };
    assert_eq!(settled::<&str>(Ok(Some(stored.clone()))), stored);
    assert_eq!(settled::<&str>(Ok(None)), Config::default());
    assert_eq!(settled(Err("config parse error")), Config::default());
}

#[test]
fn a_reload_of_the_same_config_wakes_no_one() {
    let mut cfg = Config {
        hidden_devices: vec!["mouse".to_string()],
        ..Config::default()
    };
    let mut other = cfg.clone();
    assert!(cfg.same(&other));
    assert!(!cfg.reload(other.clone()));
    other.device_overrides.insert(
        "mouse".to_string(),
        DeviceSettings {
            poll_interval_secs: Some(5),
            low_threshold: None,
        },
    );
    assert!(!cfg.same(&other));
    assert!(cfg.reload(other.clone()));
    assert_eq!(cfg, other);
    for edit in [
        Config {
            palette: Palette::Nord,
            ..other.clone()
        },
        Config {
            language: Some("ru".to_string()),
            ..other.clone()
        },
        Config {
            hidden_devices: Vec::new(),
            ..other.clone()
        },
        Config {
            device_overrides: Overrides::new(),
            ..other.clone()
        },
    ] {
        assert!(!other.same(&edit));
    }
}
