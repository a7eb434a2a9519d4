use rigbat::doctor::{
    bluez_check, config_check, exit_code, find_udev_rule, hidraw_checks, portal_check, render,
    session_checks, startup_check, state_check, Check, NodeProbe, OpenError, SessionFacts, Startup,
    Status, UDEV_RULE,
};

fn statuses(checks: &[Check]) -> Vec<Status> {
    checks.iter().map(|c| c.status).collect()
}

fn node(open: Result<(), OpenError>) -> NodeProbe {
    NodeProbe {
        device: "SteelSeries Aerox 5 Wireless".to_owned(),
        dev_path: "/dev/hidraw5".to_owned(),
        open,
    }
}

#[test]
fn render_prints_status_summary_and_fix() {
    let checks = [
        Check::ok("session D-Bus reachable".to_owned()),
        Check::fail("no tray host".to_owned(), "run snixembed".to_owned()),
    ];
    assert_eq!(
        render(&checks),
        "ok    session D-Bus reachable\n\
         fail  no tray host\n      fix: run snixembed\n"
    );
}

#[test]
fn warnings_do_not_fail_the_exit_code() {
    assert_eq!(exit_code(&[]), 0);
    assert_eq!(exit_code(&[Check::ok("a".to_owned()), Check::warn("b".to_owned(), "c".to_owned())]), 0);
    assert_eq!(
        exit_code(&[Check::warn("b".to_owned(), "c".to_owned()), Check::fail("d".to_owned(), "e".to_owned())]),
        1
    );
}

#[test]
fn unreachable_session_bus_is_one_failure() {
    let checks = session_checks(Err("no socket".to_owned()), Startup::default());
    assert_eq!(statuses(&checks), [Status::Fail]);
    assert!(checks[0].summary.contains("no socket"));
}

#[test]
fn missing_tray_host_fails() {
    let facts = SessionFacts {
        tray_host: false,
        tray_running: true,
    };
    let checks = session_checks(Ok(facts), Startup::default());
    assert_eq!(statuses(&checks), [Status::Pass, Status::Fail, Status::Pass]);
    assert!(checks[1].fix.as_deref().unwrap().contains("snixembed"));
}

#[test]
fn stopped_tray_fix_follows_how_it_is_meant_to_start() {
    let facts = SessionFacts {
        tray_host: true,
        tray_running: false,
    };
    let fix = |startup| {
        let checks = session_checks(Ok(facts), startup);
        assert_eq!(checks[2].status, Status::Warn);
        checks[2].fix.clone().unwrap()
    };
    let enabled = fix(Startup {
        unit_installed: true,
        unit_enabled: true,
        autostart_entry: false,
    });
    assert!(enabled.starts_with("systemctl --user restart rigbat.service"));
    let installed = fix(Startup {
        unit_installed: true,
        ..Startup::default()
    });
    assert_eq!(installed, "systemctl --user enable --now rigbat.service");
    assert!(fix(Startup::default()).contains("make service enable"));
}

#[test]
fn both_startup_methods_warn() {
    let both = startup_check(Startup {
        unit_installed: true,
        unit_enabled: true,
        autostart_entry: true,
    });
    assert_eq!(both.status, Status::Warn);
    assert!(both.fix.unwrap().contains("systemctl --user disable --now"));
    for startup in [
        Startup::default(),
        Startup {
            autostart_entry: true,
            ..Startup::default()
        },
        Startup {
            unit_installed: true,
            unit_enabled: true,
            autostart_entry: false,
        },
    ] {
        assert_eq!(startup_check(startup).status, Status::Pass);
    }
}

#[test]
fn bluez_problems_only_warn() {
    assert_eq!(bluez_check(Ok(true)).status, Status::Pass);
    let absent = bluez_check(Ok(false));
    assert_eq!(absent.status, Status::Warn);
    assert_eq!(
        absent.fix.as_deref(),
        Some("sudo systemctl enable --now bluetooth.service")
    );
    assert_eq!(bluez_check(Err("x".to_owned())).status, Status::Warn);
}

#[test]
fn missing_portal_only_warns() {
    assert_eq!(portal_check(Ok(())).status, Status::Pass);
    let missing = portal_check(Err("not provided".to_owned()));
    assert_eq!(missing.status, Status::Warn);
    assert!(missing.summary.contains("falls back"));
}

#[test]
fn no_supported_hidraw_device_is_ok() {
    assert_eq!(statuses(&hidraw_checks(&[], &None)), [Status::Pass]);
}

#[test]
fn denied_node_without_rule_fails_with_the_install_command() {
    let checks = hidraw_checks(&[node(Err(OpenError::PermissionDenied))], &None);
    assert_eq!(statuses(&checks), [Status::Fail]);
    assert!(checks[0].summary.contains("/dev/hidraw5"));
    let fix = checks[0].fix.as_deref().unwrap();
    assert!(fix.contains("sudo make udev-install"), "{fix}");
    assert!(fix.contains("/etc/udev/rules.d"), "{fix}");
}

#[test]
fn denied_node_with_rule_fails_with_the_reload_command() {
    let rule = "/etc/udev/rules.d/70-rigbat.rules";
    let checks = hidraw_checks(&[node(Err(OpenError::PermissionDenied))], &Some(rule.to_owned()));
    let fix = checks[0].fix.as_deref().unwrap();
    assert!(
        fix.starts_with("/etc/udev/rules.d/70-rigbat.rules is installed"),
        "{fix}"
    );
    assert!(fix.contains("udevadm trigger"), "{fix}");
}

#[test]
fn open_node_is_ok_and_other_errors_warn() {
    let checks = hidraw_checks(
        &[node(Ok(())), node(Err(OpenError::Other("device busy".to_owned())))],
        &None,
    );
    assert_eq!(statuses(&checks), [Status::Pass, Status::Warn]);
}

#[test]
fn find_udev_rule_searches_every_dir() {
    let (etc, lib) = ("/root/etc", "/root/lib");
    assert_eq!(find_udev_rule(&[etc, lib], |_: &str| false), None);
    let in_lib = format!("{lib}/{UDEV_RULE}");
    assert_eq!(
        find_udev_rule(&[etc, lib], |p: &str| p == in_lib),
        Some(in_lib.clone())
    );
    assert_eq!(
        find_udev_rule(&[etc, lib], |_: &str| true),
        Some(format!("{etc}/{UDEV_RULE}"))
    );
}

#[test]
fn broken_config_fails_and_missing_config_is_ok() {
    let path = "/home/u/.config/rigbat/config.json";
    assert_eq!(config_check(Some(path), Ok(true)).status, Status::Pass);
    let missing = config_check(Some(path), Ok(false));
    assert_eq!(missing.status, Status::Pass);
    assert!(missing.summary.contains("defaults"));
    let broken = config_check(Some(path), Err("expected value".to_owned()));
    assert_eq!(broken.status, Status::Fail);
    assert!(
        broken
            .fix
            .unwrap()
            .contains("rm /home/u/.config/rigbat/config.json")
    );
}

#[test]
fn unusable_state_database_only_warns() {
    let path = "/home/u/.local/state/rigbat/rigbat.db";
    let ok = state_check(Some(path), Ok(()));
    assert_eq!(ok.status, Status::Pass);
    assert!(ok.summary.contains("rigbat.db"));
    assert_eq!(
        state_check(Some(path), Err("corrupt".to_owned())).status,
        Status::Warn
    );
    assert_eq!(state_check(None, Ok(())).status, Status::Warn);
}
