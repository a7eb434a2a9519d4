use rigbat::appearance::{
    apply_change, map_scheme, set_scheme, Accent, Appearance, Change, ColorPreference, ColorScheme,
    WindowTheme,
};
use rigbat::autostart::{desktop_entry, escape_exec_arg};
use rigbat::discovery::backoff::{
    is_healthy_run, next_delay, HEALTHY_RUN, INITIAL_DELAY, MAX_DELAY,
};
use rigbat::discovery::registry::{backends, hidraw_families};
use rigbat::discovery::{flatten, split, BackendSweep};
use rigbat::domain::time::Duration;

fn secs(n: u64) -> Duration {
    Duration::from_secs(n)
}

#[test]
fn delay_doubles_each_failure() {
    let d1 = secs(INITIAL_DELAY);
    let d2 = next_delay(d1);
    let d3 = next_delay(d2);
    assert_eq!(d2, secs(2));
    assert_eq!(d3, secs(4));
}

#[test]
fn delay_caps_at_max() {
    let mut d = secs(INITIAL_DELAY);
    for _ in 0..10 {
        d = next_delay(d);
    }
    assert_eq!(d, secs(MAX_DELAY));
}

#[test]
fn delay_stays_at_max_once_reached() {
    assert_eq!(next_delay(secs(MAX_DELAY)), secs(MAX_DELAY));
}

#[test]
fn healthy_run_boundary_resets() {
    assert!(is_healthy_run(secs(HEALTHY_RUN)));
    assert!(is_healthy_run(secs(HEALTHY_RUN + 1)));
}

#[test]
fn short_run_does_not_reset() {
    assert!(!is_healthy_run(Duration::from_millis(HEALTHY_RUN * 1000 - 1)));
    assert!(!is_healthy_run(secs(0)));
}

fn sweeps() -> Vec<BackendSweep<&'static str, &'static str>> {
    vec![
        BackendSweep {
            name: "empty",
            result: Ok(vec![]),
        },
        BackendSweep {
            name: "failing",
            result: Err("bus call failed"),
        },
        BackendSweep {
            name: "found",
            result: Ok(vec!["mouse", "headset"]),
        },
    ]
}

/// The supervisor retires a device only when its backend's sweep succeeded,
/// so a failure must not reach it as an empty result.
#[test]
fn a_failing_backend_is_reported_apart_from_an_empty_one() {
    let (found, succeeded) = split(sweeps());
    assert_eq!(succeeded, ["empty", "found"]);
    let found: Vec<(&str, &str)> = found.iter().map(|d| (d.backend, d.source)).collect();
    assert_eq!(found, [("found", "mouse"), ("found", "headset")]);
}

#[test]
fn flatten_keeps_every_source_a_successful_backend_found() {
    assert_eq!(flatten(sweeps()), ["mouse", "headset"]);
}

#[test]
fn backends_contains_all_expected_names() {
    let names: Vec<&'static str> = backends().iter().map(|b| b.name()).collect();
    assert_eq!(names, vec!["sysfs", "bluez", "steelseries", "eightbitdo"]);
}

#[test]
fn hidraw_families_come_from_the_hidraw_backends() {
    assert_eq!(hidraw_families(), [0x1038, 0x2DC8]);
}

// --- appearance --------------------------------------------------------------

#[test]
fn map_prefer_light_to_light() {
    assert_eq!(
        map_scheme(ColorPreference::PreferLight),
        ColorScheme::Light
    );
}

#[test]
fn map_prefer_dark_to_dark() {
    assert_eq!(map_scheme(ColorPreference::PreferDark), ColorScheme::Dark);
}

#[test]
fn map_no_preference_to_dark() {
    assert_eq!(
        map_scheme(ColorPreference::NoPreference),
        ColorScheme::Dark
    );
}

#[test]
fn a_repeated_signal_is_not_a_change() {
    let mut appearance = Appearance::default();
    assert!(apply_change(
        &mut appearance,
        Change::Scheme(ColorScheme::Light)
    ));
    assert!(!apply_change(
        &mut appearance,
        Change::Scheme(ColorScheme::Light)
    ));
    assert!(apply_change(
        &mut appearance,
        Change::TextScale(1.5f32.to_bits())
    ));
    assert_eq!(f32::from_bits(appearance.text_scale_bits), 1.5);
}

#[test]
fn the_default_look_is_dark_and_plain() {
    let appearance = Appearance::default();
    assert_eq!(appearance.scheme, ColorScheme::Dark);
    assert_eq!(appearance.accent, None);
    assert_eq!(f32::from_bits(appearance.text_scale_bits), 1.0);
}

#[test]
fn an_accent_replaces_the_last_one() {
    let accent = Accent {
        red: 0x40,
        green: 0xA0,
        blue: 0x2B,
    };
    let mut appearance = Appearance::default();
    assert!(apply_change(&mut appearance, Change::Accent(Some(accent))));
    assert!(!apply_change(&mut appearance, Change::Accent(Some(accent))));
    assert_eq!(appearance.accent, Some(accent));
    assert!(apply_change(&mut appearance, Change::Accent(None)));
    assert_eq!(appearance.accent, None);
}

#[test]
fn a_repeated_scheme_does_not_wake_the_tray() {
    let mut scheme = ColorScheme::Dark;
    assert!(!set_scheme(&mut scheme, ColorScheme::Dark));
    assert!(set_scheme(&mut scheme, ColorScheme::Light));
    assert_eq!(scheme, ColorScheme::Light);
}

// --- autostart ---------------------------------------------------------------

#[test]
fn desktop_entry_contains_required_fields() {
    let entry = desktop_entry("/usr/bin/rigbat");
    assert!(entry.contains("Type=Application"));
    assert!(entry.contains("Name=rigbat"));
    assert!(entry.contains("X-GNOME-Autostart-enabled=true"));
}

#[test]
fn desktop_entry_exec_is_double_quoted() {
    let entry = desktop_entry("/usr/bin/rigbat");
    assert!(entry.contains("Exec=\"/usr/bin/rigbat\" tray"));
}

#[test]
fn desktop_entry_path_with_spaces_is_double_quoted() {
    let entry = desktop_entry("/home/user/my apps/rigbat");
    assert!(entry.contains("Exec=\"/home/user/my apps/rigbat\" tray"));
}

#[test]
fn escape_exec_arg_escapes_double_quote() {
    assert_eq!(escape_exec_arg("a\"b"), "a\\\"b");
}

#[test]
fn escape_exec_arg_escapes_backtick() {
    assert_eq!(escape_exec_arg("a`b"), "a\\`b");
}

#[test]
fn escape_exec_arg_escapes_dollar_sign() {
    assert_eq!(escape_exec_arg("a$b"), "a\\$b");
}

#[test]
fn escape_exec_arg_escapes_backslash() {
    assert_eq!(escape_exec_arg("a\\b"), "a\\\\b");
}

#[test]
fn escape_exec_arg_passes_through_unaffected_chars() {
    assert_eq!(escape_exec_arg("/usr/bin/rigbat"), "/usr/bin/rigbat");
}

#[test]
fn escape_exec_arg_leaves_spaces_unescaped() {
    assert_eq!(
        escape_exec_arg("/home/user/my apps/rigbat"),
        "/home/user/my apps/rigbat"
    );
}

#[test]
fn an_escaped_path_can_be_read_back() {
    let path = "/opt/a \"b\" $c `d` \\e";
    let mut back = String::new();
    let mut escaped = false;
    for c in escape_exec_arg(path).chars() {
        if c == '\\' && !escaped {
            escaped = true;
        } else {
            back.push(c);
            escaped = false;
        }
    }
    assert_eq!(back, path);
}

/// The look a window has, as the portal and the theme change.
#[test]
fn a_forced_theme_wins_over_the_portal_until_it_is_system_again() {
    let mut portal = Appearance::default();
    assert_eq!(
        portal.with_theme(WindowTheme::Light).scheme,
        ColorScheme::Light
    );
    assert_eq!(
        portal.with_theme(WindowTheme::System).scheme,
        ColorScheme::Dark
    );

    let accent = Some(Accent {
        red: 200,
        green: 0,
        blue: 0,
    });
    assert!(apply_change(&mut portal, Change::Scheme(ColorScheme::Light)));
    assert!(apply_change(&mut portal, Change::Accent(accent)));
    let look = portal.with_theme(WindowTheme::Dark);
    assert_eq!(look.accent, accent);
    assert_eq!(look.scheme, ColorScheme::Dark);
    assert_eq!(look.text_scale_bits, portal.text_scale_bits);
}

#[test]
fn a_theme_fixed_at_launch_still_follows_the_portal() {
    let mut portal = Appearance::default();
    assert_eq!(
        portal.with_theme(WindowTheme::System).scheme,
        ColorScheme::Dark
    );
    assert!(apply_change(&mut portal, Change::Scheme(ColorScheme::Light)));
    assert_eq!(
        portal.with_theme(WindowTheme::System).scheme,
        ColorScheme::Light
    );
}
