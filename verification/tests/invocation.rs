use rigbat::invocation::{
    complaint, default_filter_level, exit_early, parse_args, resolve_filter_directive, Invocation,
    LogProfile, Tab, USAGE,
};

fn s(v: &[&str]) -> Vec<String> {
    v.iter().map(|s| s.to_string()).collect()
}

#[test]
fn wide_flag_after_subcommand() {
    let args = s(&["list", "--wide"]);
    assert_eq!(parse_args(&args), Invocation::List { wide: true });
}

#[test]
fn wide_flag_before_subcommand() {
    let args = s(&["--wide", "list"]);
    assert_eq!(parse_args(&args), Invocation::List { wide: true });
}

#[test]
fn wide_flag_alone() {
    let args = s(&["--wide"]);
    assert_eq!(parse_args(&args), Invocation::List { wide: true });
}

#[test]
fn no_wide_flag_default() {
    let args = s(&["list"]);
    assert_eq!(parse_args(&args), Invocation::List { wide: false });
}

#[test]
fn mode_tray_no_wide() {
    let args = s(&["tray"]);
    assert_eq!(parse_args(&args), Invocation::Tray);
}

#[test]
fn no_args_defaults_to_list() {
    let args = s(&[]);
    assert_eq!(parse_args(&args), Invocation::List { wide: false });
}

#[test]
fn help_flag_wins_over_mode() {
    assert_eq!(parse_args(&s(&["--help"])), Invocation::Help);
    assert_eq!(parse_args(&s(&["-h"])), Invocation::Help);
    assert_eq!(parse_args(&s(&["tray", "--help"])), Invocation::Help);
}

#[test]
fn version_flag() {
    assert_eq!(parse_args(&s(&["--version"])), Invocation::Version);
    assert_eq!(parse_args(&s(&["-V"])), Invocation::Version);
}

#[test]
fn json_mode() {
    assert_eq!(parse_args(&s(&["--json"])), Invocation::Json);
    assert_eq!(parse_args(&s(&["--json", "--wide"])), Invocation::Json);
}

/// `--json` is a mode, so pairing it with a subcommand is a contradiction,
/// not a preference. It used to win silently: `rigbat tray --json` printed
/// one reading and exited 0 instead of starting the daemon.
#[test]
fn mode_flag_with_a_subcommand_is_a_usage_error() {
    for (argv, expected) in [
        (
            vec!["tray", "--json"],
            "--json cannot be combined with `tray`",
        ),
        (
            vec!["settings", "--json"],
            "--json cannot be combined with `settings`",
        ),
        (
            vec!["tray", "--waybar"],
            "--waybar cannot be combined with `tray`",
        ),
    ] {
        assert_eq!(
            parse_args(&s(&argv)),
            Invocation::UsageError(expected.to_string()),
            "{argv:?}"
        );
    }
}

#[test]
fn mode_flag_with_the_list_subcommand_is_accepted() {
    assert_eq!(parse_args(&s(&["list", "--json"])), Invocation::Json);
    assert_eq!(parse_args(&s(&["list", "--waybar"])), Invocation::Waybar);
}

/// An unknown flag was swallowed whenever a mode flag sat beside it,
/// because the mode returned before anything validated the rest.
#[test]
fn unknown_flag_is_reported_even_beside_a_mode_flag() {
    assert_eq!(
        parse_args(&s(&["--oops", "--json"])),
        Invocation::Unknown("--oops".to_string())
    );
}

#[test]
fn waybar_mode() {
    assert_eq!(parse_args(&s(&["--waybar"])), Invocation::Waybar);
}

#[test]
fn json_and_waybar_together_is_usage_error() {
    assert_eq!(
        parse_args(&s(&["--json", "--waybar"])),
        Invocation::UsageError("--json and --waybar are mutually exclusive".to_string())
    );
}

#[test]
fn mode_settings() {
    assert_eq!(
        parse_args(&s(&["settings"])),
        Invocation::Settings(Tab::General)
    );
    assert_eq!(
        parse_args(&s(&["settings", "devices"])),
        Invocation::Settings(Tab::Devices)
    );
    assert_eq!(
        parse_args(&s(&["settings", "general"])),
        Invocation::Settings(Tab::General)
    );
    assert_eq!(
        parse_args(&s(&["settings", "appearance"])),
        Invocation::Settings(Tab::Appearance)
    );
    assert_eq!(
        parse_args(&s(&["settings", "power"])),
        Invocation::Unknown("power".to_string())
    );
    assert_eq!(parse_args(&s(&["dashboard"])), Invocation::Dashboard);
    assert_eq!(parse_args(&s(&["doctor"])), Invocation::Doctor);
}

#[test]
fn doctor_is_one_shot_and_rejects_mode_flags() {
    assert_eq!(LogProfile::from(&Invocation::Doctor), LogProfile::OneShot);
    assert_eq!(
        parse_args(&s(&["doctor", "--json"])),
        Invocation::UsageError("--json cannot be combined with `doctor`".to_string())
    );
}

#[test]
fn default_filter_level_tray_is_info() {
    assert_eq!(
        default_filter_level(LogProfile::from(&Invocation::Tray)),
        "info"
    );
}

#[test]
fn default_filter_level_settings_is_info() {
    assert_eq!(
        default_filter_level(LogProfile::from(&Invocation::Settings(
            Tab::General
        ))),
        "info"
    );
}

#[test]
fn default_filter_level_list_is_warn() {
    assert_eq!(
        default_filter_level(LogProfile::from(&Invocation::List { wide: false })),
        "warn"
    );
}

#[test]
fn default_filter_level_json_is_warn() {
    assert_eq!(
        default_filter_level(LogProfile::from(&Invocation::Json)),
        "warn"
    );
}

#[test]
fn default_filter_level_waybar_is_info() {
    assert_eq!(
        default_filter_level(LogProfile::from(&Invocation::Waybar)),
        "info"
    );
}

#[test]
fn resolve_filter_directive_prefers_rigbat_log() {
    assert_eq!(
        resolve_filter_directive(LogProfile::OneShot, Some("debug"), Some("trace")),
        "debug"
    );
}

#[test]
fn resolve_filter_directive_falls_back_to_rust_log() {
    assert_eq!(
        resolve_filter_directive(LogProfile::OneShot, None, Some("trace")),
        "trace"
    );
}

#[test]
fn resolve_filter_directive_falls_back_to_mode_default() {
    assert_eq!(
        resolve_filter_directive(LogProfile::Daemon, None, None),
        "info"
    );
}

#[test]
fn unknown_positional() {
    assert_eq!(
        parse_args(&s(&["lst"])),
        Invocation::Unknown("lst".to_string())
    );
}

#[test]
fn unknown_flag() {
    assert_eq!(
        parse_args(&s(&["--wdie"])),
        Invocation::Unknown("--wdie".to_string())
    );
}

#[test]
fn usage_mentions_all_modes_and_flags() {
    for token in [
        "list",
        "tray",
        "settings",
        "dashboard",
        "doctor",
        "--json",
        "--waybar",
        "--wide",
    ] {
        assert!(USAGE.contains(token), "USAGE missing '{token}'");
    }
}

#[test]
fn a_refused_command_line_says_why_and_fails() {
    let unknown = parse_args(&s(&["--oops"]));
    assert_eq!(exit_early(&unknown), Some(2));
    assert_eq!(
        complaint(&unknown).as_deref(),
        Some("rigbat: unrecognized argument '--oops'")
    );
    let conflict = parse_args(&s(&["--json", "--waybar"]));
    assert_eq!(exit_early(&conflict), Some(2));
    assert_eq!(
        complaint(&conflict).as_deref(),
        Some("rigbat: --json and --waybar are mutually exclusive")
    );
    assert_eq!(exit_early(&Invocation::Help), Some(0));
    assert_eq!(exit_early(&Invocation::Version), Some(0));
    assert_eq!(exit_early(&Invocation::Tray), None);
    assert_eq!(complaint(&Invocation::Tray), None);
}

#[test]
fn a_word_that_nothing_takes_is_unknown() {
    let cases: [(&[&str], &str); 10] = [
        (&["tray", "bogus"], "bogus"),
        (&["list", "x"], "x"),
        (&["dashboard", "x", "y"], "x"),
        (&["doctor", "list"], "list"),
        (&["--json", "list", "x"], "x"),
        (&["list", "x", "--waybar"], "x"),
        (&["settings", "general", "x"], "x"),
        (&["settings", "devices", "general"], "general"),
        (&["settings", "x", "general"], "x"),
        (&["lst", "x"], "lst"),
    ];
    for (argv, word) in cases {
        let parsed = parse_args(&s(argv));
        assert_eq!(parsed, Invocation::Unknown(word.to_owned()), "{argv:?}");
        assert_eq!(exit_early(&parsed), Some(2), "{argv:?}");
    }
    assert_eq!(
        parse_args(&s(&["tray", "bogus", "--help"])),
        Invocation::Help
    );
}
