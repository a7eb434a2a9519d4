//! What a command line asks for, and what the doctor reports.

use crate::doctor::{self, Finding, NodeProbe, OpenError, SessionFacts, Startup, Status};
use crate::invocation::{self, Request, Tab};
use crate::strings;
use vstd::prelude::*;

verus! {

// --- the command line --------------------------------------------------------

/// Whether an argument starts with a dash.
pub open spec fn dashed(arg: Seq<char>) -> bool {
    arg.len() > 0 && arg[0] == '-'
}

/// The arguments that do not.
pub open spec fn words_of(args: Seq<Seq<char>>) -> Seq<Seq<char>> {
    args.filter(|arg: Seq<char>| !dashed(arg))
}

/// Whether help or the version is asked for.
pub open spec fn asks_about(args: Seq<Seq<char>>) -> bool {
    args.contains("--help"@) || args.contains("-h"@) || args.contains("--version"@)
        || args.contains("-V"@)
}

/// The tab that a word of the settings command opens.
pub open spec fn tab_word(tab: Tab) -> Seq<char> {
    match tab {
        Tab::General => "general"@,
        Tab::Appearance => "appearance"@,
        Tab::Devices => "devices"@,
    }
}

/// Whether every flag is one that shapes the output.
pub open spec fn flags_are_known(args: Seq<Seq<char>>) -> bool {
    forall|i: int|
        0 <= i < args.len() && dashed(#[trigger] args[i]) ==> args[i] == "--wide"@ || args[i]
            == "--json"@ || args[i] == "--waybar"@
}

/// Help is given exactly to whoever asks for it, and the version to whoever asks
/// for that and not for help.
pub proof fn help_goes_first(args: Seq<Seq<char>>)
    ensures
        (invocation::requested(args) is Help) == (args.contains("--help"@) || args.contains("-h"@)),
        (invocation::requested(args) is Version) == (!(args.contains("--help"@) || args.contains(
            "-h"@,
        )) && (args.contains("--version"@) || args.contains("-V"@))),
{
}

proof fn no_flag_is_unknown(args: Seq<Seq<char>>)
    ensures
        (invocation::first_unknown_flag(args) is None) == flags_are_known(args),
        invocation::first_unknown_flag(args) is Some ==> args.contains(
            invocation::first_unknown_flag(args)->0,
        ),
    decreases args.len(),
{
    if args.len() > 0 {
        let rest = args.drop_first();
        no_flag_is_unknown(rest);
        assert forall|i: int| 0 <= i < rest.len() implies #[trigger] rest[i] == args[i + 1] by {}
        if flags_are_known(args) {
            assert forall|i: int| 0 <= i < rest.len() && dashed(#[trigger] rest[i]) implies rest[i]
                == "--wide"@ || rest[i] == "--json"@ || rest[i] == "--waybar"@ by {
                assert(args[i + 1] == rest[i]);
            }
            assert(!invocation::is_unknown_flag(args[0]));
        } else {
            let k = choose|k: int|
                0 <= k < args.len() && dashed(#[trigger] args[k]) && args[k] != "--wide"@ && args[k]
                    != "--json"@ && args[k] != "--waybar"@;
            if k > 0 {
                assert(rest[k - 1] == args[k]);
            }
        }
        if invocation::first_unknown_flag(args) is Some {
            let flag = invocation::first_unknown_flag(args)->0;
            if invocation::is_unknown_flag(args[0]) {
                assert(args[0] == flag);
            } else {
                assert(args[rest.index_of(flag) + 1] == flag);
            }
        }
    }
}

/// What runs was asked for: each command by its word and nothing else but known
/// flags, the machine-readable outputs by their flag, the list in wide form
/// exactly with that flag, and the settings on the tab that was named or the
/// general one.
pub proof fn what_runs_was_asked_for(args: Seq<Seq<char>>)
    ensures
        ({
            let r = invocation::requested(args);
            let words = words_of(args);
            let plain = words.len() == 0 || words == seq!["list"@];
            &&& r is Json ==> args.contains("--json"@) && !args.contains("--waybar"@) && plain
            &&& r is Waybar ==> args.contains("--waybar"@) && !args.contains("--json"@) && plain
            &&& r matches Request::List { wide } ==> plain && wide == args.contains("--wide"@)
                && !args.contains("--json"@) && !args.contains("--waybar"@)
            &&& r is Tray ==> words == seq!["tray"@]
            &&& r is Dashboard ==> words == seq!["dashboard"@]
            &&& r is Doctor ==> words == seq!["doctor"@]
            &&& r matches Request::Settings(tab) ==> words == seq!["settings"@, tab_word(tab)] || (
            words == seq!["settings"@] && tab == Tab::General)
            &&& !(r is Help) && !(r is Version) && !(r is Unknown) && !(r is UsageError)
                ==> flags_are_known(args) && !asks_about(args)
        }),
{
    no_flag_is_unknown(args);
    let words = invocation::positionals(args);
    assert(words =~= words_of(args)) by {
        assert(args.filter(|arg: Seq<char>| !invocation::is_flag(arg)) =~= args.filter(
            |arg: Seq<char>| !dashed(arg),
        )) by {
            same_filter(args);
        }
    }
    if invocation::stray_word(words) is None {
        let n = invocation::taken(words);
        assert(n >= words.len());
        if words.len() == 1 {
            assert(words =~= seq![words[0]]);
        }
        if words.len() == 2 {
            assert(words =~= seq![words[0], words[1]]);
        }
    }
    modes_differ();
}

proof fn same_filter(args: Seq<Seq<char>>)
    ensures
        args.filter(|arg: Seq<char>| !invocation::is_flag(arg)) == args.filter(
            |arg: Seq<char>| !dashed(arg),
        ),
    decreases args.len(),
{
    reveal(Seq::filter);
    if args.len() > 0 {
        same_filter(args.drop_last());
    }
}

proof fn modes_differ()
    ensures
        "list"@ != "tray"@,
        "list"@ != "settings"@,
        "list"@ != "dashboard"@,
        "list"@ != "doctor"@,
        "tray"@ != "settings"@,
        "tray"@ != "dashboard"@,
        "tray"@ != "doctor"@,
        "settings"@ != "dashboard"@,
        "settings"@ != "doctor"@,
        "dashboard"@ != "doctor"@,
        "general"@ != "appearance"@,
        "general"@ != "devices"@,
        "appearance"@ != "devices"@,
{
    reveal_strlit("list");
    reveal_strlit("tray");
    reveal_strlit("settings");
    reveal_strlit("dashboard");
    reveal_strlit("doctor");
    reveal_strlit("general");
    reveal_strlit("appearance");
    reveal_strlit("devices");
    assert("list"@[0] == 'l');
    assert("tray"@[0] == 't');
    assert("settings"@[0] == 's');
    assert("dashboard"@[1] == 'a');
    assert("doctor"@[1] == 'o');
    assert("general"@[0] == 'g');
    assert("appearance"@[0] == 'a');
    assert("devices"@[0] == 'd');
}

/// What is asked for runs: of a command line with known flags only, and that asks
/// neither for help nor for the version.
pub proof fn what_is_asked_for_runs(args: Seq<Seq<char>>, tab: Tab)
    requires
        flags_are_known(args),
        !asks_about(args),
    ensures
        ({
            let r = invocation::requested(args);
            let words = words_of(args);
            let json = args.contains("--json"@);
            let waybar = args.contains("--waybar"@);
            let plain = words.len() == 0 || words == seq!["list"@];
            &&& plain && json && !waybar ==> r is Json
            &&& plain && waybar && !json ==> r is Waybar
            &&& plain && !waybar && !json ==> r == (Request::List { wide: args.contains("--wide"@) })
            &&& json && waybar ==> r is UsageError
            &&& words == seq!["tray"@] && !json && !waybar ==> r is Tray
            &&& words == seq!["dashboard"@] && !json && !waybar ==> r is Dashboard
            &&& words == seq!["doctor"@] && !json && !waybar ==> r is Doctor
            &&& words == seq!["settings"@] && !json && !waybar ==> r == Request::Settings(
                Tab::General,
            )
            &&& words == seq!["settings"@, tab_word(tab)] && !json && !waybar ==> r
                == Request::Settings(tab)
        }),
{
    no_flag_is_unknown(args);
    same_filter(args);
    modes_differ();
    let words = invocation::positionals(args);
    assert(words == words_of(args));
}

/// A refused word or flag is one of those that were given.
pub proof fn what_is_refused_was_given(args: Seq<Seq<char>>)
    ensures
        invocation::requested(args) matches Request::Unknown(token) ==> args.contains(token),
{
    no_flag_is_unknown(args);
    let words = invocation::positionals(args);
    let n = invocation::taken(words);
    if n < words.len() {
        let word = words[n];
        args.lemma_filter_contains_rev(|arg: Seq<char>| !invocation::is_flag(arg), word);
    }
}

/// What is refused is answered with the word or flag it was refused for.
pub proof fn a_refusal_names_the_cause(token: Seq<char>)
    ensures
        invocation::complaint_text(Request::Unknown(token)) == Some(
            "rigbat: unrecognized argument '"@ + token + "'"@,
        ),
        invocation::complaint_text(Request::UsageError(token)) == Some("rigbat: "@ + token),
{
}

// --- the doctor --------------------------------------------------------------

/// The session: unreachable it is one failure that says why; reachable, tray
/// icons need a host, and a tray that does not run is worth a warning.
pub proof fn the_session_is_judged_by_its_facts(
    session: Result<SessionFacts, String>,
    startup: Startup,
)
    ensures
        ({
            let f = doctor::session_findings(session, startup);
            match session {
                Err(e) => f.len() == 1 && f[0].status == Status::Fail && f[0].summary
                    == "session D-Bus unreachable: "@ + e@,
                Ok(facts) => {
                    &&& f.len() == 3
                    &&& f[0].status == Status::Pass
                    &&& f[1].status == if facts.tray_host {
                        Status::Pass
                    } else {
                        Status::Fail
                    }
                    &&& f[2].status == if facts.tray_running {
                        Status::Pass
                    } else {
                        Status::Warn
                    }
                },
            }
        }),
{
}

/// A tray that does not run is started the way this machine is set up to.
pub proof fn a_stopped_tray_is_started_as_set_up(startup: Startup)
    ensures
        ({
            let fix = doctor::tray_finding(false, startup).fix;
            &&& startup.unit_enabled ==> fix == Some(
                "systemctl --user restart "@ + "rigbat.service"@
                    + "; if it stops again: journalctl --user -u "@ + "rigbat.service"@ + " -e"@,
            )
            &&& !startup.unit_enabled && startup.unit_installed ==> fix == Some(
                "systemctl --user enable --now "@ + "rigbat.service"@,
            )
            &&& !startup.unit_enabled && !startup.unit_installed && startup.autostart_entry ==> fix
                == Some("it starts at the next login; to start it now: setsid -f rigbat tray"@)
            &&& !startup.unit_enabled && !startup.unit_installed && !startup.autostart_entry ==> fix
                == Some(
                "make service enable (from the source tree), or run: setsid -f rigbat tray"@,
            )
        }),
{
}

/// Starting twice at login is worth a warning, starting once or not at all is
/// not.
pub proof fn only_a_double_start_is_warned_of(startup: Startup)
    ensures
        doctor::startup_finding(startup).status == (if startup.unit_enabled
            && startup.autostart_entry {
            Status::Warn
        } else {
            Status::Pass
        }),
{
}

/// Bluetooth and the portal pass exactly if they answer.
pub proof fn what_answers_passes(bluez: Result<bool, String>, portal: Result<(), String>)
    ensures
        (doctor::bluez_finding(bluez).status == Status::Pass) == (bluez == Ok::<bool, String>(
            true,
        )),
        (doctor::portal_finding(portal).status == Status::Pass) == (portal is Ok),
        bluez matches Err(e) ==> doctor::bluez_finding(bluez).summary
            == "system D-Bus unreachable: "@ + e@ + "; Bluetooth devices will not show"@,
        portal matches Err(e) ==> doctor::portal_finding(portal).summary
            == "xdg-desktop-portal Settings unavailable: "@ + e@
            + "; the theme falls back to dark"@,
{
}

/// Every node has its finding, which names the device and its path: it passes if
/// it opens, fails where permission is denied, and warns of anything else.
pub proof fn every_node_is_judged_by_opening_it(
    nodes: Seq<NodeProbe>,
    rule: Option<Seq<char>>,
    i: int,
) -> (rest: Seq<char>)
    requires
        0 <= i < nodes.len(),
    ensures
        doctor::hidraw_findings(nodes, rule).len() == nodes.len(),
        ({
            let f = doctor::hidraw_findings(nodes, rule)[i];
            &&& f.summary == nodes[i].device@ + " ("@ + nodes[i].dev_path@ + ")"@ + rest
            &&& (f.status == Status::Pass) == (nodes[i].open is Ok)
            &&& (f.status == Status::Fail) == (nodes[i].open
                == Err::<(), OpenError>(OpenError::PermissionDenied))
            &&& nodes[i].open matches Err(OpenError::Other(e)) ==> rest == ": cannot open: "@ + e@
        }),
{
    let f = doctor::hidraw_findings(nodes, rule)[i];
    let what = nodes[i].device@ + " ("@ + nodes[i].dev_path@ + ")"@;
    let rest = match nodes[i].open {
        Ok(()) => " opens read-write"@,
        Err(OpenError::PermissionDenied) => ": permission denied, the device will show offline"@,
        Err(OpenError::Other(e)) => ": cannot open: "@ + e@,
    };
    assert(f.summary =~= what + rest);
    rest
}

/// A missing permission is granted by applying the rule that is installed, or by
/// installing it.
pub proof fn permission_is_granted_by_the_rule(node: NodeProbe, rule: Option<Seq<char>>)
    requires
        node.open == Err::<(), OpenError>(OpenError::PermissionDenied),
    ensures
        doctor::node_finding(node, rule).fix is Some,
        rule matches Some(path) ==> path.is_prefix_of(doctor::node_finding(node, rule).fix->0),
{
    if rule is Some {
        let fix = doctor::node_finding(node, rule).fix->0;
        assert(fix.take(rule->0.len() as int) =~= rule->0);
    }
}

/// The config file fails exactly if it cannot be read, and its path is named;
/// without a directory to keep it in there is a warning.
pub proof fn the_config_is_judged_by_reading_it(
    path: Option<Seq<char>>,
    config: Result<bool, String>,
)
    ensures
        ({
            let f = doctor::config_finding(path, config);
            &&& path is None ==> f.status == Status::Warn
            &&& path is Some ==> f.status == if config is Ok {
                Status::Pass
            } else {
                Status::Fail
            }
            &&& path is Some && config == Ok::<bool, String>(true) ==> f.summary
                == "config parses ("@ + path->0 + ")"@
            &&& path is Some && config == Ok::<bool, String>(false) ==> f.summary
                == "no config file yet, defaults apply ("@ + path->0 + ")"@
            &&& path is Some && config is Err ==> f.summary == "config ignored, defaults apply: "@
                + config->Err_0@
        }),
{
}

/// The state database passes exactly if there is a place for it and it opens.
pub proof fn the_state_is_judged_by_opening_it(path: Option<Seq<char>>, store: Result<(), String>)
    ensures
        ({
            let f = doctor::state_finding(path, store);
            &&& (f.status == Status::Pass) == (path is Some && store is Ok)
            &&& path is Some && store is Ok ==> f.summary == "state database opens ("@ + path->0
                + ")"@
            &&& path is Some && store is Err ==> f.summary
                == "state database unusable, inventory and history are off: "@ + store->Err_0@
        }),
{
}

/// The lines of one finding: its word in four columns, what it is and, where
/// there is one, the fix on a line of its own.
pub open spec fn told(f: Finding) -> Seq<char> {
    let word = match f.status {
        Status::Pass => "ok  "@,
        Status::Warn => "warn"@,
        Status::Fail => "fail"@,
    };
    if f.fix is Some {
        word + "  "@ + f.summary + "\n"@ + "      fix: "@ + f.fix->0 + "\n"@
    } else {
        word + "  "@ + f.summary + "\n"@
    }
}

proof fn a_finding_is_told(f: Finding)
    ensures
        doctor::finding_text(f) == told(f),
{
    reveal_strlit("ok  ");
    reveal_strlit("ok");
    reveal_strlit("warn");
    reveal_strlit("fail");
    assert(strings::padded("ok"@, 4) =~= "ok  "@);
}

/// The report tells every finding, in the order they were made.
pub proof fn the_report_tells_every_finding(list: Seq<Finding>, i: int)
    requires
        0 <= i < list.len(),
    ensures
        doctor::report_text(list) == doctor::report_text(list.take(i)) + told(list[i]) + (
        doctor::report_text(list.skip(i + 1))),
    decreases list.len(),
{
    a_finding_is_told(list[i]);
    if i == list.len() - 1 {
        assert(list.take(i) =~= list.drop_last());
        assert(list.skip(i + 1) =~= Seq::empty());
        assert(doctor::report_text(list) =~= doctor::report_text(list.take(i)) + told(list[i])
            + doctor::report_text(list.skip(i + 1)));
    } else {
        let earlier = list.drop_last();
        the_report_tells_every_finding(earlier, i);
        assert(earlier.take(i) =~= list.take(i));
        assert(list.skip(i + 1).drop_last() =~= earlier.skip(i + 1));
        assert(list.skip(i + 1).last() == list.last());
        assert(doctor::report_text(list) =~= doctor::report_text(list.take(i)) + told(list[i])
            + doctor::report_text(list.skip(i + 1)));
    }
}

/// The rule stands in a directory under its own name, with one slash between.
pub proof fn the_rule_stands_in_its_directory(dir: Seq<char>)
    requires
        dir.len() > 0,
    ensures
        dir.last() != '/' ==> doctor::rule_path(dir) == dir + "/"@ + "70-rigbat.rules"@,
        dir.last() == '/' ==> doctor::rule_path(dir) == dir + "70-rigbat.rules"@,
{
}

/// What stays open logs what it does, what prints and ends only warns.
pub proof fn what_stays_open_logs_more(r: Request)
    ensures
        invocation::default_level(invocation::profile_of(r)) == (if r is Tray || r is Settings
            || r is Dashboard || r is Waybar {
            "info"@
        } else {
            "warn"@
        }),
{
}

} // verus!
