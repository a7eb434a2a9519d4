//! What the command line asks for, and how chatty that makes the program.

use crate::i18n;
use crate::strings;
use vstd::prelude::*;
use vstd::string::*;

verus! {

pub const USAGE: &'static str = "\
rigbat — system tray battery monitor for peripherals

Usage:
  rigbat [list] [--wide]   Print a one-shot battery table (default)
  rigbat --json            Print battery data as JSON
  rigbat --waybar          Stream waybar custom-module JSON lines (featured device)
  rigbat tray              Run the system tray daemon
  rigbat settings [general|appearance|devices]
                           Open the settings window, on that tab
  rigbat dashboard         Open the device overview (the tray icon's left click)
  rigbat doctor            Check the setup and print how to fix each problem

Options:
  --wide        Add transport and locator columns to the table
  -h, --help    Show this help and exit
  -V, --version Show the version and exit
";

/// A tab of the settings window.
#[derive(Debug, Clone, Copy, PartialEq, Eq, Structural)]
pub enum Tab {
    General,
    Appearance,
    Devices,
}

impl Tab {
    /// The tab a word names.
    pub open spec fn named(word: Seq<char>) -> Option<Tab> {
        if word == "general"@ {
            Some(Tab::General)
        } else if word == "appearance"@ {
            Some(Tab::Appearance)
        } else if word == "devices"@ {
            Some(Tab::Devices)
        } else {
            None
        }
    }

    pub fn from_arg(arg: &str) -> (r: Option<Tab>)
        ensures
            r == Tab::named(arg@),
    {
        if *arg == *"general" {
            Some(Tab::General)
        } else if *arg == *"appearance" {
            Some(Tab::Appearance)
        } else if *arg == *"devices" {
            Some(Tab::Devices)
        } else {
            None
        }
    }
}

#[derive(Debug, PartialEq, Eq)]
pub enum Invocation {
    List { wide: bool },
    Json,
    Waybar,
    Tray,
    Settings(Tab),
    Dashboard,
    Doctor,
    Help,
    Version,
    /// Unrecognised argument; carries the offending token for the error message.
    Unknown(String),
    /// Recognised arguments that conflict with each other; carries the message.
    UsageError(String),
}

/// What an `Invocation` says, with texts as their characters.
pub enum Request {
    List { wide: bool },
    Json,
    Waybar,
    Tray,
    Settings(Tab),
    Dashboard,
    Doctor,
    Help,
    Version,
    Unknown(Seq<char>),
    UsageError(Seq<char>),
}

impl View for Invocation {
    type V = Request;

    open spec fn view(&self) -> Request {
        match self {
            Invocation::List { wide } => Request::List { wide: *wide },
            Invocation::Json => Request::Json,
            Invocation::Waybar => Request::Waybar,
            Invocation::Tray => Request::Tray,
            Invocation::Settings(tab) => Request::Settings(*tab),
            Invocation::Dashboard => Request::Dashboard,
            Invocation::Doctor => Request::Doctor,
            Invocation::Help => Request::Help,
            Invocation::Version => Request::Version,
            Invocation::Unknown(token) => Request::Unknown(token@),
            Invocation::UsageError(message) => Request::UsageError(message@),
        }
    }
}

/// Whether an argument is a flag.
pub open spec fn is_flag(arg: Seq<char>) -> bool {
    arg.len() > 0 && arg[0] == '-'
}

/// Whether an argument is a flag that selects a mode or shapes its output, as
/// opposed to an unknown flag, which is a usage error wherever it appears.
pub open spec fn is_mode_flag(arg: Seq<char>) -> bool {
    arg == "--wide"@ || arg == "--json"@ || arg == "--waybar"@
}

/// Whether an argument is a flag that means nothing here.
pub open spec fn is_unknown_flag(arg: Seq<char>) -> bool {
    is_flag(arg) && !is_mode_flag(arg)
}

/// The first flag that means nothing here.
pub open spec fn first_unknown_flag(args: Seq<Seq<char>>) -> Option<Seq<char>>
    decreases args.len(),
{
    if args.len() == 0 {
        None
    } else if is_unknown_flag(args[0]) {
        Some(args[0])
    } else {
        first_unknown_flag(args.drop_first())
    }
}

/// The arguments that are no flags, in order.
pub open spec fn positionals(args: Seq<Seq<char>>) -> Seq<Seq<char>> {
    args.filter(|arg: Seq<char>| !is_flag(arg))
}

/// Whether a word names a mode.
pub open spec fn is_mode(word: Seq<char>) -> bool {
    word == "list"@ || word == "tray"@ || word == "settings"@ || word == "dashboard"@ || word
        == "doctor"@
}

/// How many of the words mean something: the mode, and the tab after `settings`.
pub open spec fn taken(words: Seq<Seq<char>>) -> int {
    if words.len() == 0 || !is_mode(words[0]) {
        0
    } else if words[0] == "settings"@ && words.len() > 1 && Tab::named(words[1]) is Some {
        2
    } else {
        1
    }
}

/// The first word that means nothing here.
pub open spec fn stray_word(words: Seq<Seq<char>>) -> Option<Seq<char>> {
    if taken(words) < words.len() {
        Some(words[taken(words)])
    } else {
        None
    }
}

/// What the words ask for where each of them means something.
pub open spec fn mode_request(words: Seq<Seq<char>>, wide: bool) -> Request {
    if words.len() == 0 || words[0] == "list"@ {
        Request::List { wide }
    } else if words[0] == "tray"@ {
        Request::Tray
    } else if words[0] == "dashboard"@ {
        Request::Dashboard
    } else if words[0] == "doctor"@ {
        Request::Doctor
    } else if words.len() > 1 {
        Request::Settings(Tab::named(words[1])->0)
    } else {
        Request::Settings(Tab::General)
    }
}

/// What the arguments ask for.
pub open spec fn requested(args: Seq<Seq<char>>) -> Request {
    let json = args.contains("--json"@);
    let waybar = args.contains("--waybar"@);
    let words = positionals(args);
    let mode = if words.len() > 0 {
        words[0]
    } else {
        "list"@
    };
    if args.contains("--help"@) || args.contains("-h"@) {
        Request::Help
    } else if args.contains("--version"@) || args.contains("-V"@) {
        Request::Version
    } else if json && waybar {
        Request::UsageError("--json and --waybar are mutually exclusive"@)
    } else if first_unknown_flag(args) is Some {
        Request::Unknown(first_unknown_flag(args)->0)
    } else if (json || waybar) && mode != "list"@ {
        Request::UsageError(
            (if json {
                "--json"@
            } else {
                "--waybar"@
            }) + " cannot be combined with `"@ + mode + "`"@,
        )
    } else if stray_word(words) is Some {
        Request::Unknown(stray_word(words)->0)
    } else if json {
        Request::Json
    } else if waybar {
        Request::Waybar
    } else {
        mode_request(words, args.contains("--wide"@))
    }
}

fn has(args: &[String], wanted: &str) -> (r: bool)
    ensures
        r == strings::texts(args@).contains(wanted@),
{
    let ghost all = strings::texts(args@);
    let mut i: usize = 0;
    while i < args.len()
        invariant
            all == strings::texts(args@),
            i <= args@.len(),
            forall|k: int| 0 <= k < i ==> #[trigger] all[k] != wanted@,
        decreases args@.len() - i,
    {
        if *args[i].as_str() == *wanted {
            assert(all[i as int] == wanted@);
            return true;
        }
        i += 1;
    }
    false
}

fn unknown_flag(args: &[String]) -> (r: Option<&str>)
    ensures
        i18n::optional_text(r) == first_unknown_flag(strings::texts(args@)),
{
    let ghost all = strings::texts(args@);
    let mut i: usize = 0;
    assert(all.skip(0) == all);
    while i < args.len()
        invariant
            all == strings::texts(args@),
            i <= args@.len(),
            first_unknown_flag(all) == first_unknown_flag(all.skip(i as int)),
        decreases args@.len() - i,
    {
        let arg = args[i].as_str();
        assert(all.skip(i as int).drop_first() == all.skip(i + 1));
        assert(all.skip(i as int)[0] == arg@);
        let mode_flag = *arg == *"--wide" || *arg == *"--json" || *arg == *"--waybar";
        if strings::begins_with_char(arg, '-') && !mode_flag {
            return Some(arg);
        }
        i += 1;
    }
    None
}

/// A word of a list of them, if it has that many.
spec fn word_at(words: Seq<Seq<char>>, i: int) -> Option<Seq<char>> {
    if i < words.len() {
        Some(words[i])
    } else {
        None
    }
}

/// The first three words that are no flags.
fn words(args: &[String]) -> (r: (Option<&str>, Option<&str>, Option<&str>))
    ensures
        ({
            let all = positionals(strings::texts(args@));
            &&& i18n::optional_text(r.0) == word_at(all, 0)
            &&& i18n::optional_text(r.1) == word_at(all, 1)
            &&& i18n::optional_text(r.2) == word_at(all, 2)
        }),
{
    let ghost all = strings::texts(args@);
    let ghost plain = |arg: Seq<char>| !is_flag(arg);
    let mut first: Option<&str> = None;
    let mut second: Option<&str> = None;
    let mut third: Option<&str> = None;
    let mut i: usize = 0;
    proof {
        reveal(Seq::filter);
        assert(all.take(0).filter(plain).len() == 0);
    }
    while i < args.len()
        invariant
            all == strings::texts(args@),
            plain == |arg: Seq<char>| !is_flag(arg),
            i <= args@.len(),
            ({
                let some = all.take(i as int).filter(plain);
                &&& i18n::optional_text(first) == word_at(some, 0)
                &&& i18n::optional_text(second) == word_at(some, 1)
                &&& i18n::optional_text(third) == word_at(some, 2)
            }),
        decreases args@.len() - i,
    {
        let arg = args[i].as_str();
        proof {
            reveal(Seq::filter);
            assert(all.take(i + 1).drop_last() == all.take(i as int));
            assert(all.take(i + 1).last() == arg@);
        }
        if !strings::begins_with_char(arg, '-') {
            if first.is_none() {
                first = Some(arg);
            } else if second.is_none() {
                second = Some(arg);
            } else if third.is_none() {
                third = Some(arg);
            }
        }
        i += 1;
    }
    assert(all.take(i as int) == all);
    (first, second, third)
}

/// Reads the command line, without the program's own name.
///
/// Unknown flags are rejected before any mode is chosen, and so is a word that
/// neither names a mode nor a tab of the settings. A mode selector
/// (`--json`, `--waybar`) only makes sense for the one-shot reading; pairing it
/// with a subcommand is a contradiction, not a preference.
pub fn parse_args(args: &[String]) -> (r: Invocation)
    ensures
        r@ == requested(strings::texts(args@)),
{
    if has(args, "--help") || has(args, "-h") {
        return Invocation::Help;
    }
    if has(args, "--version") || has(args, "-V") {
        return Invocation::Version;
    }
    let wide = has(args, "--wide");
    let json = has(args, "--json");
    let waybar = has(args, "--waybar");
    if json && waybar {
        return Invocation::UsageError("--json and --waybar are mutually exclusive".to_owned());
    }
    if let Some(flag) = unknown_flag(args) {
        return Invocation::Unknown(flag.to_owned());
    }
    let (first, second, third) = words(args);
    let mode = match first {
        None => "list",
        Some(word) => word,
    };
    if (json || waybar) && !(*mode == *"list") {
        let flag = if json {
            "--json"
        } else {
            "--waybar"
        };
        let mut message = flag.to_owned();
        message.append(" cannot be combined with `");
        message.append(mode);
        message.append("`");
        return Invocation::UsageError(message);
    }
    let settings = *mode == *"settings";
    let known = *mode == *"list" || *mode == *"tray" || settings || *mode == *"dashboard" || *mode
        == *"doctor";
    let tab = match second {
        Some(word) => Tab::from_arg(word),
        None => None,
    };
    let stray = if !known {
        first
    } else if settings && tab.is_some() {
        third
    } else {
        second
    };
    if let Some(word) = stray {
        return Invocation::Unknown(word.to_owned());
    }
    if json {
        return Invocation::Json;
    }
    if waybar {
        return Invocation::Waybar;
    }
    if *mode == *"list" {
        Invocation::List { wide }
    } else if *mode == *"tray" {
        Invocation::Tray
    } else if *mode == *"dashboard" {
        Invocation::Dashboard
    } else if *mode == *"doctor" {
        Invocation::Doctor
    } else {
        match tab {
            Some(tab) => Invocation::Settings(tab),
            None => Invocation::Settings(Tab::General),
        }
    }
}

/// What a refused command line is answered, if it is refused.
pub open spec fn complaint_text(r: Request) -> Option<Seq<char>> {
    match r {
        Request::Unknown(token) => Some("rigbat: unrecognized argument '"@ + token + "'"@),
        Request::UsageError(message) => Some("rigbat: "@ + message),
        _ => None,
    }
}

/// What a refused command line is answered, if it is refused.
pub fn complaint(invocation: &Invocation) -> (r: Option<String>)
    ensures
        (match r {
            Some(text) => Some(text@),
            None => None,
        }) == complaint_text(invocation@),
{
    match invocation {
        Invocation::Unknown(token) => {
            let mut text = "rigbat: unrecognized argument '".to_owned();
            text.append(token.as_str());
            text.append("'");
            Some(text)
        },
        Invocation::UsageError(message) => {
            let mut text = "rigbat: ".to_owned();
            text.append(message.as_str());
            Some(text)
        },
        _ => None,
    }
}

/// The exit code of a command line that runs nothing: help and the version are
/// answered, a refused one is an error.
pub fn exit_early(invocation: &Invocation) -> (code: Option<i32>)
    ensures
        code == match invocation@ {
            Request::Help | Request::Version => Some(0i32),
            Request::Unknown(_) | Request::UsageError(_) => Some(2i32),
            _ => None,
        },
{
    match invocation {
        Invocation::Help | Invocation::Version => Some(0),
        Invocation::Unknown(_) | Invocation::UsageError(_) => Some(2),
        _ => None,
    }
}

// --- logging -----------------------------------------------------------------

/// The logging defaults an `Invocation` maps to: the daemons (`tray`,
/// `settings`, and the long-lived `--waybar` module) run chatty, one-shot CLI
/// output stays quiet.
#[derive(Debug, Clone, Copy, PartialEq, Eq, Structural)]
pub enum LogProfile {
    Daemon,
    OneShot,
}

/// The profile a request has.
pub open spec fn profile_of(r: Request) -> LogProfile {
    match r {
        Request::Tray | Request::Settings(_) | Request::Dashboard | Request::Waybar =>
            LogProfile::Daemon,
        _ => LogProfile::OneShot,
    }
}

impl From<&Invocation> for LogProfile {
    fn from(invocation: &Invocation) -> (r: Self) {
        match invocation {
            Invocation::Tray
            | Invocation::Settings(_)
            | Invocation::Dashboard
            | Invocation::Waybar => LogProfile::Daemon,
            _ => LogProfile::OneShot,
        }
    }
}

impl vstd::std_specs::convert::FromSpecImpl<&Invocation> for LogProfile {
    open spec fn obeys_from_spec() -> bool {
        true
    }

    open spec fn from_spec(invocation: &Invocation) -> LogProfile {
        profile_of(invocation@)
    }
}

/// The default filter level of a profile.
pub open spec fn default_level(profile: LogProfile) -> Seq<char> {
    match profile {
        LogProfile::Daemon => "info"@,
        LogProfile::OneShot => "warn"@,
    }
}

/// The default filter directive for `profile` when neither `RIGBAT_LOG` nor
/// `RUST_LOG` is set: quiet for one-shot CLI output, chatty for the daemons.
pub fn default_filter_level(profile: LogProfile) -> (r: &'static str)
    ensures
        r@ == default_level(profile),
{
    match profile {
        LogProfile::Daemon => "info",
        LogProfile::OneShot => "warn",
    }
}

/// Picks the filter directive: `RIGBAT_LOG` wins, then `RUST_LOG`, then the
/// profile's default.
pub fn resolve_filter_directive(
    profile: LogProfile,
    rigbat_log: Option<&str>,
    rust_log: Option<&str>,
) -> (r: String)
    ensures
        r@ == match (rigbat_log, rust_log) {
            (Some(own), _) => own@,
            (None, Some(general)) => general@,
            (None, None) => default_level(profile),
        },
{
    match (rigbat_log, rust_log) {
        (Some(own), _) => own.to_owned(),
        (None, Some(general)) => general.to_owned(),
        (None, None) => default_filter_level(profile).to_owned(),
    }
}

// --- laws --------------------------------------------------------------------

proof fn first_unknown_is_unknown(args: Seq<Seq<char>>)
    ensures
        first_unknown_flag(args) is Some ==> args.contains(first_unknown_flag(args)->0)
            && is_unknown_flag(first_unknown_flag(args)->0),
        first_unknown_flag(args) is None ==> forall|i: int|
            0 <= i < args.len() ==> !is_unknown_flag(#[trigger] args[i]),
    decreases args.len(),
{
    if args.len() > 0 {
        let rest = args.drop_first();
        first_unknown_is_unknown(rest);
        if is_unknown_flag(args[0]) {
        } else {
            if first_unknown_flag(args) is Some {
                let i = rest.index_of(first_unknown_flag(args)->0);
                assert(args[i + 1] == rest[i]);
            }
            assert forall|i: int| 0 <= i < args.len() && first_unknown_flag(args) is None implies
                !is_unknown_flag(#[trigger] args[i]) by {
                if i > 0 {
                    assert(rest[i - 1] == args[i]);
                }
            }
        }
    }
}

/// A flag that means nothing here is never swallowed: unless help or the
/// version is asked for, the command line is refused.
pub proof fn an_unknown_flag_is_refused(args: Seq<Seq<char>>, i: int)
    requires
        0 <= i < args.len(),
        is_unknown_flag(args[i]),
    ensures
        requested(args) is Help || requested(args) is Version || complaint_text(
            requested(args),
        ) is Some,
{
    first_unknown_is_unknown(args);
}

/// A word that means nothing here is never swallowed: unless help or the
/// version is asked for, the command line is refused.
pub proof fn a_stray_word_is_refused(args: Seq<Seq<char>>)
    requires
        taken(positionals(args)) < positionals(args).len(),
    ensures
        requested(args) is Help || requested(args) is Version || complaint_text(
            requested(args),
        ) is Some,
{
}

/// A mode selector never silently wins over another command: beside a word
/// other than `list` the command line is refused, unless help or the version
/// is asked for.
pub proof fn a_mode_flag_beside_a_command_is_refused(args: Seq<Seq<char>>)
    requires
        args.contains("--json"@) || args.contains("--waybar"@),
        positionals(args).len() > 0,
        positionals(args)[0] != "list"@,
    ensures
        requested(args) is Help || requested(args) is Version || complaint_text(
            requested(args),
        ) is Some,
{
}

} // verus!
