//! `rigbat doctor`: one-shot checks that explain why rigbat shows nothing or
//! "offline", each problem paired with the command that fixes it.
//!
//! Probes gather facts elsewhere; these functions turn facts into `Check`s.

use crate::autostart::SYSTEMD_UNIT_NAME;
use crate::ipc::TRAY_NAME;
use crate::strings;
use crate::domain::types;
use vstd::prelude::*;
use vstd::string::*;

verus! {

pub const SNI_WATCHER: &'static str = "org.kde.StatusNotifierWatcher";

pub const BLUEZ: &'static str = "org.bluez";

pub const UDEV_RULE: &'static str = "70-rigbat.rules";

/// Where udev rules are installed.
pub const UDEV_RULE_DIRS: [&'static str; 2] = ["/etc/udev/rules.d", "/usr/lib/udev/rules.d"];

/// Seconds a bus probe may take.
pub const BUS_TIMEOUT_SECS: u64 = 3;

/// Seconds the portal probe may take: the portal may be D-Bus activated on
/// first use, which takes longer than a plain name lookup.
pub const PORTAL_TIMEOUT_SECS: u64 = 5;

#[derive(Debug, Clone, Copy, PartialEq, Eq, Structural)]
pub enum Status {
    Pass,
    Warn,
    Fail,
}

impl Status {
    /// The word a report uses.
    pub open spec fn word(self) -> Seq<char> {
        match self {
            Status::Pass => "ok"@,
            Status::Warn => "warn"@,
            Status::Fail => "fail"@,
        }
    }

    /// The word a report uses.
    pub fn as_str(self) -> (r: &'static str)
        ensures
            r@ == self.word(),
    {
        match self {
            Status::Pass => "ok",
            Status::Warn => "warn",
            Status::Fail => "fail",
        }
    }
}

#[derive(Debug, PartialEq, Eq)]
pub struct Check {
    pub status: Status,
    pub summary: String,
    pub fix: Option<String>,
}

/// What a `Check` says, with texts as their characters.
pub struct Finding {
    pub status: Status,
    pub summary: Seq<char>,
    pub fix: Option<Seq<char>>,
}

impl View for Check {
    type V = Finding;

    open spec fn view(&self) -> Finding {
        Finding {
            status: self.status,
            summary: self.summary@,
            fix: types::locator_text(self.fix),
        }
    }
}

/// A finding that nothing is wrong.
pub open spec fn passed(summary: Seq<char>) -> Finding {
    Finding { status: Status::Pass, summary, fix: None }
}

/// A finding that something works less well than it could.
pub open spec fn warned(summary: Seq<char>, fix: Seq<char>) -> Finding {
    Finding { status: Status::Warn, summary, fix: Some(fix) }
}

/// A finding that something does not work.
pub open spec fn failed(summary: Seq<char>, fix: Seq<char>) -> Finding {
    Finding { status: Status::Fail, summary, fix: Some(fix) }
}

impl Check {
    pub fn ok(summary: String) -> (c: Self)
        ensures
            c@ == passed(summary@),
    {
        Self { status: Status::Pass, summary, fix: None }
    }

    pub fn warn(summary: String, fix: String) -> (c: Self)
        ensures
            c@ == warned(summary@, fix@),
    {
        Self { status: Status::Warn, summary, fix: Some(fix) }
    }

    pub fn fail(summary: String, fix: String) -> (c: Self)
        ensures
            c@ == failed(summary@, fix@),
    {
        Self { status: Status::Fail, summary, fix: Some(fix) }
    }
}

/// What the checks of a list say.
pub open spec fn findings(checks: Seq<Check>) -> Seq<Finding> {
    checks.map_values(|c: Check| c@)
}

/// How rigbat is set up to start at login.
#[derive(Debug, Clone, Copy, PartialEq, Eq, Structural)]
pub struct Startup {
    pub unit_installed: bool,
    pub unit_enabled: bool,
    pub autostart_entry: bool,
}

impl Default for Startup {
    fn default() -> (r: Self)
        ensures
            !r.unit_installed && !r.unit_enabled && !r.autostart_entry,
    {
        Startup { unit_installed: false, unit_enabled: false, autostart_entry: false }
    }
}

/// Session-bus names that decide whether a tray icon can appear.
#[derive(Debug, Clone, Copy, PartialEq, Eq, Structural)]
pub struct SessionFacts {
    pub tray_host: bool,
    pub tray_running: bool,
}

/// Why a node could not be opened.
#[derive(Debug, PartialEq, Eq)]
pub enum OpenError {
    PermissionDenied,
    /// Anything else, in the system's words.
    Other(String),
}

/// One supported device's hidraw node and the outcome of opening it read-write.
#[derive(Debug, PartialEq, Eq)]
pub struct NodeProbe {
    pub device: String,
    pub dev_path: String,
    pub open: Result<(), OpenError>,
}

// --- the session -------------------------------------------------------------

/// How a tray that does not run is started.
pub open spec fn tray_start_text(startup: Startup) -> Seq<char> {
    let unit = SYSTEMD_UNIT_NAME@;
    if startup.unit_enabled {
        "systemctl --user restart "@ + unit + "; if it stops again: journalctl --user -u "@ + unit
            + " -e"@
    } else if startup.unit_installed {
        "systemctl --user enable --now "@ + unit
    } else if startup.autostart_entry {
        "it starts at the next login; to start it now: setsid -f rigbat tray"@
    } else {
        "make service enable (from the source tree), or run: setsid -f rigbat tray"@
    }
}

fn tray_start_fix(startup: Startup) -> (r: String)
    ensures
        r@ == tray_start_text(startup),
{
    let unit = SYSTEMD_UNIT_NAME;
    if startup.unit_enabled {
        let mut r = "systemctl --user restart ".to_owned();
        r.append(unit);
        r.append("; if it stops again: journalctl --user -u ");
        r.append(unit);
        r.append(" -e");
        r
    } else if startup.unit_installed {
        let mut r = "systemctl --user enable --now ".to_owned();
        r.append(unit);
        r
    } else if startup.autostart_entry {
        "it starts at the next login; to start it now: setsid -f rigbat tray".to_owned()
    } else {
        "make service enable (from the source tree), or run: setsid -f rigbat tray".to_owned()
    }
}

/// What to say about the tray host.
pub open spec fn host_finding(tray_host: bool) -> Finding {
    if tray_host {
        passed("tray host present ("@ + SNI_WATCHER@ + " is owned)"@)
    } else {
        failed(
            "no tray host: "@ + SNI_WATCHER@ + " has no owner, so tray icons cannot appear"@,
            "enable your panel's system tray (StatusNotifierItem) applet; on an XEmbed-only tray run `snixembed`"@,
        )
    }
}

/// What to say about the tray itself.
pub open spec fn tray_finding(tray_running: bool, startup: Startup) -> Finding {
    if tray_running {
        passed("rigbat tray is running ("@ + TRAY_NAME@ + " is owned)"@)
    } else {
        warned("rigbat tray is not running"@, tray_start_text(startup))
    }
}

/// What to say about the session bus and what is on it.
pub open spec fn session_findings(
    session: Result<SessionFacts, String>,
    startup: Startup,
) -> Seq<Finding> {
    match session {
        Err(e) => seq![
            failed(
                "session D-Bus unreachable: "@ + e@,
                "run rigbat inside a desktop session (DBUS_SESSION_BUS_ADDRESS must be set)"@,
            ),
        ],
        Ok(facts) => seq![
            passed("session D-Bus reachable"@),
            host_finding(facts.tray_host),
            tray_finding(facts.tray_running, startup),
        ],
    }
}

/// `session` is what the session bus says, or why it could not be asked.
pub fn session_checks(session: Result<SessionFacts, String>, startup: Startup) -> (checks: Vec<
    Check,
>)
    ensures
        findings(checks@) == session_findings(session, startup),
{
    let mut checks: Vec<Check> = Vec::new();
    let facts = match &session {
        Ok(facts) => facts,
        Err(e) => {
            let mut summary = "session D-Bus unreachable: ".to_owned();
            summary.append(e.as_str());
            checks.push(
                Check::fail(
                    summary,
                    "run rigbat inside a desktop session (DBUS_SESSION_BUS_ADDRESS must be set)".to_owned(),
                ),
            );
            assert(findings(checks@) =~= session_findings(session, startup));
            return checks;
        },
    };
    checks.push(Check::ok("session D-Bus reachable".to_owned()));
    if facts.tray_host {
        let mut summary = "tray host present (".to_owned();
        summary.append(SNI_WATCHER);
        summary.append(" is owned)");
        checks.push(Check::ok(summary));
    } else {
        let mut summary = "no tray host: ".to_owned();
        summary.append(SNI_WATCHER);
        summary.append(" has no owner, so tray icons cannot appear");
        checks.push(
            Check::fail(
                summary,
                "enable your panel's system tray (StatusNotifierItem) applet; on an XEmbed-only tray run `snixembed`".to_owned(),
            ),
        );
    }
    if facts.tray_running {
        let mut summary = "rigbat tray is running (".to_owned();
        summary.append(TRAY_NAME);
        summary.append(" is owned)");
        checks.push(Check::ok(summary));
    } else {
        checks.push(Check::warn("rigbat tray is not running".to_owned(), tray_start_fix(startup)));
    }
    assert(findings(checks@) =~= session_findings(session, startup));
    checks
}

/// What to say about how the tray starts at login.
pub open spec fn startup_finding(startup: Startup) -> Finding {
    if startup.unit_enabled && startup.autostart_entry {
        warned(
            "both the systemd unit and the autostart entry start rigbat tray; the second one exits"@,
            "keep one: systemctl --user disable --now "@ + SYSTEMD_UNIT_NAME@
                + " or rm ~/.config/autostart/rigbat.desktop"@,
        )
    } else if startup.unit_enabled {
        passed("starts at login via systemd ("@ + SYSTEMD_UNIT_NAME@ + ")"@)
    } else if startup.autostart_entry {
        passed("starts at login via ~/.config/autostart/rigbat.desktop"@)
    } else {
        passed("not started at login (optional)"@)
    }
}

pub fn startup_check(startup: Startup) -> (c: Check)
    ensures
        c@ == startup_finding(startup),
{
    if startup.unit_enabled && startup.autostart_entry {
        let mut fix = "keep one: systemctl --user disable --now ".to_owned();
        fix.append(SYSTEMD_UNIT_NAME);
        fix.append(" or rm ~/.config/autostart/rigbat.desktop");
        Check::warn(
            "both the systemd unit and the autostart entry start rigbat tray; the second one exits".to_owned(),
            fix,
        )
    } else if startup.unit_enabled {
        let mut summary = "starts at login via systemd (".to_owned();
        summary.append(SYSTEMD_UNIT_NAME);
        summary.append(")");
        Check::ok(summary)
    } else if startup.autostart_entry {
        Check::ok("starts at login via ~/.config/autostart/rigbat.desktop".to_owned())
    } else {
        Check::ok("not started at login (optional)".to_owned())
    }
}

/// What to say about BlueZ.
pub open spec fn bluez_finding(bluez: Result<bool, String>) -> Finding {
    match bluez {
        Ok(true) => passed("BlueZ present ("@ + BLUEZ@ + " on the system bus)"@),
        Ok(false) => warned(
            BLUEZ@ + " has no owner: Bluetooth devices will not show"@,
            "sudo systemctl enable --now bluetooth.service"@,
        ),
        Err(e) => warned(
            "system D-Bus unreachable: "@ + e@ + "; Bluetooth devices will not show"@,
            "check that the system dbus service is running: systemctl status dbus.service"@,
        ),
    }
}

/// `bluez` is whether BlueZ is on the system bus, or why that is unknown.
pub fn bluez_check(bluez: Result<bool, String>) -> (c: Check)
    ensures
        c@ == bluez_finding(bluez),
{
    match bluez {
        Ok(true) => {
            let mut summary = "BlueZ present (".to_owned();
            summary.append(BLUEZ);
            summary.append(" on the system bus)");
            Check::ok(summary)
        },
        Ok(false) => {
            let mut summary = BLUEZ.to_owned();
            summary.append(" has no owner: Bluetooth devices will not show");
            Check::warn(summary, "sudo systemctl enable --now bluetooth.service".to_owned())
        },
        Err(e) => {
            let mut summary = "system D-Bus unreachable: ".to_owned();
            summary.append(e.as_str());
            summary.append("; Bluetooth devices will not show");
            Check::warn(
                summary,
                "check that the system dbus service is running: systemctl status dbus.service".to_owned(),
            )
        },
    }
}

/// What to say about the desktop portal.
pub open spec fn portal_finding(portal: Result<(), String>) -> Finding {
    match portal {
        Ok(()) => passed("xdg-desktop-portal Settings answers"@),
        Err(e) => warned(
            "xdg-desktop-portal Settings unavailable: "@ + e@ + "; the theme falls back to dark"@,
            "install xdg-desktop-portal and your desktop's portal backend, then log in again"@,
        ),
    }
}

/// `portal` is whether the portal answers, or why not.
pub fn portal_check(portal: Result<(), String>) -> (c: Check)
    ensures
        c@ == portal_finding(portal),
{
    match portal {
        Ok(()) => Check::ok("xdg-desktop-portal Settings answers".to_owned()),
        Err(e) => {
            let mut summary = "xdg-desktop-portal Settings unavailable: ".to_owned();
            summary.append(e.as_str());
            summary.append("; the theme falls back to dark");
            Check::warn(
                summary,
                "install xdg-desktop-portal and your desktop's portal backend, then log in again".to_owned(),
            )
        },
    }
}

// --- devices -----------------------------------------------------------------

/// How a missing permission is granted.
pub open spec fn udev_fix_text(installed_rule: Option<Seq<char>>) -> Seq<char> {
    match installed_rule {
        Some(rule) => rule
            + " is installed but not applied: sudo udevadm control --reload-rules && sudo udevadm trigger, then replug the device"@,
        None => UDEV_RULE@ + " is not installed in "@ + UDEV_RULE_DIRS@[0]@ + " or "@
            + UDEV_RULE_DIRS@[1]@
            + ": sudo make udev-install (from the source tree), then replug the device"@,
    }
}

fn udev_fix(installed_rule: &Option<String>) -> (r: String)
    ensures
        r@ == udev_fix_text(types::locator_text(*installed_rule)),
{
    match installed_rule {
        Some(rule) => {
            let mut r = rule.clone();
            r.append(
                " is installed but not applied: sudo udevadm control --reload-rules && sudo udevadm trigger, then replug the device",
            );
            r
        },
        None => {
            let dirs = UDEV_RULE_DIRS;
            let mut r = UDEV_RULE.to_owned();
            r.append(" is not installed in ");
            r.append(dirs[0]);
            r.append(" or ");
            r.append(dirs[1]);
            r.append(": sudo make udev-install (from the source tree), then replug the device");
            r
        },
    }
}

/// What to say about one node.
pub open spec fn node_finding(node: NodeProbe, installed_rule: Option<Seq<char>>) -> Finding {
    let what = node.device@ + " ("@ + node.dev_path@ + ")"@;
    match node.open {
        Ok(()) => passed(what + " opens read-write"@),
        Err(OpenError::PermissionDenied) => failed(
            what + ": permission denied, the device will show offline"@,
            udev_fix_text(installed_rule),
        ),
        Err(OpenError::Other(e)) => warned(
            what + ": cannot open: "@ + e@,
            "replug the device and run rigbat doctor again"@,
        ),
    }
}

fn node_check(node: &NodeProbe, installed_rule: &Option<String>) -> (c: Check)
    ensures
        c@ == node_finding(*node, types::locator_text(*installed_rule)),
{
    let mut what = node.device.clone();
    what.append(" (");
    what.append(node.dev_path.as_str());
    what.append(")");
    match &node.open {
        Ok(()) => {
            what.append(" opens read-write");
            Check::ok(what)
        },
        Err(OpenError::PermissionDenied) => {
            what.append(": permission denied, the device will show offline");
            Check::fail(what, udev_fix(installed_rule))
        },
        Err(OpenError::Other(e)) => {
            what.append(": cannot open: ");
            what.append(e.as_str());
            Check::warn(what, "replug the device and run rigbat doctor again".to_owned())
        },
    }
}

/// What to say about the nodes.
pub open spec fn hidraw_findings(nodes: Seq<NodeProbe>, installed_rule: Option<Seq<char>>) -> Seq<
    Finding,
> {
    if nodes.len() == 0 {
        seq![passed("no supported USB HID device connected"@)]
    } else {
        nodes.map_values(|n: NodeProbe| node_finding(n, installed_rule))
    }
}

/// `installed_rule` is where the udev rule is installed, if it is.
pub fn hidraw_checks(nodes: &[NodeProbe], installed_rule: &Option<String>) -> (checks: Vec<Check>)
    ensures
        findings(checks@) == hidraw_findings(nodes@, types::locator_text(*installed_rule)),
{
    let mut checks: Vec<Check> = Vec::new();
    if nodes.len() == 0 {
        checks.push(Check::ok("no supported USB HID device connected".to_owned()));
        assert(findings(checks@) =~= seq![passed("no supported USB HID device connected"@)]);
        return checks;
    }
    let ghost rule = types::locator_text(*installed_rule);
    let mut i: usize = 0;
    while i < nodes.len()
        invariant
            rule == types::locator_text(*installed_rule),
            i <= nodes@.len(),
            checks@.len() == i,
            forall|k: int| 0 <= k < i ==> (#[trigger] checks@[k])@ == node_finding(nodes@[k], rule),
        decreases nodes@.len() - i,
    {
        checks.push(node_check(&nodes[i], installed_rule));
        i += 1;
    }
    assert(findings(checks@) =~= nodes@.map_values(|n: NodeProbe| node_finding(n, rule)));
    checks
}

/// Where the rule would stand in a directory.
pub open spec fn rule_path(dir: Seq<char>) -> Seq<char> {
    if dir.len() == 0 || dir.last() == '/' {
        dir + UDEV_RULE@
    } else {
        dir + "/"@ + UDEV_RULE@
    }
}

fn rule_in(dir: &str) -> (r: String)
    ensures
        r@ == rule_path(dir@),
{
    let chars = strings::chars_of(dir);
    let mut r = dir.to_owned();
    if chars.len() > 0 && chars[chars.len() - 1] != '/' {
        r.append("/");
    }
    r.append(UDEV_RULE);
    r
}

/// Whether `exists` can have answered `yes` for a path that reads `path`.
pub open spec fn says<F: Fn(&str) -> bool>(exists_at: F, path: Seq<char>, yes: bool) -> bool {
    exists|p: &str| p@ == path && #[trigger] exists_at.ensures((p,), yes)
}

/// The first of the directories that holds the rule, as `exists_at` tells, and
/// the rule's path in it.
pub fn find_udev_rule<F: Fn(&str) -> bool>(dirs: &[&str], exists_at: F) -> (r: Option<String>)
    requires
        forall|p: &str| #[trigger] exists_at.requires((p,)),
    ensures
        r matches Some(path) ==> exists|i: int|
            #![trigger dirs@[i]]
            0 <= i < dirs@.len() && path@ == rule_path(dirs@[i]@) && says(exists_at, path@, true)
                && forall|k: int|
                0 <= k < i ==> says(exists_at, rule_path((#[trigger] dirs@[k])@), false),
        r is None ==> forall|k: int|
            0 <= k < dirs@.len() ==> says(exists_at, rule_path((#[trigger] dirs@[k])@), false),
{
    let mut i: usize = 0;
    while i < dirs.len()
        invariant
            forall|p: &str| #[trigger] exists_at.requires((p,)),
            i <= dirs@.len(),
            forall|k: int|
                0 <= k < i ==> says(exists_at, rule_path((#[trigger] dirs@[k])@), false),
        decreases dirs@.len() - i,
    {
        let path = rule_in(dirs[i]);
        let found = exists_at(path.as_str());
        assert(says(exists_at, path@, found));
        if found {
            assert(path@ == rule_path(dirs@[i as int]@));
            return Some(path);
        }
        i += 1;
    }
    None
}

// --- files -------------------------------------------------------------------

/// What to say about the config file.
pub open spec fn config_finding(path: Option<Seq<char>>, config: Result<bool, String>) -> Finding {
    match path {
        None => warned(
            "no config directory (HOME unset?); settings cannot be saved"@,
            "set HOME or XDG_CONFIG_HOME"@,
        ),
        Some(p) => match config {
            Ok(true) => passed("config parses ("@ + p + ")"@),
            Ok(false) => passed("no config file yet, defaults apply ("@ + p + ")"@),
            Err(e) => failed(
                "config ignored, defaults apply: "@ + e@,
                "fix the JSON in "@ + p + ", or reset it: rm "@ + p,
            ),
        },
    }
}

/// `config` is whether there is a config file, or why it cannot be read.
pub fn config_check(path: Option<&str>, config: Result<bool, String>) -> (c: Check)
    ensures
        c@ == config_finding(
            match path {
                Some(p) => Some(p@),
                None => None,
            },
            config,
        ),
{
    let p = match path {
        Some(p) => p,
        None => {
            return Check::warn(
                "no config directory (HOME unset?); settings cannot be saved".to_owned(),
                "set HOME or XDG_CONFIG_HOME".to_owned(),
            );
        },
    };
    match config {
        Ok(true) => {
            let mut summary = "config parses (".to_owned();
            summary.append(p);
            summary.append(")");
            Check::ok(summary)
        },
        Ok(false) => {
            let mut summary = "no config file yet, defaults apply (".to_owned();
            summary.append(p);
            summary.append(")");
            Check::ok(summary)
        },
        Err(e) => {
            let mut summary = "config ignored, defaults apply: ".to_owned();
            summary.append(e.as_str());
            let mut fix = "fix the JSON in ".to_owned();
            fix.append(p);
            fix.append(", or reset it: rm ");
            fix.append(p);
            Check::fail(summary, fix)
        },
    }
}

/// What to say about the state database.
pub open spec fn state_finding(path: Option<Seq<char>>, store: Result<(), String>) -> Finding {
    match path {
        None => warned(
            "no state directory (HOME unset?); device inventory and history are off"@,
            "set HOME or XDG_STATE_HOME"@,
        ),
        Some(p) => match store {
            Ok(()) => passed("state database opens ("@ + p + ")"@),
            Err(e) => warned(
                "state database unusable, inventory and history are off: "@ + e@,
                "move the file aside, rigbat recreates it: mv "@ + p + " "@ + p + ".bak"@,
            ),
        },
    }
}

/// `store` is whether the database opens, or why not.
pub fn state_check(path: Option<&str>, store: Result<(), String>) -> (c: Check)
    ensures
        c@ == state_finding(
            match path {
                Some(p) => Some(p@),
                None => None,
            },
            store,
        ),
{
    let p = match path {
        Some(p) => p,
        None => {
            return Check::warn(
                "no state directory (HOME unset?); device inventory and history are off".to_owned(),
                "set HOME or XDG_STATE_HOME".to_owned(),
            );
        },
    };
    match store {
        Ok(()) => {
            let mut summary = "state database opens (".to_owned();
            summary.append(p);
            summary.append(")");
            Check::ok(summary)
        },
        Err(e) => {
            let mut summary = "state database unusable, inventory and history are off: ".to_owned();
            summary.append(e.as_str());
            let mut fix = "move the file aside, rigbat recreates it: mv ".to_owned();
            fix.append(p);
            fix.append(" ");
            fix.append(p);
            fix.append(".bak");
            Check::warn(summary, fix)
        },
    }
}

// --- the report --------------------------------------------------------------

/// The lines one finding takes in the report.
pub open spec fn finding_text(f: Finding) -> Seq<char> {
    let line = strings::padded(f.status.word(), 4) + "  "@ + f.summary + "\n"@;
    match f.fix {
        Some(fix) => line + "      fix: "@ + fix + "\n"@,
        None => line,
    }
}

/// The report.
pub open spec fn report_text(list: Seq<Finding>) -> Seq<char>
    decreases list.len(),
{
    if list.len() == 0 {
        Seq::empty()
    } else {
        report_text(list.drop_last()) + finding_text(list.last())
    }
}

pub fn render(checks: &[Check]) -> (r: String)
    ensures
        r@ == report_text(findings(checks@)),
{
    let ghost all = findings(checks@);
    let mut out = String::new();
    let mut i: usize = 0;
    assert(out@ == report_text(all.take(0)));
    while i < checks.len()
        invariant
            all == findings(checks@),
            i <= checks@.len(),
            out@ == report_text(all.take(i as int)),
        decreases checks@.len() - i,
    {
        let ghost before = out@;
        proof {
            assert(all.take(i + 1).drop_last() == all.take(i as int));
            assert(all.take(i + 1).last() == checks@[i as int]@);
        }
        let mut line = strings::pad(checks[i].status.as_str(), 4);
        line.append("  ");
        line.append(checks[i].summary.as_str());
        line.append("\n");
        match &checks[i].fix {
            Some(fix) => {
                line.append("      fix: ");
                line.append(fix.as_str());
                line.append("\n");
            },
            None => {},
        }
        assert(line@ == finding_text(checks@[i as int]@));
        out.append(line.as_str());
        i += 1;
    }
    assert(all.take(i as int) == all);
    out
}

/// 1 if anything does not work; a warning alone is no failure.
pub fn exit_code(checks: &[Check]) -> (code: i32)
    ensures
        code == if exists|i: int|
            0 <= i < checks@.len() && (#[trigger] checks@[i]).status == Status::Fail {
            1i32
        } else {
            0i32
        },
{
    let mut i: usize = 0;
    while i < checks.len()
        invariant
            i <= checks@.len(),
            forall|k: int| 0 <= k < i ==> (#[trigger] checks@[k]).status != Status::Fail,
        decreases checks@.len() - i,
    {
        if checks[i].status == Status::Fail {
            return 1;
        }
        i += 1;
    }
    0
}

// --- laws --------------------------------------------------------------------

/// Whether a finding that something is wrong names what to do about it, and
/// one that nothing is wrong names nothing.
pub open spec fn is_actionable(f: Finding) -> bool {
    (f.status == Status::Pass) == (f.fix is None)
}

/// Every problem is paired with a fix, and only problems are.
pub proof fn every_problem_has_a_fix(
    session: Result<SessionFacts, String>,
    startup: Startup,
    bluez: Result<bool, String>,
    portal: Result<(), String>,
    nodes: Seq<NodeProbe>,
    rule: Option<Seq<char>>,
    path: Option<Seq<char>>,
    config: Result<bool, String>,
    store: Result<(), String>,
)
    ensures
        forall|i: int|
            0 <= i < session_findings(session, startup).len() ==> is_actionable(
                #[trigger] session_findings(session, startup)[i],
            ),
        is_actionable(startup_finding(startup)),
        is_actionable(bluez_finding(bluez)),
        is_actionable(portal_finding(portal)),
        forall|i: int|
            0 <= i < hidraw_findings(nodes, rule).len() ==> is_actionable(
                #[trigger] hidraw_findings(nodes, rule)[i],
            ),
        is_actionable(config_finding(path, config)),
        is_actionable(state_finding(path, store)),
{
}

/// What is optional only ever warns: Bluetooth, the portal, the login setup
/// and the state database never make the report fail.
pub proof fn optional_parts_only_warn(
    startup: Startup,
    bluez: Result<bool, String>,
    portal: Result<(), String>,
    path: Option<Seq<char>>,
    store: Result<(), String>,
)
    ensures
        startup_finding(startup).status != Status::Fail,
        bluez_finding(bluez).status != Status::Fail,
        portal_finding(portal).status != Status::Fail,
        state_finding(path, store).status != Status::Fail,
{
}

} // verus!
