//! The desktop entry that starts the tray at login.

use crate::strings;
use vstd::prelude::*;
use vstd::string::*;

verus! {

/// The systemd user unit that runs the tray.
pub const SYSTEMD_UNIT_NAME: &'static str = "rigbat.service";

/// Whether a character is escaped inside a quoted `Exec` argument.
pub open spec fn is_special(c: char) -> bool {
    c == '"' || c == '`' || c == '$' || c == '\\'
}

/// One character as it stands inside a quoted `Exec` argument.
pub open spec fn escaped_char(c: char) -> Seq<char> {
    if is_special(c) {
        seq!['\\', c]
    } else {
        seq![c]
    }
}

/// A text as it stands inside a quoted `Exec` argument.
pub open spec fn escaped(s: Seq<char>) -> Seq<char>
    decreases s.len(),
{
    if s.len() == 0 {
        Seq::empty()
    } else {
        escaped(s.drop_last()) + escaped_char(s.last())
    }
}

/// Escapes `"`, `` ` ``, `$` and `\` with a preceding backslash, as desktop
/// entries quote arguments in the `Exec` key.
pub fn escape_exec_arg(s: &str) -> (r: String)
    ensures
        r@ == escaped(s@),
{
    let chars = strings::chars_of(s);
    let mut out = String::new();
    let mut i: usize = 0;
    assert(out@ == escaped(chars@.take(0)));
    while i < chars.len()
        invariant
            i <= chars@.len(),
            out@ == escaped(chars@.take(i as int)),
        decreases chars@.len() - i,
    {
        let c = chars[i];
        let ghost before = out@;
        assert(chars@.take(i + 1).drop_last() == chars@.take(i as int));
        if c == '"' || c == '`' || c == '$' || c == '\\' {
            out.push('\\');
        }
        out.push(c);
        assert(out@ =~= before + escaped_char(c));
        i += 1;
    }
    assert(chars@.take(i as int) == s@);
    out
}

/// The desktop entry that runs the program at `exec`.
pub open spec fn entry_text(exec: Seq<char>) -> Seq<char> {
    "[Desktop Entry]\nType=Application\nName=rigbat\nComment=Battery monitor for gaming peripherals\nExec=\""@
        + escaped(exec) + "\" tray\nTerminal=false\nX-GNOME-Autostart-enabled=true\n"@
}

/// Builds the `.desktop` file body. `exec` is the absolute path to the binary.
///
/// The `Exec` value is double-quoted so paths containing spaces remain valid.
pub fn desktop_entry(exec: &str) -> (r: String)
    ensures
        r@ == entry_text(exec@),
{
    let mut r = "[Desktop Entry]\nType=Application\nName=rigbat\nComment=Battery monitor for gaming peripherals\nExec=\"".to_owned();
    r.append(escape_exec_arg(exec).as_str());
    r.append("\" tray\nTerminal=false\nX-GNOME-Autostart-enabled=true\n");
    r
}

// --- laws --------------------------------------------------------------------

/// What a quoted argument stands for: a backslash makes the next character
/// stand for itself.
pub open spec fn unescaped(s: Seq<char>) -> Seq<char>
    decreases s.len(),
{
    if s.len() == 0 {
        Seq::empty()
    } else if s[0] == '\\' && s.len() > 1 {
        seq![s[1]] + unescaped(s.skip(2))
    } else {
        seq![s[0]] + unescaped(s.skip(1))
    }
}

proof fn escaping_from_the_front(s: Seq<char>)
    requires
        s.len() > 0,
    ensures
        escaped(s) == escaped_char(s[0]) + escaped(s.skip(1)),
    decreases s.len(),
{
    if s.len() == 1 {
        assert(s.drop_last() =~= Seq::empty());
        assert(s.skip(1) =~= Seq::empty());
        assert(escaped(s) =~= escaped_char(s[0]) + escaped(s.skip(1)));
    } else {
        escaping_from_the_front(s.drop_last());
        assert(s.drop_last().skip(1) =~= s.skip(1).drop_last());
        assert(s.skip(1).last() == s.last());
        assert(escaped(s) =~= escaped_char(s[0]) + escaped(s.skip(1)));
    }
}

/// Escaping loses nothing: what the entry quotes stands for the path it was
/// given.
pub proof fn escaping_is_reversible(s: Seq<char>)
    ensures
        unescaped(escaped(s)) == s,
    decreases s.len(),
{
    if s.len() > 0 {
        escaping_from_the_front(s);
        escaping_is_reversible(s.skip(1));
        let e = escaped(s);
        let rest = escaped(s.skip(1));
        if is_special(s[0]) {
            assert(e[0] == '\\' && e[1] == s[0]);
            assert(e.skip(2) =~= rest);
        } else {
            assert(e[0] == s[0]);
            assert(e.skip(1) =~= rest);
        }
        assert(unescaped(e) =~= seq![s[0]] + s.skip(1));
        assert(seq![s[0]] + s.skip(1) =~= s);
    }
}

/// Whether no quote stands in `s` but behind a backslash that is not itself
/// escaped.
pub open spec fn stays_quoted(s: Seq<char>) -> bool
    decreases s.len(),
{
    if s.len() == 0 {
        true
    } else if s[0] == '\\' {
        s.len() > 1 && stays_quoted(s.skip(2))
    } else {
        !is_special(s[0]) && stays_quoted(s.skip(1))
    }
}

/// No path ends the quotes early or smuggles in an expansion.
pub proof fn escaped_paths_stay_quoted(s: Seq<char>)
    ensures
        stays_quoted(escaped(s)),
    decreases s.len(),
{
    if s.len() > 0 {
        escaping_from_the_front(s);
        escaped_paths_stay_quoted(s.skip(1));
        let e = escaped(s);
        let rest = escaped(s.skip(1));
        if is_special(s[0]) {
            assert(e[0] == '\\' && e[1] == s[0]);
            assert(e.skip(2) =~= rest);
        } else {
            assert(e[0] == s[0]);
            assert(e.skip(1) =~= rest);
        }
    }
}

} // verus!
