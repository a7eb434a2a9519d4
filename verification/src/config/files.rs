//! Decisions about the config file: how a save's temporary file is named, and
//! which file-system events mean that the file has new content.

use crate::domain::types;
use crate::strings;
use vstd::prelude::*;
use vstd::string::*;

verus! {

/// `path` without what follows its last component: slashes, and dots that stand
/// for the directory they are in.
pub open spec fn trimmed(path: Seq<char>) -> Seq<char>
    decreases path.len(),
{
    if path.len() > 0 && (path.last() == '/' || (path.len() >= 2 && path.last() == '.'
        && path[path.len() - 2] == '/')) {
        trimmed(path.drop_last())
    } else {
        path
    }
}

/// Whether a trimmed path ends in the name of a file.
pub open spec fn names_a_file(path: Seq<char>) -> bool {
    let n = path.len();
    &&& n > 0
    &&& !(n == 1 && path[0] == '.')
    &&& !(n >= 2 && path[n - 1] == '.' && path[n - 2] == '.' && (n == 2 || path[n - 3] == '/'))
}

/// Where the extension of `path` starts: at the last dot of its last
/// component, unless that component has none or begins with its only one.
pub open spec fn extension_start(path: Seq<char>) -> int
    decreases path.len(),
{
    if path.len() == 0 || path.last() == '/' {
        -1
    } else if path.last() == '.' && path.len() >= 2 && path[path.len() - 2] != '/' {
        path.len() - 1
    } else {
        extension_start(path.drop_last())
    }
}

/// `path` without its extension.
pub open spec fn stem(path: Seq<char>) -> Seq<char> {
    if extension_start(path) < 0 {
        path
    } else {
        path.take(extension_start(path))
    }
}

/// The temporary file of save number `n` of process `pid`. A path without a
/// file's name is left as it is.
pub open spec fn tmp_path(path: Seq<char>, pid: u32, n: u32) -> Seq<char> {
    if names_a_file(trimmed(path)) {
        stem(trimmed(path)) + ".json."@ + strings::decimal(pid as nat) + "-"@ + strings::decimal(
            n as nat,
        ) + ".tmp"@
    } else {
        path
    }
}

/// The length of the trimmed path.
fn trimmed_len(chars: &Vec<char>) -> (end: usize)
    ensures
        end <= chars@.len(),
        chars@.take(end as int) == trimmed(chars@),
{
    let mut end: usize = chars.len();
    assert(chars@.take(end as int) == chars@);
    while end > 0 && (chars[end - 1] == '/' || (end >= 2 && chars[end - 1] == '.' && chars[end - 2]
        == '/'))
        invariant
            end <= chars@.len(),
            trimmed(chars@) == trimmed(chars@.take(end as int)),
        decreases end,
    {
        assert(chars@.take(end as int).drop_last() == chars@.take(end - 1));
        end -= 1;
    }
    end
}

/// The length of the stem of the first `whole` characters.
fn stem_len(chars: &Vec<char>, whole: usize) -> (end: usize)
    requires
        whole <= chars@.len(),
    ensures
        end <= whole,
        chars@.take(end as int) == stem(chars@.take(whole as int)),
{
    let ghost path = chars@.take(whole as int);
    let mut end: usize = whole;
    assert(path.take(end as int) == path);
    while end > 0 && chars[end - 1] != '/'
        invariant
            path == chars@.take(whole as int),
            end <= whole <= chars@.len(),
            extension_start(path) == extension_start(path.take(end as int)),
        decreases end,
    {
        let ghost part = path.take(end as int);
        if chars[end - 1] == '.' && end >= 2 && chars[end - 2] != '/' {
            assert(path.take(end - 1) == chars@.take(end - 1));
            return end - 1;
        }
        assert(part.drop_last() == path.take(end - 1));
        end -= 1;
    }
    whole
}

/// The characters from `start` to before `end`.
fn part(chars: &Vec<char>, start: usize, end: usize) -> (r: String)
    requires
        start <= end <= chars@.len(),
    ensures
        r@ == chars@.subrange(start as int, end as int),
{
    let mut r = String::new();
    let mut i: usize = start;
    while i < end
        invariant
            start <= i <= end <= chars@.len(),
            r@ == chars@.subrange(start as int, i as int),
        decreases end - i,
    {
        assert(chars@.subrange(start as int, i + 1) == chars@.subrange(
            start as int,
            i as int,
        ).push(chars@[i as int]));
        r.push(chars[i]);
        i += 1;
    }
    r
}

/// Whether the first `whole` characters end in the name of a file.
fn has_file(chars: &Vec<char>, whole: usize) -> (r: bool)
    requires
        whole <= chars@.len(),
    ensures
        r == names_a_file(chars@.take(whole as int)),
{
    whole > 0 && !(whole == 1 && chars[0] == '.') && !(whole >= 2 && chars[whole - 1] == '.'
        && chars[whole - 2] == '.' && (whole == 2 || chars[whole - 3] == '/'))
}

/// Builds the atomic-save temp path for `path`, unique to `pid` and to save
/// number `n` within that process (`config.json` → `config.json.<pid>-<n>.tmp`).
pub fn unique_tmp_path(path: &str, pid: u32, n: u32) -> (r: String)
    ensures
        r@ == tmp_path(path@, pid, n),
{
    let chars = strings::chars_of(path);
    let whole: usize = trimmed_len(&chars);
    if !has_file(&chars, whole) {
        return path.to_owned();
    }
    let end: usize = stem_len(&chars, whole);
    let mut r = part(&chars, 0, end);
    assert(chars@.subrange(0, end as int) == chars@.take(end as int));
    r.append(".json.");
    r.append(strings::decimal_text(pid as u64).as_str());
    r.append("-");
    r.append(strings::decimal_text(n as u64).as_str());
    r.append(".tmp");
    r
}

/// Two saves never share a temporary file: neither two processes nor two saves
/// of one process.
pub proof fn tmp_paths_differ(path: Seq<char>, pid: u32, n: u32, other_pid: u32, other_n: u32)
    requires
        names_a_file(trimmed(path)),
        pid != other_pid || n != other_n,
    ensures
        tmp_path(path, pid, n) != tmp_path(path, other_pid, other_n),
{
    let head = stem(trimmed(path)) + ".json."@;
    let a = strings::decimal(pid as nat);
    let b = strings::decimal(other_pid as nat);
    let c = strings::decimal(n as nat);
    let d = strings::decimal(other_n as nat);
    let x = tmp_path(path, pid, n);
    let y = tmp_path(path, other_pid, other_n);
    reveal_strlit("-");
    reveal_strlit(".tmp");
    if x == y {
        let left = a + "-"@ + c;
        let right = b + "-"@ + d;
        assert(x =~= head + (left + ".tmp"@));
        assert(y =~= head + (right + ".tmp"@));
        assert((head + (left + ".tmp"@)).skip(head.len() as int) =~= left + ".tmp"@);
        assert((head + (right + ".tmp"@)).skip(head.len() as int) =~= right + ".tmp"@);
        assert((left + ".tmp"@).take(left.len() as int) =~= left);
        assert((right + ".tmp"@).take(right.len() as int) =~= right);
        assert(left =~= right);
        strings::decimal_has_only_digits(pid as nat);
        strings::decimal_has_only_digits(other_pid as nat);
        assert(left[a.len() as int] == '-');
        assert(right[b.len() as int] == '-');
        if a.len() < b.len() {
            assert(right[a.len() as int] == b[a.len() as int]);
        } else if b.len() < a.len() {
            assert(left[b.len() as int] == a[b.len() as int]);
        }
        assert(left.take(a.len() as int) =~= a);
        assert(right.take(b.len() as int) =~= b);
        strings::decimal_is_injective(pid as nat, other_pid as nat);
        assert(left.skip(a.len() as int + 1) =~= c);
        assert(right.skip(b.len() as int + 1) =~= d);
        strings::decimal_is_injective(n as nat, other_n as nat);
    }
}

/// What happened to a watched file.
#[derive(Debug, Clone, Copy, PartialEq, Eq, Structural)]
pub enum FileEvent {
    Create,
    /// The file's data was written.
    Data,
    /// The file was renamed, from or to this name.
    Name,
    /// Modified, the platform does not say how.
    Modified,
    Metadata,
    /// Opened, read or closed.
    Access,
    Remove,
    Other,
}

/// True for events that can change the config file's content or identity
/// (create, data write, rename). Excludes `Access` (open/read/close) and
/// metadata-only events — loading the file otherwise generates Access
/// events on the watched file and feeds an infinite loop.
pub fn is_content_change(event: FileEvent) -> (r: bool)
    ensures
        r == (event == FileEvent::Create || event == FileEvent::Data || event == FileEvent::Name
            || event == FileEvent::Modified),
{
    match event {
        FileEvent::Create | FileEvent::Data | FileEvent::Name | FileEvent::Modified => true,
        FileEvent::Metadata | FileEvent::Access | FileEvent::Remove | FileEvent::Other => false,
    }
}

/// What follows the last slash of `path`.
pub open spec fn last_component(path: Seq<char>) -> Seq<char>
    decreases path.len(),
{
    if path.len() == 0 || path.last() == '/' {
        Seq::empty()
    } else {
        last_component(path.drop_last()).push(path.last())
    }
}

/// The name of the file at `path`, if it ends in one.
pub open spec fn file_name(path: Seq<char>) -> Option<Seq<char>> {
    if names_a_file(trimmed(path)) {
        Some(last_component(trimmed(path)))
    } else {
        None
    }
}

fn file_name_of(path: &str) -> (r: Option<String>)
    ensures
        types::locator_text(r) == file_name(path@),
{
    let chars = strings::chars_of(path);
    let whole: usize = trimmed_len(&chars);
    if !has_file(&chars, whole) {
        return None;
    }
    let ghost all = chars@.take(whole as int);
    let mut start: usize = whole;
    assert(all.take(start as int) == all);
    assert(last_component(all) =~= last_component(all) + chars@.subrange(whole as int, whole as int));
    while start > 0 && chars[start - 1] != '/'
        invariant
            all == chars@.take(whole as int),
            start <= whole <= chars@.len(),
            last_component(all) == last_component(all.take(start as int)) + chars@.subrange(
                start as int,
                whole as int,
            ),
        decreases start,
    {
        assert(all.take(start as int).drop_last() == all.take(start - 1));
        assert(chars@.subrange(start - 1, whole as int) == seq![chars@[start - 1]]
            + chars@.subrange(start as int, whole as int));
        start -= 1;
    }
    assert(last_component(all) =~= chars@.subrange(start as int, whole as int));
    Some(part(&chars, start, whole))
}

/// Returns `true` if any of an event's paths ends in the config file's name.
/// Comparing by file name is sufficient because the watch is non-recursive and
/// scoped to the config directory.
pub fn event_touches(paths: &[String], target: &str) -> (r: bool)
    ensures
        r == exists|i: int|
            0 <= i < paths@.len() && file_name((#[trigger] paths@[i])@) == file_name(target@),
{
    let name = file_name_of(target);
    let mut i: usize = 0;
    while i < paths.len()
        invariant
            types::locator_text(name) == file_name(target@),
            i <= paths@.len(),
            forall|k: int|
                0 <= k < i ==> file_name((#[trigger] paths@[k])@) != file_name(target@),
        decreases paths@.len() - i,
    {
        if types::same_locator(&file_name_of(paths[i].as_str()), &name) {
            return true;
        }
        i += 1;
    }
    false
}

} // verus!
