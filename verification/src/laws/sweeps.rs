//! Discovery, publishing and the files around them.

use crate::app::manager;
use crate::app::migration;
use crate::autostart;
use crate::config::files;
use crate::discovery::backoff;
use crate::discovery::registry::{self, Backend};
use crate::discovery::{self, BackendSweep};
use crate::domain::types::DeviceState;
use crate::strings;
use vstd::prelude::*;

verus! {

// --- sweeps ------------------------------------------------------------------

/// What a backend found comes where the backend does, whole and in its order, and
/// under its name; a backend that failed adds nothing.
pub proof fn what_a_backend_found_is_listed<S, E>(sweeps: Seq<BackendSweep<S, E>>, i: int)
    requires
        0 <= i < sweeps.len(),
    ensures
        ({
            let found = match sweeps[i].result {
                Ok(sources) => sources@,
                Err(_) => Seq::empty(),
            };
            &&& discovery::all_found(sweeps) == discovery::all_found(sweeps.take(i)) + found
                + discovery::all_found(sweeps.skip(i + 1))
            &&& discovery::all_named(sweeps) == discovery::all_named(sweeps.take(i)) + Seq::new(
                found.len(),
                |k: int| (sweeps[i].name@, found[k]),
            ) + discovery::all_named(sweeps.skip(i + 1))
        }),
    decreases sweeps.len(),
{
    let found = match sweeps[i].result {
        Ok(sources) => sources@,
        Err(_) => Seq::empty(),
    };
    let named = Seq::new(found.len(), |k: int| (sweeps[i].name@, found[k]));
    assert(discovery::named(sweeps[i].name@, found) =~= named);
    let before = sweeps.take(i);
    let after = sweeps.skip(i + 1);
    let earlier = sweeps.drop_last();
    if i == sweeps.len() - 1 {
        assert(before =~= earlier);
        assert(after =~= Seq::empty());
    } else {
        what_a_backend_found_is_listed(earlier, i);
        assert(earlier.take(i) =~= before);
        assert(after.drop_last() =~= earlier.skip(i + 1));
        assert(after.last() == sweeps.last());
    }
    assert(discovery::all_found(sweeps) =~= discovery::all_found(before) + found
        + discovery::all_found(after));
    assert(discovery::all_named(sweeps) =~= discovery::all_named(before) + named
        + discovery::all_named(after));
}

/// A backend counts as succeeded exactly if one of its name did not fail.
pub proof fn who_did_not_fail_succeeded<S, E>(sweeps: Seq<BackendSweep<S, E>>, name: Seq<char>)
    ensures
        discovery::succeeded(sweeps).contains(name) <==> exists|i: int|
            0 <= i < sweeps.len() && (#[trigger] sweeps[i]).name@ == name && sweeps[i].result is Ok,
    decreases sweeps.len(),
{
    if sweeps.len() > 0 {
        let earlier = sweeps.drop_last();
        who_did_not_fail_succeeded(earlier, name);
        let before = discovery::succeeded(earlier);
        let all = discovery::succeeded(sweeps);
        if all.contains(name) {
            let k = all.index_of(name);
            if k < before.len() {
                assert(before[k] == name);
                let i = choose|i: int|
                    0 <= i < earlier.len() && (#[trigger] earlier[i]).name@ == name
                        && earlier[i].result is Ok;
                assert(sweeps[i] == earlier[i]);
            } else {
                assert(sweeps[sweeps.len() - 1].name@ == name);
            }
        }
        if exists|i: int|
            0 <= i < sweeps.len() && (#[trigger] sweeps[i]).name@ == name && sweeps[i].result
                is Ok {
            let i = choose|i: int|
                0 <= i < sweeps.len() && (#[trigger] sweeps[i]).name@ == name && sweeps[i].result
                    is Ok;
            if i < earlier.len() {
                assert(earlier[i] == sweeps[i]);
                assert(all[before.index_of(name)] == name);
            } else {
                assert(all[before.len() as int] == name);
            }
        }
    }
}

/// Every backend is swept, once.
pub proof fn every_backend_is_swept(backend: Backend)
    ensures
        registry::all_backends().contains(backend),
        registry::all_backends().no_duplicates(),
{
    let all = registry::all_backends();
    assert(all[0] == Backend::Sysfs && all[1] == Backend::Bluez && all[2] == Backend::SteelSeries
        && all[3] == Backend::EightBitDo);
}

/// The vendors of a list of backends are those of the backends that have one.
pub proof fn vendors_are_those_of_the_backends(list: Seq<Backend>, vendor: u16)
    ensures
        registry::vendors_of(list).contains(vendor) <==> exists|i: int|
            0 <= i < list.len() && (#[trigger] list[i]).vendor() == Some(vendor),
    decreases list.len(),
{
    if list.len() > 0 {
        let earlier = list.drop_last();
        vendors_are_those_of_the_backends(earlier, vendor);
        let before = registry::vendors_of(earlier);
        let all = registry::vendors_of(list);
        if all.contains(vendor) {
            let k = all.index_of(vendor);
            if k < before.len() {
                assert(before[k] == vendor);
                let i = choose|i: int|
                    0 <= i < earlier.len() && (#[trigger] earlier[i]).vendor() == Some(vendor);
                assert(list[i].vendor() == Some(vendor));
            } else {
                assert(list[list.len() - 1].vendor() == Some(vendor));
            }
        }
        if exists|i: int| 0 <= i < list.len() && (#[trigger] list[i]).vendor() == Some(vendor) {
            let i = choose|i: int|
                0 <= i < list.len() && (#[trigger] list[i]).vendor() == Some(vendor);
            if i < earlier.len() {
                assert(earlier[i].vendor() == Some(vendor));
                assert(all[before.index_of(vendor)] == vendor);
            } else {
                assert(all[before.len() as int] == vendor);
            }
        }
    }
}

/// A watcher waits twice as long after each failure, from a second up to a
/// minute.
pub proof fn waits_double_up_to_a_minute(failures: nat)
    ensures
        backoff::delay_before(0) == 1_000_000_000,
        backoff::delay_before(failures + 1) == (if 2 * backoff::delay_before(failures)
            <= 60_000_000_000 {
            2 * backoff::delay_before(failures)
        } else {
            60_000_000_000
        }),
{
}

// --- publishing --------------------------------------------------------------

/// Two rosters say the same only if they have the same devices in the same
/// places, each as reachable, with the same reading at the same time and the same
/// estimate: whatever changes is published.
pub proof fn whatever_changes_is_published(a: Seq<DeviceState>, b: Seq<DeviceState>, i: int)
    requires
        0 <= i < a.len(),
        manager::same_roster(a, b),
    ensures
        a.len() == b.len(),
        a[i].info.name@ == b[i].info.name@,
        a[i].info.kind == b[i].info.kind,
        a[i].info.transport == b[i].info.transport,
        a[i].presence == b[i].presence,
        a[i].last_reading == b[i].last_reading,
        a[i].last_seen == b[i].last_seen,
        (a[i].estimate is Remaining) == (b[i].estimate is Remaining),
        a[i].estimate is Remaining ==> a[i].estimate->Remaining_0@ == b[i].estimate->Remaining_0@,
        (a[i].estimate is Charging) == (b[i].estimate is Charging),
{
    assert(manager::same_state(a[i], b[i]));
}

/// What is the same is not published again.
pub proof fn the_same_is_not_published_again(a: Seq<DeviceState>)
    ensures
        manager::same_roster(a, a),
{
}

// --- files -------------------------------------------------------------------

/// A path's trimmed form is the path without what ends it.
proof fn trimming_keeps_the_front(path: Seq<char>)
    ensures
        files::trimmed(path).len() <= path.len(),
        files::trimmed(path) == path.take(files::trimmed(path).len() as int),
    decreases path.len(),
{
    if path.len() > 0 && (path.last() == '/' || (path.len() >= 2 && path.last() == '.' && path[
    path.len() - 2] == '/')) {
        let shorter = path.drop_last();
        trimming_keeps_the_front(shorter);
        let n = files::trimmed(path).len() as int;
        assert(shorter.take(n) =~= path.take(n));
    } else {
        assert(path.take(path.len() as int) =~= path);
    }
}

proof fn an_extension_is_in_the_last_component(path: Seq<char>)
    ensures
        -1 <= files::extension_start(path) < path.len() || files::extension_start(path) == -1,
        files::extension_start(path) >= 0 ==> {
            &&& path[files::extension_start(path)] == '.'
            &&& forall|k: int| files::extension_start(path) <= k < path.len() ==> path[k] != '/'
        },
    decreases path.len(),
{
    if path.len() > 0 && path.last() != '/' && !(path.last() == '.' && path.len() >= 2 && path[
    path.len() - 2] != '/') {
        let shorter = path.drop_last();
        an_extension_is_in_the_last_component(shorter);
        let at = files::extension_start(path);
        if at >= 0 {
            assert(shorter[at] == path[at]);
            assert forall|k: int| at <= k < path.len() implies path[k] != '/' by {
                if k < shorter.len() {
                    assert(shorter[k] == path[k]);
                }
            }
        }
    }
}

/// A save's temporary file stands in the same directory as the file: its path is
/// that of the file up to the last slash, and has none after that.
pub proof fn a_temporary_file_stands_beside_its_file(path: Seq<char>, pid: u32, n: u32, slash: int)
    requires
        files::names_a_file(files::trimmed(path)),
        0 <= slash < files::trimmed(path).len(),
        path[slash] == '/',
        forall|k: int| slash < k < files::trimmed(path).len() ==> path[k] != '/',
    ensures
        ({
            let tmp = files::tmp_path(path, pid, n);
            &&& tmp.len() > slash
            &&& tmp.take(slash + 1) == path.take(slash + 1)
            &&& forall|k: int| slash < k < tmp.len() ==> tmp[k] != '/'
        }),
{
    let whole = files::trimmed(path);
    trimming_keeps_the_front(path);
    assert forall|k: int| 0 <= k < whole.len() implies whole[k] == path[k] by {
        assert(whole[k] == path.take(whole.len() as int)[k]);
    }
    an_extension_is_in_the_last_component(whole);
    let at = files::extension_start(whole);
    if 0 <= at <= slash {
        assert(whole[slash] == '/');
    }
    let stem = files::stem(whole);
    assert(stem.len() > slash);
    let tmp = files::tmp_path(path, pid, n);
    assert(tmp.take(slash + 1) =~= path.take(slash + 1));
    reveal_strlit(".json.");
    reveal_strlit("-");
    reveal_strlit(".tmp");
    strings::decimal_has_only_digits(pid as nat);
    strings::decimal_has_only_digits(n as nat);
    let a = strings::decimal(pid as nat);
    let b = strings::decimal(n as nat);
    assert forall|k: int| slash < k < tmp.len() implies tmp[k] != '/' by {
        let p = stem.len() as int;
        let q = p + 6;
        let r = q + a.len();
        let s = r + 1;
        let t = s + b.len();
        if k < p {
            assert(tmp[k] == stem[k]);
            assert(stem[k] == whole[k]);
        } else if k < q {
            assert(tmp[k] == ".json."@[k - p]);
        } else if k < r {
            assert(tmp[k] == a[k - q]);
            assert(strings::is_digit(a[k - q]));
        } else if k < s {
            assert(tmp[k] == "-"@[k - r]);
        } else if k < t {
            assert(tmp[k] == b[k - s]);
            assert(strings::is_digit(b[k - s]));
        } else {
            assert(tmp[k] == ".tmp"@[k - t]);
        }
    }
}

/// The name of the file at a path is what follows its last slash.
pub proof fn a_file_is_named_by_what_follows_the_last_slash(
    path: Seq<char>,
    name: Seq<char>,
)
    requires
        path.len() == 0 || path.last() == '/',
        forall|k: int| 0 <= k < name.len() ==> #[trigger] name[k] != '/',
    ensures
        files::last_component(path + name) == name,
    decreases name.len(),
{
    if name.len() == 0 {
        assert(path + name =~= path);
        assert(files::last_component(path) =~= name);
    } else {
        let shorter = name.drop_last();
        assert forall|k: int| 0 <= k < shorter.len() implies #[trigger] shorter[k] != '/' by {
            assert(name[k] != '/');
        }
        a_file_is_named_by_what_follows_the_last_slash(path, shorter);
        assert((path + name).drop_last() =~= path + shorter);
        assert((path + name).last() == name.last());
        assert(name[name.len() - 1] != '/');
        assert(files::last_component(path + name) =~= name);
    }
}

/// The desktop entry has a line that runs the tray of the program it was given,
/// in quotes.
pub proof fn the_entry_runs_the_program(exec: Seq<char>) -> (r: (Seq<char>, Seq<char>))
    ensures
        autostart::entry_text(exec) == r.0 + "Exec=\""@ + autostart::escaped(exec) + "\" tray\n"@
            + r.1,
        r.0.len() > 0 && r.0.last() == '\n',
{
    reveal_strlit(
        "[Desktop Entry]\nType=Application\nName=rigbat\nComment=Battery monitor for gaming peripherals\nExec=\"",
    );
    reveal_strlit("Exec=\"");
    reveal_strlit("\" tray\n");
    reveal_strlit("\" tray\nTerminal=false\nX-GNOME-Autostart-enabled=true\n");
    let head =
        "[Desktop Entry]\nType=Application\nName=rigbat\nComment=Battery monitor for gaming peripherals\nExec=\""@;
    let tail = "\" tray\nTerminal=false\nX-GNOME-Autostart-enabled=true\n"@;
    let before = head.take(head.len() - 6);
    let after = tail.skip(7);
    assert(head =~= before + "Exec=\""@);
    assert(tail =~= "\" tray\n"@ + after);
    assert(autostart::entry_text(exec) =~= before + "Exec=\""@ + autostart::escaped(exec)
        + "\" tray\n"@ + after);
    (before, after)
}

/// The file at a path is named by its last component, whatever directory it is in
/// and whether or not slashes follow.
pub proof fn a_file_has_the_name_of_its_last_component(dir: Seq<char>, name: Seq<char>)
    requires
        dir.len() == 0 || dir.last() == '/',
        name.len() > 0,
        name != seq!['.'],
        name != seq!['.', '.'],
        forall|k: int| 0 <= k < name.len() ==> #[trigger] name[k] != '/',
    ensures
        files::file_name(dir + name) == Some(name),
        files::file_name(dir + name + seq!['/']) == Some(name),
{
    let path = dir + name;
    let n = path.len() as int;
    assert(name[name.len() - 1] != '/');
    assert(path.last() == name.last());
    if name.len() == 1 && name[0] == '.' {
        assert(name =~= seq!['.']);
    }
    if name.len() >= 2 {
        assert(name[name.len() - 2] != '/');
        assert(path[n - 2] == name[name.len() - 2]);
    }
    assert(files::trimmed(path) == path);
    if name.len() == 2 && name[0] == '.' && name[1] == '.' {
        assert(name =~= seq!['.', '.']);
    }
    if name.len() >= 3 {
        assert(name[name.len() - 3] != '/');
        assert(path[n - 3] == name[name.len() - 3]);
    }
    if name.len() == 1 && dir.len() > 0 {
        assert(path[n - 2] == dir.last());
    }
    assert(files::names_a_file(path));
    a_file_is_named_by_what_follows_the_last_slash(dir, name);
    let slashed = path + seq!['/'];
    assert(slashed.drop_last() =~= path);
    assert(files::trimmed(slashed) == path);
}

/// Counters count one by one and stop where they end.
pub proof fn counters_count_one_by_one(n: u32)
    ensures
        n < u32::MAX ==> manager::one_more(n) == n + 1 && migration::next_sweep(n) == n + 1,
        manager::one_more(u32::MAX) == u32::MAX,
        migration::next_sweep(u32::MAX) == u32::MAX,
{
}

} // verus!
