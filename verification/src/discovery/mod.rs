//! What a discovery sweep brings.

pub mod backoff;
pub mod registry;

use vstd::prelude::*;

verus! {

/// One backend's outcome for a single discovery sweep: the sources it found,
/// or the error that stopped it from finding anything this round. Kept
/// separate per backend rather than flattened into one list, so a caller can
/// tell "this backend failed" apart from "this backend honestly found
/// nothing" — a device is retired only when the backend that owns it reported
/// success this sweep.
#[derive(Debug)]
pub struct BackendSweep<S, E> {
    pub name: &'static str,
    pub result: Result<Vec<S>, E>,
}

/// What one backend found, nothing if it failed.
pub open spec fn found_by<S, E>(sweep: BackendSweep<S, E>) -> Seq<S> {
    match sweep.result {
        Ok(sources) => sources@,
        Err(_) => Seq::empty(),
    }
}

/// What all backends found, in order.
pub open spec fn all_found<S, E>(sweeps: Seq<BackendSweep<S, E>>) -> Seq<S>
    decreases sweeps.len(),
{
    if sweeps.len() == 0 {
        Seq::empty()
    } else {
        all_found(sweeps.drop_last()) + found_by(sweeps.last())
    }
}

/// Flattens per-backend outcomes into one list of sources, for callers that
/// only want "everything currently discoverable" and have no retirement
/// decision to make (the one-shot CLI paths). A failed backend simply
/// contributes no sources.
pub fn flatten<S, E>(sweeps: Vec<BackendSweep<S, E>>) -> (r: Vec<S>)
    ensures
        r@ == all_found(sweeps@),
{
    let ghost all = sweeps@;
    let mut rest = sweeps;
    let mut r: Vec<S> = Vec::new();
    let ghost mut done: int = 0;
    assert(all.skip(0) == all);
    while rest.len() > 0
        invariant
            0 <= done <= all.len(),
            rest@ == all.skip(done),
            r@ == all_found(all.take(done)),
        decreases rest@.len(),
    {
        let sweep = rest.remove(0);
        proof {
            assert(all.take(done + 1).drop_last() == all.take(done));
            assert(all.take(done + 1).last() == sweep);
            assert(all.skip(done).remove(0) =~= all.skip(done + 1));
            done = done + 1;
        }
        let ghost before = r@;
        match sweep.result {
            Ok(sources) => {
                let mut sources = sources;
                r.append(&mut sources);
            },
            Err(_) => {},
        }
        assert(r@ =~= before + found_by(sweep));
    }
    assert(all.take(done) == all);
    r
}

/// One source with the name of the backend that found it.
#[derive(Debug)]
pub struct Discovered<S> {
    pub backend: &'static str,
    pub source: S,
}

/// What one backend found, each with its name.
pub open spec fn named<S>(name: Seq<char>, sources: Seq<S>) -> Seq<(Seq<char>, S)> {
    sources.map_values(|s: S| (name, s))
}

/// What all backends found, each with the name of its backend.
pub open spec fn all_named<S, E>(sweeps: Seq<BackendSweep<S, E>>) -> Seq<(Seq<char>, S)>
    decreases sweeps.len(),
{
    if sweeps.len() == 0 {
        Seq::empty()
    } else {
        all_named(sweeps.drop_last()) + named(sweeps.last().name@, found_by(sweeps.last()))
    }
}

/// The names of the backends that did not fail.
pub open spec fn succeeded<S, E>(sweeps: Seq<BackendSweep<S, E>>) -> Seq<Seq<char>>
    decreases sweeps.len(),
{
    if sweeps.len() == 0 {
        Seq::empty()
    } else {
        let before = succeeded(sweeps.drop_last());
        if sweeps.last().result is Ok {
            before.push(sweeps.last().name@)
        } else {
            before
        }
    }
}

/// The sources of a list with their backends' names.
pub open spec fn discovered_texts<S>(list: Seq<Discovered<S>>) -> Seq<(Seq<char>, S)> {
    list.map_values(|d: Discovered<S>| (d.backend@, d.source))
}

/// The characters of each name.
pub open spec fn names_of(list: Seq<&'static str>) -> Seq<Seq<char>> {
    list.map_values(|n: &'static str| n@)
}

/// Splits a sweep into what was found and which backends did not fail: what
/// the supervisor needs to tell a vanished device from a failed sweep.
pub fn split<S, E>(sweeps: Vec<BackendSweep<S, E>>) -> (r: (Vec<Discovered<S>>, Vec<&'static str>))
    ensures
        discovered_texts(r.0@) == all_named(sweeps@),
        names_of(r.1@) == succeeded(sweeps@),
{
    let ghost all = sweeps@;
    let mut rest = sweeps;
    let mut found: Vec<Discovered<S>> = Vec::new();
    let mut names: Vec<&'static str> = Vec::new();
    let ghost mut done: int = 0;
    assert(all.skip(0) == all);
    assert(discovered_texts(found@) =~= Seq::empty());
    assert(names_of(names@) =~= Seq::empty());
    while rest.len() > 0
        invariant
            0 <= done <= all.len(),
            rest@ == all.skip(done),
            discovered_texts(found@) == all_named(all.take(done)),
            names_of(names@) == succeeded(all.take(done)),
        decreases rest@.len(),
    {
        let sweep = rest.remove(0);
        proof {
            assert(all.take(done + 1).drop_last() == all.take(done));
            assert(all.take(done + 1).last() == sweep);
            assert(all.skip(done).remove(0) =~= all.skip(done + 1));
            done = done + 1;
        }
        let ghost before = discovered_texts(found@);
        let ghost known = names@;
        match sweep.result {
            Ok(sources) => {
                names.push(sweep.name);
                assert(names_of(names@) =~= names_of(known).push(sweep.name@));
                let ghost new = sources@;
                let mut left = sources;
                let ghost mut taken: int = 0;
                assert(discovered_texts(found@) =~= before + named(sweep.name@, new.take(0)));
                assert(new.skip(0) == new);
                while left.len() > 0
                    invariant
                        0 <= taken <= new.len(),
                        left@ == new.skip(taken),
                        discovered_texts(found@) == before + named(sweep.name@, new.take(taken)),
                    decreases left@.len(),
                {
                    let ghost had = found@;
                    let source = left.remove(0);
                    found.push(Discovered { backend: sweep.name, source });
                    proof {
                        assert(discovered_texts(found@) =~= discovered_texts(had).push(
                            (sweep.name@, new[taken]),
                        ));
                        assert(named(sweep.name@, new.take(taken + 1)) =~= named(
                            sweep.name@,
                            new.take(taken),
                        ).push((sweep.name@, new[taken])));
                        assert(new.skip(taken).remove(0) =~= new.skip(taken + 1));
                        taken = taken + 1;
                    }
                }
                assert(new.take(taken) == new);
            },
            Err(_) => {
                assert(discovered_texts(found@) =~= before + named(
                    sweep.name@,
                    Seq::<S>::empty(),
                ));
            },
        }
    }
    assert(all.take(done) == all);
    (found, names)
}

// --- laws --------------------------------------------------------------------

/// A backend that failed is not among those that succeeded, one that honestly
/// found nothing is, as long as no two of them share a name.
pub proof fn a_failure_is_no_empty_result<S, E>(sweeps: Seq<BackendSweep<S, E>>, i: int)
    requires
        0 <= i < sweeps.len(),
        forall|a: int, b: int|
            0 <= a < b < sweeps.len() ==> (#[trigger] sweeps[a]).name@ != (
            #[trigger] sweeps[b]).name@,
    ensures
        succeeded(sweeps).contains(sweeps[i].name@) == (sweeps[i].result is Ok),
    decreases sweeps.len(),
{
    let earlier = sweeps.drop_last();
    let last = sweeps.last();
    let before = succeeded(earlier);
    names_come_from(earlier);
    if i == sweeps.len() - 1 {
        if last.result is Ok {
            assert(succeeded(sweeps)[before.len() as int] == last.name@);
        }
        assert forall|k: int| 0 <= k < before.len() implies before[k] != last.name@ by {
            let m = choose|m: int|
                0 <= m < earlier.len() && (#[trigger] earlier[m]).name@ == before[k];
            assert(sweeps[m].name@ != sweeps[i].name@);
        }
    } else {
        assert forall|a: int, b: int| 0 <= a < b < earlier.len() implies (
        #[trigger] earlier[a]).name@ != (#[trigger] earlier[b]).name@ by {
            assert(sweeps[a].name@ != sweeps[b].name@);
        }
        a_failure_is_no_empty_result(earlier, i);
        let key = sweeps[i].name@;
        assert(sweeps[i].name@ != sweeps[sweeps.len() - 1].name@);
        if before.contains(key) {
            assert(succeeded(sweeps)[before.index_of(key)] == key);
        }
        if succeeded(sweeps).contains(key) {
            let k = succeeded(sweeps).index_of(key);
            assert(k < before.len());
            assert(before[k] == key);
        }
    }
}

proof fn names_come_from<S, E>(sweeps: Seq<BackendSweep<S, E>>)
    ensures
        forall|k: int|
            0 <= k < succeeded(sweeps).len() ==> exists|m: int|
                0 <= m < sweeps.len() && (#[trigger] sweeps[m]).name@ == #[trigger] succeeded(
                    sweeps,
                )[k],
    decreases sweeps.len(),
{
    if sweeps.len() > 0 {
        let earlier = sweeps.drop_last();
        names_come_from(earlier);
        assert forall|k: int| 0 <= k < succeeded(sweeps).len() implies exists|m: int|
            0 <= m < sweeps.len() && (#[trigger] sweeps[m]).name@ == #[trigger] succeeded(
                sweeps,
            )[k] by {
            if k < succeeded(earlier).len() {
                let m = choose|m: int|
                    0 <= m < earlier.len() && (#[trigger] earlier[m]).name@ == succeeded(
                        earlier,
                    )[k];
                assert(sweeps[m].name@ == succeeded(sweeps)[k]);
            } else {
                assert(sweeps[sweeps.len() - 1].name@ == succeeded(sweeps)[k]);
            }
        }
    }
}

} // verus!
