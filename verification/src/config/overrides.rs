//! Per-device settings, by device name.

use crate::strings;
use vstd::prelude::*;

verus! {

/// Per-device poll interval and low-threshold overrides.
/// Missing fields fall back to the global `Config` values.
#[derive(Debug, Clone, Copy, PartialEq, Eq, Structural)]
pub struct DeviceSettings {
    pub poll_interval_secs: Option<u64>,
    pub low_threshold: Option<u8>,
}

impl Default for DeviceSettings {
    fn default() -> (r: Self)
        ensures
            r == (DeviceSettings { poll_interval_secs: None, low_threshold: None }),
    {
        DeviceSettings { poll_interval_secs: None, low_threshold: None }
    }
}

/// Overrides keyed by device name. Its view is that map. Entries are kept in
/// the order of their names, so equal overrides compare equal.
#[derive(Debug, PartialEq, Eq)]
pub struct Overrides {
    entries: Vec<(String, DeviceSettings)>,
}

spec fn sorted(entries: Seq<(String, DeviceSettings)>) -> bool {
    forall|i: int, j: int|
        0 <= i < j < entries.len() ==> strings::precedes(
            (#[trigger] entries[i]).0@,
            (#[trigger] entries[j]).0@,
        )
}

spec fn holds(entries: Seq<(String, DeviceSettings)>, name: Seq<char>) -> bool {
    exists|i: int| 0 <= i < entries.len() && (#[trigger] entries[i]).0@ == name
}

spec fn names_of(entries: Seq<(String, DeviceSettings)>) -> Seq<Seq<char>> {
    entries.map_values(|e: (String, DeviceSettings)| e.0@)
}

spec fn place(entries: Seq<(String, DeviceSettings)>, name: Seq<char>) -> int {
    choose|i: int| 0 <= i < entries.len() && (#[trigger] entries[i]).0@ == name
}

spec fn as_map(entries: Seq<(String, DeviceSettings)>) -> Map<Seq<char>, DeviceSettings> {
    Map::new(|name: Seq<char>| holds(entries, name), |name: Seq<char>| entries[place(entries, name)].1)
}

/// Whether `names` lists a set of names: each of them once, in their order.
pub open spec fn lists(names: Seq<Seq<char>>, set: Set<Seq<char>>) -> bool {
    &&& names.no_duplicates()
    &&& names.to_set() == set
    &&& forall|i: int, j: int|
        0 <= i < j < names.len() ==> strings::precedes(#[trigger] names[i], #[trigger] names[j])
}

/// In a sorted list each name has one place.
proof fn place_is_unique(entries: Seq<(String, DeviceSettings)>, i: int)
    requires
        sorted(entries),
        0 <= i < entries.len(),
    ensures
        holds(entries, entries[i].0@),
        place(entries, entries[i].0@) == i,
        as_map(entries)[entries[i].0@] == entries[i].1,
{
    let name = entries[i].0@;
    let j = place(entries, name);
    strings::precedes_irreflexive(name);
}

impl View for Overrides {
    type V = Map<Seq<char>, DeviceSettings>;

    closed spec fn view(&self) -> Map<Seq<char>, DeviceSettings> {
        as_map(self.entries@)
    }
}

/// Where `name` stands among `entries`, or where it would have to stand.
fn search(entries: &Vec<(String, DeviceSettings)>, name: &str) -> (r: (bool, usize))
    requires
        sorted(entries@),
    ensures
        r.1 <= entries@.len(),
        r.0 == holds(entries@, name@),
        r.0 ==> r.1 < entries@.len() && entries@[r.1 as int].0@ == name@,
        forall|i: int|
            0 <= i < r.1 ==> strings::precedes((#[trigger] entries@[i]).0@, name@),
        forall|i: int|
            r.1 <= i < entries@.len() ==> strings::precedes(name@, (#[trigger] entries@[i]).0@) || (
            i == r.1 && r.0),
{
    let mut i: usize = 0;
    while i < entries.len() && strings::text_precedes(entries[i].0.as_str(), name)
        invariant
            i <= entries@.len(),
            forall|k: int| 0 <= k < i ==> strings::precedes((#[trigger] entries@[k]).0@, name@),
        decreases entries@.len() - i,
    {
        i += 1;
    }
    let found = i < entries.len() && *entries[i].0.as_str() == *name;
    proof {
        strings::precedes_irreflexive(name@);
        if i < entries@.len() {
            strings::precedes_total(entries@[i as int].0@, name@);
            assert forall|k: int| i < k < entries@.len() implies strings::precedes(
                name@,
                (#[trigger] entries@[k]).0@,
            ) by {
                assert(strings::precedes(entries@[i as int].0@, entries@[k].0@));
                if !found {
                    strings::precedes_transitive(name@, entries@[i as int].0@, entries@[k].0@);
                }
            }
        }
        if found {
            assert(entries@[i as int].0@ == name@);
        }
    }
    (found, i)
}

impl Overrides {
    /// The names that have overrides, in the order in which `nth` gives them.
    pub closed spec fn names(&self) -> Seq<Seq<char>> {
        names_of(self.entries@)
    }

    #[verifier::type_invariant]
    spec fn inv(self) -> bool {
        sorted(self.entries@)
    }

    pub fn new() -> (r: Self)
        ensures
            r@ == Map::<Seq<char>, DeviceSettings>::empty(),
    {
        let r = Overrides { entries: Vec::new() };
        assert(r@ =~= Map::empty());
        r
    }

    /// The settings stored for `name`.
    pub fn get(&self, name: &str) -> (r: Option<DeviceSettings>)
        ensures
            r == if self@.dom().contains(name@) {
                Some(self@[name@])
            } else {
                None
            },
    {
        proof {
            use_type_invariant(self);
        }
        let (found, at) = search(&self.entries, name);
        if found {
            proof {
                place_is_unique(self.entries@, at as int);
            }
            Some(self.entries[at].1)
        } else {
            None
        }
    }

    pub fn contains_key(&self, name: &str) -> (r: bool)
        ensures
            r == self@.dom().contains(name@),
    {
        self.get(name).is_some()
    }

    pub fn is_empty(&self) -> (r: bool)
        ensures
            r == (self@ == Map::<Seq<char>, DeviceSettings>::empty()),
    {
        let r = self.entries.len() == 0;
        if r {
            assert(self@ =~= Map::empty());
        } else {
            assert(holds(self.entries@, self.entries@[0].0@));
            assert(self@.dom().contains(self.entries@[0].0@));
        }
        r
    }

    /// Stores `settings` for `name`, in place of any stored before.
    pub fn insert(&mut self, name: String, settings: DeviceSettings)
        ensures
            final(self)@ == old(self)@.insert(name@, settings),
    {
        proof {
            use_type_invariant(&*self);
        }
        let mut entries: Vec<(String, DeviceSettings)> = Vec::new();
        std::mem::swap(&mut entries, &mut self.entries);
        let ghost before = entries@;
        let ghost key = name@;
        let (found, at) = search(&entries, name.as_str());
        if found {
            entries.remove(at);
        }
        let ghost without = entries@;
        entries.insert(at, (name, settings));
        proof {
            assert(sorted(without)) by {
                assert forall|i: int, j: int| 0 <= i < j < without.len() implies strings::precedes(
                    (#[trigger] without[i]).0@,
                    (#[trigger] without[j]).0@,
                ) by {
                    let oi = if found && i >= at {
                        i + 1
                    } else {
                        i
                    };
                    let oj = if found && j >= at {
                        j + 1
                    } else {
                        j
                    };
                    assert(without[i] == before[oi] && without[j] == before[oj]);
                }
            }
            assert(sorted(entries@)) by {
                assert forall|i: int, j: int| 0 <= i < j < entries@.len() implies strings::precedes(
                    (#[trigger] entries@[i]).0@,
                    (#[trigger] entries@[j]).0@,
                ) by {
                    let oi = if i < at {
                        i
                    } else {
                        i - 1
                    };
                    let oj = if j < at {
                        j
                    } else {
                        j - 1
                    };
                    if i == at {
                        let bj = if found {
                            oj + 1
                        } else {
                            oj
                        };
                        assert(entries@[j] == before[bj]);
                    } else if j == at {
                        assert(entries@[i] == before[i]);
                    } else {
                        assert(entries@[i] == without[oi] && entries@[j] == without[oj]);
                    }
                }
            }
            assert(entries@[at as int] == (name, settings));
            place_is_unique(entries@, at as int);
            assert forall|other: Seq<char>| other != key implies holds(entries@, other) == holds(
                before,
                other,
            ) && (holds(before, other) ==> as_map(entries@)[other] == as_map(before)[other]) by {
                if holds(before, other) {
                    let i = place(before, other);
                    let n = if i < at {
                        i
                    } else if found {
                        i
                    } else {
                        i + 1
                    };
                    assert(entries@[n] == before[i]);
                    place_is_unique(before, i);
                    place_is_unique(entries@, n);
                }
                if holds(entries@, other) {
                    let n = place(entries@, other);
                    let i = if n < at {
                        n
                    } else if found {
                        n
                    } else {
                        n - 1
                    };
                    assert(before[i] == entries@[n]);
                }
            }
            assert(as_map(entries@) =~= as_map(before).insert(key, settings));
        }
        self.entries = entries;
    }

    /// Takes out what is stored for `name`.
    pub fn remove(&mut self, name: &str) -> (r: Option<DeviceSettings>)
        ensures
            r == if old(self)@.dom().contains(name@) {
                Some(old(self)@[name@])
            } else {
                None
            },
            final(self)@ == old(self)@.remove(name@),
    {
        proof {
            use_type_invariant(&*self);
        }
        let mut entries: Vec<(String, DeviceSettings)> = Vec::new();
        std::mem::swap(&mut entries, &mut self.entries);
        let ghost before = entries@;
        let (found, at) = search(&entries, name);
        if !found {
            assert(as_map(before).remove(name@) =~= as_map(before));
            self.entries = entries;
            return None;
        }
        let taken = entries.remove(at);
        proof {
            assert(sorted(entries@)) by {
                assert forall|i: int, j: int| 0 <= i < j < entries@.len() implies strings::precedes(
                    (#[trigger] entries@[i]).0@,
                    (#[trigger] entries@[j]).0@,
                ) by {
                    let oi = if i < at {
                        i
                    } else {
                        i + 1
                    };
                    let oj = if j < at {
                        j
                    } else {
                        j + 1
                    };
                    assert(entries@[i] == before[oi] && entries@[j] == before[oj]);
                }
            }
            place_is_unique(before, at as int);
            assert(!holds(entries@, name@)) by {
                if holds(entries@, name@) {
                    let n = place(entries@, name@);
                    let i = if n < at {
                        n
                    } else {
                        n + 1
                    };
                    assert(before[i] == entries@[n]);
                    place_is_unique(before, i);
                }
            }
            assert forall|other: Seq<char>| other != name@ implies holds(entries@, other) == holds(
                before,
                other,
            ) && (holds(before, other) ==> as_map(entries@)[other] == as_map(before)[other]) by {
                if holds(before, other) {
                    let i = place(before, other);
                    let n = if i < at {
                        i
                    } else {
                        i - 1
                    };
                    assert(entries@[n] == before[i]);
                    place_is_unique(before, i);
                    place_is_unique(entries@, n);
                }
                if holds(entries@, other) {
                    let n = place(entries@, other);
                    let i = if n < at {
                        n
                    } else {
                        n + 1
                    };
                    assert(before[i] == entries@[n]);
                }
            }
            assert(as_map(entries@) =~= as_map(before).remove(name@));
        }
        self.entries = entries;
        Some(taken.1)
    }

    /// How many devices have overrides.
    pub fn len(&self) -> (n: usize)
        ensures
            self@.dom().finite(),
            n == self@.dom().len(),
            n == self.names().len(),
            lists(self.names(), self@.dom()),
    {
        proof {
            use_type_invariant(self);
            names_are_the_keys(self.entries@);
            entries_count(self.entries@);
        }
        self.entries.len()
    }

    /// The name and settings of override `i`, in the order of the names.
    pub fn nth(&self, i: usize) -> (r: Option<(&str, DeviceSettings)>)
        ensures
            lists(self.names(), self@.dom()),
            r is Some <==> i < self@.dom().len(),
            r is Some <==> i < self.names().len(),
            r matches Some((name, settings)) ==> name@ == self.names()[i as int]
                && self@.dom().contains(name@) && self@[name@] == settings,
    {
        proof {
            use_type_invariant(self);
            names_are_the_keys(self.entries@);
            entries_count(self.entries@);
        }
        if i < self.entries.len() {
            proof {
                place_is_unique(self.entries@, i as int);
            }
            Some((self.entries[i].0.as_str(), self.entries[i].1))
        } else {
            None
        }
    }
}

/// The names of a sorted list are the keys of its map.
proof fn names_are_the_keys(entries: Seq<(String, DeviceSettings)>)
    requires
        sorted(entries),
    ensures
        lists(names_of(entries), as_map(entries).dom()),
{
    let names = names_of(entries);
    assert forall|i: int, j: int| 0 <= i < j < names.len() implies strings::precedes(
        #[trigger] names[i],
        #[trigger] names[j],
    ) by {
        assert(strings::precedes(entries[i].0@, entries[j].0@));
    }
    assert forall|i: int, j: int| 0 <= i < names.len() && 0 <= j < names.len() && i != j implies
        names[i] != names[j] by {
        strings::precedes_irreflexive(names[i]);
    }
    assert forall|name: Seq<char>| names.to_set().contains(name) == holds(entries, name) by {
        if names.contains(name) {
            let i = names.index_of(name);
            assert(entries[i].0@ == name);
        }
        if holds(entries, name) {
            assert(names[place(entries, name)] == name);
        }
    }
    assert(names.to_set() =~= as_map(entries).dom());
}

/// A sorted list has as many names as entries.
proof fn entries_count(entries: Seq<(String, DeviceSettings)>)
    requires
        sorted(entries),
    ensures
        as_map(entries).dom().finite(),
        as_map(entries).dom().len() == entries.len(),
    decreases entries.len(),
{
    if entries.len() == 0 {
        assert(as_map(entries).dom() =~= Set::empty());
    } else {
        let shorter = entries.drop_last();
        let last = entries.last().0@;
        entries_count(shorter);
        assert(!holds(shorter, last)) by {
            if holds(shorter, last) {
                let i = place(shorter, last);
                assert(entries[i].0@ == last);
                strings::precedes_irreflexive(last);
            }
        }
        assert forall|name: Seq<char>| holds(entries, name) == (holds(shorter, name) || name
            == last) by {
            if holds(shorter, name) {
                assert(entries[place(shorter, name)].0@ == name);
            }
            if name == last {
                assert(entries[entries.len() - 1].0@ == name);
            }
            if holds(entries, name) && name != last {
                let i = place(entries, name);
                assert(shorter[i].0@ == name);
            }
        }
        assert(as_map(entries).dom() =~= as_map(shorter).dom().insert(last));
    }
}

impl Overrides {
    /// Whether `other` has every override of this one.
    fn is_within(&self, other: &Overrides) -> (r: bool)
        ensures
            r == forall|name: Seq<char>| #[trigger]
                self@.dom().contains(name) ==> other@.dom().contains(name) && other@[name]
                    == self@[name],
    {
        proof {
            use_type_invariant(self);
        }
        let mut i: usize = 0;
        while i < self.entries.len()
            invariant
                sorted(self.entries@),
                i <= self.entries@.len(),
                forall|k: int|
                    0 <= k < i ==> other@.dom().contains((#[trigger] self.entries@[k]).0@)
                        && other@[self.entries@[k].0@] == self.entries@[k].1,
            decreases self.entries@.len() - i,
        {
            proof {
                place_is_unique(self.entries@, i as int);
            }
            let kept = match other.get(self.entries[i].0.as_str()) {
                Some(settings) => settings == self.entries[i].1,
                None => false,
            };
            if !kept {
                assert(self@.dom().contains(self.entries@[i as int].0@));
                return false;
            }
            i += 1;
        }
        assert forall|name: Seq<char>| #[trigger] self@.dom().contains(name) implies other@.dom().contains(
            name,
        ) && other@[name] == self@[name] by {
            let k = place(self.entries@, name);
            assert(self.entries@[k].0@ == name);
        }
        true
    }

    /// Whether the two override the same, for the same names.
    pub fn same(&self, other: &Overrides) -> (r: bool)
        ensures
            r == (self@ == other@),
    {
        let r = self.is_within(other) && other.is_within(self);
        proof {
            if r {
                assert(self@ =~= other@);
            }
        }
        r
    }
}

impl Clone for Overrides {
    fn clone(&self) -> (r: Self)
        ensures
            r@ == self@,
    {
        proof {
            use_type_invariant(self);
        }
        let mut entries: Vec<(String, DeviceSettings)> = Vec::new();
        let mut i: usize = 0;
        while i < self.entries.len()
            invariant
                i <= self.entries@.len(),
                entries@ == self.entries@.take(i as int),
            decreases self.entries@.len() - i,
        {
            entries.push((self.entries[i].0.clone(), self.entries[i].1));
            i += 1;
        }
        assert(self.entries@.take(i as int) == self.entries@);
        Overrides { entries }
    }
}

} // verus!
