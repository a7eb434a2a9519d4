//! Which devices a status surface shows, in which order, and which one a
//! single view features.

use crate::domain::time::{BootTime, Duration};
use crate::domain::types::{DeviceState, Presence};
use crate::i18n;
use crate::strings;
use vstd::prelude::*;

verus! {

/// How long a device that is not `Online` stays on a status surface after its
/// last reading: a day. Matches the supervisor's retention of disconnected
/// devices, so an icon never outlives the roster entry behind it.
pub const RETAINED_ICON_MAX_AGE_SECS: u64 = 86_400;

/// How long a device that is not `Online` stays on a status surface after its
/// last reading.
pub fn retained_icon_max_age() -> (d: Duration)
    ensures
        d@ == RETAINED_ICON_MAX_AGE_SECS * 1_000_000_000,
{
    Duration::from_secs(RETAINED_ICON_MAX_AGE_SECS)
}

/// Whether the device still says something on a status surface at `now`.
pub open spec fn speaks(device: DeviceState, now: BootTime) -> bool {
    device.informative(now, (RETAINED_ICON_MAX_AGE_SECS * 1_000_000_000) as nat)
}

/// Whether `is_shown` may answer `shown` when asked for the name `name`.
pub open spec fn answers<F: Fn(&str) -> bool>(is_shown: F, name: Seq<char>, shown: bool) -> bool {
    exists|n: &str| n@ == name && #[trigger] call_ensures(is_shown, (n,), shown)
}

/// Whether a status surface shows the device: not hidden by the user, and
/// still saying something (`DeviceState::is_currently_informative`).
pub fn is_visible(device: &DeviceState, is_shown: impl Fn(&str) -> bool, now: BootTime) -> (r: bool)
    requires
        forall|name: &str| call_requires(is_shown, (name,)),
    ensures
        exists|shown: bool|
            #[trigger] answers(is_shown, device.info.name@, shown) && r == (shown && speaks(
                *device,
                now,
            )),
{
    let max_age = retained_icon_max_age();
    let name = device.info.name.as_str();
    let shown = is_shown(name);
    assert(answers(is_shown, device.info.name@, shown));
    shown && device.is_currently_informative(now, max_age)
}

// --- order -------------------------------------------------------------------

/// Sort key for every device list: online devices first, then by name,
/// ignoring case. Same-named devices keep their order.
pub fn roster_order(name: &str, presence: Presence) -> (key: (bool, String))
    ensures
        key.0 == (presence != Presence::Online),
        key.1@ == strings::lowercase(name@),
{
    (presence != Presence::Online, strings::to_lowercase(name))
}

/// The sort key of a device named `name`.
pub open spec fn sort_key(name: Seq<char>, presence: Presence) -> (bool, Seq<char>) {
    (presence != Presence::Online, strings::lowercase(name))
}

/// Whether key `a` sorts before key `b`.
pub open spec fn key_before(a: (bool, Seq<char>), b: (bool, Seq<char>)) -> bool {
    (!a.0 && b.0) || (a.0 == b.0 && strings::precedes(a.1, b.1))
}

/// Whether item `a` is listed before item `b`: by key, then by place.
pub open spec fn listed_before(keys: Seq<(bool, Seq<char>)>, a: int, b: int) -> bool {
    key_before(keys[a], keys[b]) || (keys[a] == keys[b] && a < b)
}

/// Whether `p` lists exactly the kept items, in roster order.
pub open spec fn is_roster_order(
    keys: Seq<(bool, Seq<char>)>,
    keep: Seq<bool>,
    p: Seq<usize>,
) -> bool {
    &&& forall|i: int| 0 <= i < p.len() ==> (#[trigger] p[i]) < keys.len() && keep[p[i] as int]
    &&& forall|k: usize| k < keys.len() && keep[k as int] ==> #[trigger] p.contains(k)
    &&& forall|i: int, j: int|
        0 <= i < j < p.len() ==> #[trigger] listed_before(keys, p[i] as int, p[j] as int)
}

/// The keys of a list, with names as their characters.
pub open spec fn key_texts(keys: Seq<(bool, String)>) -> Seq<(bool, Seq<char>)> {
    keys.map_values(|k: (bool, String)| (k.0, k.1@))
}

proof fn key_before_transitive(
    a: (bool, Seq<char>),
    b: (bool, Seq<char>),
    c: (bool, Seq<char>),
)
    requires
        key_before(a, b),
        key_before(b, c),
    ensures
        key_before(a, c),
{
    if a.0 == b.0 && b.0 == c.0 {
        strings::precedes_transitive(a.1, b.1, c.1);
    }
}

proof fn key_before_total(a: (bool, Seq<char>), b: (bool, Seq<char>))
    ensures
        key_before(a, b) || a == b || key_before(b, a),
{
    strings::precedes_total(a.1, b.1);
}

proof fn key_before_irreflexive(a: (bool, Seq<char>))
    ensures
        !key_before(a, a),
{
    strings::precedes_irreflexive(a.1);
}

/// Nothing is listed both before and after the same item.
proof fn listed_before_asymmetric(keys: Seq<(bool, Seq<char>)>, a: int, b: int)
    requires
        listed_before(keys, a, b),
    ensures
        !listed_before(keys, b, a),
{
    if listed_before(keys, b, a) {
        if key_before(keys[a], keys[b]) && key_before(keys[b], keys[a]) {
            key_before_transitive(keys[a], keys[b], keys[a]);
        }
        key_before_irreflexive(keys[a]);
    }
}

fn before(a: &(bool, String), b: &(bool, String)) -> (r: bool)
    ensures
        r == key_before((a.0, a.1@), (b.0, b.1@)),
{
    (!a.0 && b.0) || (a.0 == b.0 && strings::text_precedes(a.1.as_str(), b.1.as_str()))
}

/// Whether `p` lists, in roster order, exactly the kept ones of the first `n` items.
spec fn lists_first(
    keys: Seq<(bool, Seq<char>)>,
    keep: Seq<bool>,
    n: int,
    p: Seq<usize>,
) -> bool {
    &&& forall|i: int| 0 <= i < p.len() ==> (#[trigger] p[i]) < n && keep[p[i] as int]
    &&& forall|k: usize| k < n && keep[k as int] ==> #[trigger] p.contains(k)
    &&& forall|i: int, j: int|
        0 <= i < j < p.len() ==> #[trigger] listed_before(keys, p[i] as int, p[j] as int)
}

/// Item `n` goes in front of the first listed item that it precedes.
proof fn insertion_keeps_order(
    keys: Seq<(bool, Seq<char>)>,
    keep: Seq<bool>,
    old_p: Seq<usize>,
    n: usize,
    at: int,
)
    requires
        n < keys.len(),
        keep[n as int],
        lists_first(keys, keep, n as int, old_p),
        0 <= at <= old_p.len(),
        forall|i: int| 0 <= i < at ==> !key_before(keys[n as int], #[trigger] keys[old_p[i] as int]),
        at < old_p.len() ==> key_before(keys[n as int], keys[old_p[at] as int]),
    ensures
        lists_first(keys, keep, n + 1, old_p.insert(at, n)),
{
    let p = old_p.insert(at, n);
    assert forall|i: int, j: int| 0 <= i < j < p.len() implies #[trigger] listed_before(
        keys,
        p[i] as int,
        p[j] as int,
    ) by {
        let oi = if i < at {
            i
        } else {
            i - 1
        };
        let oj = if j < at {
            j
        } else {
            j - 1
        };
        if j == at {
            assert(p[i] == old_p[i]);
            assert(!key_before(keys[n as int], keys[old_p[i] as int]));
            key_before_total(keys[n as int], keys[old_p[i] as int]);
        } else if i == at {
            assert(p[j] == old_p[oj]);
            if oj > at {
                assert(listed_before(keys, old_p[at] as int, old_p[oj] as int));
                if keys[old_p[at] as int] != keys[old_p[oj] as int] {
                    key_before_transitive(
                        keys[n as int],
                        keys[old_p[at] as int],
                        keys[old_p[oj] as int],
                    );
                }
            }
        } else {
            assert(p[i] == old_p[oi]);
            assert(p[j] == old_p[oj]);
            assert(listed_before(keys, old_p[oi] as int, old_p[oj] as int));
        }
    }
    assert forall|k: usize| k < n + 1 && keep[k as int] implies #[trigger] p.contains(k) by {
        if k == n {
            assert(p[at] == n);
        } else {
            assert(old_p.contains(k));
            let i = old_p.index_of(k);
            if i < at {
                assert(p[i] == k);
            } else {
                assert(p[i + 1] == k);
            }
        }
    }
}

/// Where item `n` goes among the listed items from place `at` on.
proof fn insertion_place(
    keys: Seq<(bool, Seq<char>)>,
    p: Seq<usize>,
    n: int,
    at: int,
) -> (place: int)
    requires
        0 <= at <= p.len(),
        forall|i: int| 0 <= i < at ==> !key_before(keys[n], #[trigger] keys[p[i] as int]),
    ensures
        at <= place <= p.len(),
        forall|i: int| 0 <= i < place ==> !key_before(keys[n], #[trigger] keys[p[i] as int]),
        place < p.len() ==> key_before(keys[n], keys[p[place] as int]),
    decreases p.len() - at,
{
    if at < p.len() && !key_before(keys[n], keys[p[at] as int]) {
        insertion_place(keys, p, n, at + 1)
    } else {
        at
    }
}

proof fn an_order_exists(keys: Seq<(bool, Seq<char>)>, keep: Seq<bool>, n: int) -> (p: Seq<usize>)
    requires
        keys.len() == keep.len(),
        0 <= n <= keys.len() <= usize::MAX,
    ensures
        lists_first(keys, keep, n, p),
    decreases n,
{
    if n == 0 {
        Seq::empty()
    } else {
        let before = an_order_exists(keys, keep, n - 1);
        if keep[n - 1] {
            let at = insertion_place(keys, before, n - 1, 0);
            insertion_keeps_order(keys, keep, before, (n - 1) as usize, at);
            before.insert(at, (n - 1) as usize)
        } else {
            before
        }
    }
}

/// Lists the kept items in roster order.
pub fn order_kept(keys: &Vec<(bool, String)>, keep: &Vec<bool>) -> (p: Vec<usize>)
    requires
        keys@.len() == keep@.len(),
    ensures
        is_roster_order(key_texts(keys@), keep@, p@),
{
    let ghost ks = key_texts(keys@);
    let mut p: Vec<usize> = Vec::new();
    let mut n: usize = 0;
    while n < keys.len()
        invariant
            ks == key_texts(keys@),
            keys@.len() == keep@.len(),
            n <= keys@.len(),
            lists_first(ks, keep@, n as int, p@),
        decreases keys@.len() - n,
    {
        if keep[n] {
            let mut at: usize = 0;
            while at < p.len() && !before(&keys[n], &keys[p[at]])
                invariant
                    ks == key_texts(keys@),
                    n < keys@.len(),
                    at <= p@.len(),
                    forall|i: int| 0 <= i < p@.len() ==> (#[trigger] p@[i]) < n,
                    forall|i: int| 0 <= i < at ==> !key_before(ks[n as int], #[trigger] ks[p@[i] as int]),
                decreases p@.len() - at,
            {
                at += 1;
            }
            proof {
                insertion_keeps_order(ks, keep@, p@, n, at as int);
            }
            p.insert(at, n);
        }
        n += 1;
    }
    p
}

/// There is only one roster order.
pub proof fn roster_order_is_unique(
    keys: Seq<(bool, Seq<char>)>,
    keep: Seq<bool>,
    p: Seq<usize>,
    q: Seq<usize>,
)
    requires
        keys.len() == keep.len(),
        is_roster_order(keys, keep, p),
        is_roster_order(keys, keep, q),
    ensures
        p == q,
{
    assert forall|i: int| 0 <= i < p.len() && i < q.len() implies p[i] == q[i] by {
        same_place(keys, keep, p, q, i);
    }
    no_extra_item(keys, keep, p, q);
    no_extra_item(keys, keep, q, p);
    assert(p =~= q);
}

proof fn same_place(
    keys: Seq<(bool, Seq<char>)>,
    keep: Seq<bool>,
    p: Seq<usize>,
    q: Seq<usize>,
    i: int,
)
    requires
        keys.len() == keep.len(),
        is_roster_order(keys, keep, p),
        is_roster_order(keys, keep, q),
        0 <= i < p.len(),
        i < q.len(),
    ensures
        p[i] == q[i],
    decreases i,
{
    assert forall|k: int| 0 <= k < i implies p[k] == q[k] by {
        same_place(keys, keep, p, q, k);
    }
    if p[i] != q[i] {
        assert(q.contains(p[i]));
        let j = q.index_of(p[i]);
        assert(p.contains(q[i]));
        let l = p.index_of(q[i]);
        if j < i {
            assert(p[j] == q[j]);
            assert(listed_before(keys, p[j] as int, p[i] as int));
            key_before_irreflexive(keys[p[i] as int]);
        } else if l < i {
            assert(p[l] == q[l]);
            assert(listed_before(keys, q[l] as int, q[i] as int));
            key_before_irreflexive(keys[q[i] as int]);
        } else {
            assert(listed_before(keys, q[i] as int, q[j] as int));
            assert(listed_before(keys, p[i] as int, p[l] as int));
            listed_before_asymmetric(keys, p[i] as int, q[i] as int);
        }
    }
}

proof fn no_extra_item(
    keys: Seq<(bool, Seq<char>)>,
    keep: Seq<bool>,
    p: Seq<usize>,
    q: Seq<usize>,
)
    requires
        keys.len() == keep.len(),
        is_roster_order(keys, keep, p),
        is_roster_order(keys, keep, q),
    ensures
        q.len() <= p.len(),
{
    if p.len() < q.len() {
        let extra = p.len() as int;
        assert(p.contains(q[extra]));
        let i = p.index_of(q[extra]);
        same_place(keys, keep, p, q, i);
        assert(listed_before(keys, q[i] as int, q[extra] as int));
        key_before_irreflexive(keys[q[i] as int]);
    }
}

// --- the roster --------------------------------------------------------------

/// The sort keys of a list of devices.
pub open spec fn device_keys(devices: Seq<DeviceState>) -> Seq<(bool, Seq<char>)> {
    devices.map_values(|d: DeviceState| sort_key(d.info.name@, d.presence))
}

/// Whether `list` shows, in roster order, exactly the devices that are flagged
/// as shown and still say something at `now`.
pub open spec fn is_roster(
    devices: Seq<DeviceState>,
    shown: Seq<bool>,
    now: BootTime,
    list: Seq<DeviceState>,
) -> bool {
    exists|p: Seq<usize>| #[trigger] is_roster_by(devices, shown, now, list, p)
}

/// As `is_roster`, where place `i` of the list shows device `p[i]`.
pub open spec fn is_roster_by(
    devices: Seq<DeviceState>,
    shown: Seq<bool>,
    now: BootTime,
    list: Seq<DeviceState>,
    p: Seq<usize>,
) -> bool {
    &&& is_roster_order(device_keys(devices), kept(devices, shown, now), p)
    &&& list == p.map_values(|k: usize| devices[k as int])
}

/// Which devices are visible at `now`.
pub open spec fn kept(devices: Seq<DeviceState>, shown: Seq<bool>, now: BootTime) -> Seq<bool> {
    Seq::new(devices.len(), |i: int| shown[i] && speaks(devices[i], now))
}

/// The devices a status surface shows, in display order.
#[derive(Debug, PartialEq, Eq)]
pub struct Roster<'a> {
    devices: Vec<&'a DeviceState>,
}

impl<'a> View for Roster<'a> {
    type V = Seq<DeviceState>;

    closed spec fn view(&self) -> Seq<DeviceState> {
        self.devices@.map_values(|d: &'a DeviceState| *d)
    }
}

/// The first device of `list` that is named `name`.
pub open spec fn first_named(list: Seq<DeviceState>, name: Seq<char>) -> Option<DeviceState>
    decreases list.len(),
{
    if list.len() == 0 {
        None
    } else if list[0].info.name@ == name {
        Some(list[0])
    } else {
        first_named(list.drop_first(), name)
    }
}

/// The device a single view shows out of `list`.
pub open spec fn featured_of(list: Seq<DeviceState>, primary: Option<Seq<char>>) -> Option<
    DeviceState,
> {
    let pinned = match primary {
        Some(name) => first_named(list, name),
        None => None,
    };
    if pinned is Some {
        pinned
    } else if list.len() > 0 {
        Some(list[0])
    } else {
        None
    }
}

impl<'a> Roster<'a> {
    pub fn visible(
        devices: &'a [DeviceState],
        is_shown: impl Fn(&str) -> bool,
        now: BootTime,
    ) -> (r: Self)
        requires
            forall|name: &str| call_requires(is_shown, (name,)),
        ensures
            exists|shown: Seq<bool>|
                {
                    &&& shown.len() == devices@.len()
                    &&& forall|i: int|
                        0 <= i < devices@.len() ==> answers(
                            is_shown,
                            devices@[i].info.name@,
                            #[trigger] shown[i],
                        )
                    &&& #[trigger] is_roster(devices@, shown, now, r@)
                },
    {
        let max_age = retained_icon_max_age();
        let mut keys: Vec<(bool, String)> = Vec::new();
        let mut keep: Vec<bool> = Vec::new();
        let ghost mut shown: Seq<bool> = Seq::empty();
        let mut i: usize = 0;
        while i < devices.len()
            invariant
                i <= devices@.len(),
                forall|name: &str| call_requires(is_shown, (name,)),
                max_age@ == RETAINED_ICON_MAX_AGE_SECS * 1_000_000_000,
                keys@.len() == i,
                keep@.len() == i,
                shown.len() == i,
                key_texts(keys@) == device_keys(devices@).take(i as int),
                forall|k: int|
                    0 <= k < i ==> answers(is_shown, devices@[k].info.name@, #[trigger] shown[k]),
                forall|k: int|
                    0 <= k < i ==> #[trigger] keep@[k] == (shown[k] && speaks(devices@[k], now)),
            decreases devices@.len() - i,
        {
            let device = &devices[i];
            let name = device.info.name.as_str();
            let flag = is_shown(name);
            assert(answers(is_shown, device.info.name@, flag));
            let informative = device.is_currently_informative(now, max_age);
            keep.push(flag && informative);
            keys.push(roster_order(name, device.presence));
            proof {
                shown = shown.push(flag);
                assert(key_texts(keys@) =~= device_keys(devices@).take(i + 1));
            }
            i += 1;
        }
        assert(device_keys(devices@).take(i as int) =~= device_keys(devices@));
        assert(keep@ =~= kept(devices@, shown, now));
        let p = order_kept(&keys, &keep);
        let mut list: Vec<&'a DeviceState> = Vec::new();
        let mut j: usize = 0;
        while j < p.len()
            invariant
                j <= p@.len(),
                forall|k: int| 0 <= k < p@.len() ==> (#[trigger] p@[k]) < devices@.len(),
                list@.len() == j,
                forall|k: int| 0 <= k < j ==> *(#[trigger] list@[k]) == devices@[p@[k] as int],
            decreases p@.len() - j,
        {
            list.push(&devices[p[j]]);
            j += 1;
        }
        let r = Roster { devices: list };
        assert(r@ =~= p@.map_values(|k: usize| devices@[k as int]));
        assert(is_roster_by(devices@, shown, now, r@, p@));
        assert(is_roster(devices@, shown, now, r@));
        r
    }

    pub fn devices(&self) -> (list: &[&'a DeviceState])
        ensures
            list@.map_values(|d: &'a DeviceState| *d) == self@,
    {
        self.devices.as_slice()
    }

    /// The device a single view (aggregate icon, `--waybar`) shows.
    ///
    /// The pin is by name and applies while a device of that name is visible;
    /// among devices sharing the name, or with no pin, the first in roster
    /// order wins, and that order puts online devices first.
    pub fn featured(&self, primary: Option<&str>) -> (r: Option<&'a DeviceState>)
        ensures
            (match r {
                Some(d) => Some(*d),
                None => None,
            }) == featured_of(self@, i18n::optional_text(primary)),
    {
        if let Some(name) = primary {
            let mut i: usize = 0;
            assert(self@.skip(0) == self@);
            while i < self.devices.len()
                invariant
                    i <= self.devices@.len(),
                    primary == Some(name),
                    first_named(self@, name@) == first_named(self@.skip(i as int), name@),
                decreases self.devices@.len() - i,
            {
                assert(self@.skip(i as int).drop_first() == self@.skip(i + 1));
                if *self.devices[i].info.name.as_str() == *name {
                    return Some(self.devices[i]);
                }
                i += 1;
            }
        }
        if self.devices.len() > 0 {
            Some(self.devices[0])
        } else {
            None
        }
    }
}

// --- laws --------------------------------------------------------------------

/// A roster is determined by the devices and by which of them are shown.
pub proof fn roster_is_unique(
    devices: Seq<DeviceState>,
    shown: Seq<bool>,
    now: BootTime,
    a: Seq<DeviceState>,
    b: Seq<DeviceState>,
)
    requires
        devices.len() <= usize::MAX,
        is_roster(devices, shown, now, a),
        is_roster(devices, shown, now, b),
    ensures
        a == b,
{
    let p = choose|p: Seq<usize>| #[trigger] is_roster_by(devices, shown, now, a, p);
    let q = choose|q: Seq<usize>| #[trigger] is_roster_by(devices, shown, now, b, q);
    roster_order_is_unique(device_keys(devices), kept(devices, shown, now), p, q);
}

/// There always is a roster.
pub proof fn a_roster_exists(devices: Seq<DeviceState>, shown: Seq<bool>, now: BootTime)
    requires
        shown.len() == devices.len(),
        devices.len() <= usize::MAX,
    ensures
        exists|list: Seq<DeviceState>| is_roster(devices, shown, now, list),
{
    let keys = device_keys(devices);
    let p = an_order_exists(keys, kept(devices, shown, now), keys.len() as int);
    let list = p.map_values(|k: usize| devices[k as int]);
    assert(is_roster_by(devices, shown, now, list, p));
    assert(is_roster(devices, shown, now, list));
}

/// Whether `d` is one of the devices, shown and still saying something at `now`.
pub open spec fn is_shown_device(
    devices: Seq<DeviceState>,
    shown: Seq<bool>,
    now: BootTime,
    d: DeviceState,
) -> bool {
    exists|k: int|
        0 <= k < devices.len() && shown[k] && speaks(d, now) && #[trigger] devices[k] == d
}

/// Every device on a roster is one of the devices, shown and still saying
/// something; every such device is on it.
pub proof fn roster_holds_the_visible(
    devices: Seq<DeviceState>,
    shown: Seq<bool>,
    now: BootTime,
    list: Seq<DeviceState>,
)
    requires
        devices.len() <= usize::MAX,
        is_roster(devices, shown, now, list),
    ensures
        forall|i: int|
            0 <= i < list.len() ==> is_shown_device(devices, shown, now, #[trigger] list[i]),
        forall|k: int|
            0 <= k < devices.len() && shown[k] && speaks(devices[k], now) ==> list.contains(
                #[trigger] devices[k],
            ),
{
    let p = choose|p: Seq<usize>| #[trigger] is_roster_by(devices, shown, now, list, p);
    assert forall|i: int| 0 <= i < list.len() implies is_shown_device(
        devices,
        shown,
        now,
        #[trigger] list[i],
    ) by {
        assert(kept(devices, shown, now)[p[i] as int]);
        assert(devices[p[i] as int] == list[i]);
    }
    assert forall|k: int|
        0 <= k < devices.len() && shown[k] && speaks(devices[k], now) implies list.contains(
        #[trigger] devices[k],
    ) by {
        assert(kept(devices, shown, now)[k]);
        assert(p.contains(k as usize));
        let i = p.index_of(k as usize);
        assert(list[i] == devices[k]);
    }
}

/// On a roster every online device comes before every other one.
pub proof fn online_devices_come_first(
    devices: Seq<DeviceState>,
    shown: Seq<bool>,
    now: BootTime,
    list: Seq<DeviceState>,
    i: int,
    j: int,
)
    requires
        is_roster(devices, shown, now, list),
        0 <= i < j < list.len(),
        list[j].presence == Presence::Online,
    ensures
        list[i].presence == Presence::Online,
{
    let p = choose|p: Seq<usize>| #[trigger] is_roster_by(devices, shown, now, list, p);
    assert(listed_before(device_keys(devices), p[i] as int, p[j] as int));
}

/// Without a pin, a single view shows an online device whenever one is visible.
pub proof fn an_online_device_is_featured(
    devices: Seq<DeviceState>,
    shown: Seq<bool>,
    now: BootTime,
    list: Seq<DeviceState>,
    i: int,
)
    requires
        is_roster(devices, shown, now, list),
        0 <= i < list.len(),
        list[i].presence == Presence::Online,
    ensures
        featured_of(list, None) is Some,
        featured_of(list, None)->0.presence == Presence::Online,
{
    if i > 0 {
        online_devices_come_first(devices, shown, now, list, 0, i);
    }
}

/// A single view shows a device exactly when there is one to show.
pub proof fn something_is_featured(list: Seq<DeviceState>, primary: Option<Seq<char>>)
    ensures
        featured_of(list, primary) is Some <==> list.len() > 0,
{
    if primary is Some {
        first_named_is_listed(list, primary->0);
    }
}

/// A pin on a visible device wins.
pub proof fn a_visible_pin_is_featured(list: Seq<DeviceState>, name: Seq<char>, i: int)
    requires
        0 <= i < list.len(),
        list[i].info.name@ == name,
    ensures
        featured_of(list, Some(name)) is Some,
        featured_of(list, Some(name))->0.info.name@ == name,
{
    pin_is_found(list, name, i);
}

proof fn pin_is_found(list: Seq<DeviceState>, name: Seq<char>, i: int)
    requires
        0 <= i < list.len(),
        list[i].info.name@ == name,
    ensures
        first_named(list, name) is Some,
        first_named(list, name)->0.info.name@ == name,
    decreases list.len(),
{
    if list[0].info.name@ != name {
        pin_is_found(list.drop_first(), name, i - 1);
    }
}

/// The featured device is one of the listed.
pub proof fn featured_is_listed(list: Seq<DeviceState>, primary: Option<Seq<char>>)
    ensures
        featured_of(list, primary) matches Some(d) ==> list.contains(d),
{
    if primary is Some {
        first_named_is_listed(list, primary->0);
    }
}

proof fn first_named_is_listed(list: Seq<DeviceState>, name: Seq<char>)
    ensures
        first_named(list, name) matches Some(d) ==> list.contains(d),
    decreases list.len(),
{
    if list.len() > 0 {
        let rest = list.drop_first();
        first_named_is_listed(rest, name);
        if list[0].info.name@ != name && first_named(rest, name) is Some {
            let i = rest.index_of(first_named(rest, name)->0);
            assert(list[i + 1] == rest[i]);
        }
    }
}

} // verus!
