//! Devices: which are the same, how charged they are said to be, and which are
//! shown in which order.

use crate::cli::waybar;
use crate::config::Settings;
use crate::domain::primary;
use crate::domain::roster;
use crate::domain::time::BootTime;
use crate::domain::types::{self, ChargeState, DeviceInfo, DeviceKind, DeviceState, Presence};
use crate::laws::icons;
use crate::laws::words;
use crate::strings;
use vstd::prelude::*;

verus! {

/// Two devices are the same exactly if they have the same name, are reached the
/// same way, and have the same locator or both none.
pub proof fn a_device_is_its_name_transport_and_locator(a: DeviceInfo, b: DeviceInfo)
    ensures
        (a.key() == b.key()) <==> {
            &&& a.name@ == b.name@
            &&& a.transport == b.transport
            &&& (a.locator is None) == (b.locator is None)
            &&& a.locator is Some ==> a.locator->0@ == b.locator->0@
        },
{
}

// --- status ------------------------------------------------------------------

/// A device that was read has the status of that reading and carries its
/// percent; one that never was is offline.
pub proof fn a_status_carries_what_was_read(d: DeviceState, threshold: u8)
    ensures
        d.last_reading is Some ==> icons::carried(primary::status_of(d, threshold).0) == Some(
            d.last_reading->0.percent,
        ),
        (primary::status_of(d, threshold).0 is Offline) == (d.last_reading is None),
{
}

/// A device charges exactly if it is online and its reading says so; of the
/// others those are low that read no more than the threshold.
pub proof fn a_status_is_charging_low_or_normal(d: DeviceState, threshold: u8)
    requires
        d.last_reading is Some,
    ensures
        ({
            let (status, stale) = primary::status_of(d, threshold);
            let charging = d.presence == Presence::Online && d.last_reading->0.state
                == ChargeState::Charging;
            &&& (status is Charging) == charging
            &&& (status is Low) == (!charging && d.last_reading->0.percent <= threshold)
            &&& (status is Normal) == (!charging && d.last_reading->0.percent > threshold)
        }),
{
}

/// A status is a memory exactly if it rests on a reading of a device that is not
/// online.
pub proof fn a_status_is_stale_off_line(d: DeviceState, threshold: u8)
    ensures
        primary::status_of(d, threshold).1 == (d.presence != Presence::Online
            && d.last_reading is Some),
{
}

// --- who is shown ------------------------------------------------------------

/// A device has something to say while it is online or may not be opened, and
/// else for a day after it was last read.
pub open spec fn says_something(d: DeviceState, now: BootTime) -> bool {
    ||| d.presence == Presence::Online
    ||| d.presence == Presence::NoAccess
    ||| d.last_reading is Some && d.last_seen is Some && words::nanos_between(d.last_seen->0, now)
        <= 86_400_000_000_000
}

/// On a status surface stand exactly the devices that are not hidden and have
/// something to say.
pub proof fn the_listed_are_the_shown_that_say_something(
    states: Seq<DeviceState>,
    s: Settings,
    now: BootTime,
    d: DeviceState,
)
    requires
        states.len() <= usize::MAX,
    ensures
        waybar::listed(states, s, now).contains(d) <==> states.contains(d) && !s.hidden.contains(
            d.info.name@,
        ) && says_something(d, now),
{
    let shown = waybar::shown_by(states, s);
    let list = waybar::listed(states, s, now);
    waybar::the_list_is_the_roster(states, s, now);
    roster::roster_holds_the_visible(states, shown, now, list);
    assert(roster::speaks(d, now) == says_something(d, now));
    if list.contains(d) {
        let i = list.index_of(d);
        assert(roster::is_shown_device(states, shown, now, list[i]));
    }
    if states.contains(d) && !s.hidden.contains(d.info.name@) && says_something(d, now) {
        let k = states.index_of(d);
        assert(shown[k]);
        assert(roster::speaks(states[k], now));
    }
}

/// Of different devices none is listed twice.
pub proof fn the_list_repeats_nobody(
    states: Seq<DeviceState>,
    s: Settings,
    now: BootTime,
    i: int,
    j: int,
)
    requires
        states.len() <= usize::MAX,
        0 <= i < j < waybar::listed(states, s, now).len(),
        forall|a: int, b: int|
            0 <= a < b < states.len() ==> (#[trigger] states[a]).info.key() != (
            #[trigger] states[b]).info.key(),
    ensures
        waybar::listed(states, s, now)[i].info.key() != waybar::listed(
            states,
            s,
            now,
        )[j].info.key(),
{
    waybar::the_list_is_the_roster(states, s, now);
    let shown = waybar::shown_by(states, s);
    let list = waybar::listed(states, s, now);
    let p = choose|p: Seq<usize>| #[trigger] roster::is_roster_by(states, shown, now, list, p);
    let keys = roster::device_keys(states);
    assert(roster::listed_before(keys, p[i] as int, p[j] as int));
    if p[i] == p[j] {
        strings::precedes_irreflexive(keys[p[i] as int].1);
    }
    assert(list[i] == states[p[i] as int]);
    assert(list[j] == states[p[j] as int]);
}

/// On a status surface the online devices come first, and among them, as among
/// the others, whoever has the smaller name in lower case.
pub proof fn the_listed_are_in_order(
    states: Seq<DeviceState>,
    s: Settings,
    now: BootTime,
    i: int,
    j: int,
)
    requires
        states.len() <= usize::MAX,
        0 <= i < j < waybar::listed(states, s, now).len(),
    ensures
        ({
            let a = waybar::listed(states, s, now)[i];
            let b = waybar::listed(states, s, now)[j];
            &&& b.presence == Presence::Online ==> a.presence == Presence::Online
            &&& (a.presence == Presence::Online) == (b.presence == Presence::Online)
                ==> !strings::precedes(
                strings::lowercase(b.info.name@),
                strings::lowercase(a.info.name@),
            )
        }),
{
    waybar::the_list_is_the_roster(states, s, now);
    let shown = waybar::shown_by(states, s);
    let list = waybar::listed(states, s, now);
    let p = choose|p: Seq<usize>| #[trigger] roster::is_roster_by(states, shown, now, list, p);
    let keys = roster::device_keys(states);
    assert(roster::listed_before(keys, p[i] as int, p[j] as int));
    let a = list[i];
    let b = list[j];
    assert(a == states[p[i] as int]);
    assert(b == states[p[j] as int]);
    let x = strings::lowercase(a.info.name@);
    let y = strings::lowercase(b.info.name@);
    if strings::precedes(y, x) {
        if strings::precedes(x, y) {
            strings::precedes_transitive(x, y, x);
        }
        strings::precedes_irreflexive(x);
    }
}

/// One text comes before another exactly if it is a part of it that ends early,
/// or has the smaller character where they first differ.
pub proof fn texts_are_ordered_by_their_first_difference(a: Seq<char>, b: Seq<char>, n: int)
    requires
        0 <= n <= a.len(),
        n <= b.len(),
        a.take(n) == b.take(n),
    ensures
        n == a.len() && n < b.len() ==> strings::precedes(a, b) && !strings::precedes(b, a),
        n < a.len() && n < b.len() && a[n] != b[n] ==> strings::precedes(a, b) == (a[n] < b[n]),
    decreases a.len(),
{
    if n > 0 {
        assert(a[0] == a.take(n)[0]);
        assert(b[0] == b.take(n)[0]);
        let x = a.drop_first();
        let y = b.drop_first();
        assert(x.take(n - 1) =~= a.take(n).drop_first());
        assert(y.take(n - 1) =~= b.take(n).drop_first());
        texts_are_ordered_by_their_first_difference(x, y, n - 1);
    }
}

/// A single view shows the first listed device with the pinned name, and without
/// one the first of the list.
pub proof fn a_single_view_shows_the_pin_or_the_first(
    list: Seq<DeviceState>,
    pin: Option<Seq<char>>,
    i: int,
)
    requires
        0 <= i < list.len(),
        pin is Some ==> forall|k: int| 0 <= k < i ==> (#[trigger] list[k]).info.name@ != pin->0,
    ensures
        pin is Some && list[i].info.name@ == pin->0 ==> roster::featured_of(list, pin) == Some(
            list[i],
        ),
        pin is Some && list[i].info.name@ != pin->0 && i == list.len() - 1 ==> roster::featured_of(
            list,
            pin,
        ) == Some(list[0]),
        pin is None ==> roster::featured_of(list, pin) == Some(list[0]),
{
    if pin is Some {
        the_first_named_is_found(list, pin->0, i);
    }
}

proof fn the_first_named_is_found(list: Seq<DeviceState>, name: Seq<char>, i: int)
    requires
        0 <= i < list.len(),
        forall|k: int| 0 <= k < i ==> (#[trigger] list[k]).info.name@ != name,
    ensures
        list[i].info.name@ == name ==> roster::first_named(list, name) == Some(list[i]),
        list[i].info.name@ != name && i == list.len() - 1 ==> roster::first_named(list, name)
            is None,
    decreases list.len(),
{
    if i > 0 {
        assert(list[0].info.name@ != name);
        let rest = list.drop_first();
        assert forall|k: int| 0 <= k < i - 1 implies (#[trigger] rest[k]).info.name@ != name by {
            assert(list[k + 1].info.name@ != name);
        }
        the_first_named_is_found(rest, name, i - 1);
    } else if list[0].info.name@ != name {
        if list.len() == 1 {
            assert(roster::first_named(list.drop_first(), name) is None);
        }
    }
}

// --- kinds -------------------------------------------------------------------

/// A name that has the word mouse in it is a mouse's, or else the word keyboard a
/// keyboard's; a headset's and a controller's are told by their words where
/// neither of those stands.
pub proof fn a_category_in_the_name_decides(lower: Seq<char>)
    ensures
        ({
            let kind = types::kind_of(lower);
            let mouse = strings::occurs(lower, "mouse"@);
            let keyboard = strings::occurs(lower, "keyboard"@);
            let headset = strings::occurs(lower, "headset"@) || strings::occurs(
                lower,
                "headphone"@,
            ) || strings::occurs(lower, "earphone"@) || strings::occurs(lower, "earbud"@)
                || strings::occurs(lower, "buds"@);
            let controller = strings::occurs(lower, "controller"@) || strings::occurs(
                lower,
                "gamepad"@,
            );
            &&& mouse ==> kind == DeviceKind::Mouse
            &&& !mouse && keyboard ==> kind == DeviceKind::Keyboard
            &&& !mouse && !keyboard && headset ==> kind == DeviceKind::Headset
            &&& !mouse && !keyboard && !headset && controller ==> kind == DeviceKind::Controller
        }),
{
    let h = types::headset_categories();
    let c = types::controller_categories();
    assert(h[0] == "headset"@ && h[1] == "headphone"@ && h[2] == "earphone"@ && h[3] == "earbud"@
        && h[4] == "buds"@);
    assert(c[0] == "controller"@ && c[1] == "gamepad"@);
}

/// Whether one of these stands in the name.
pub open spec fn names_one_of(lower: Seq<char>, lines: Seq<Seq<char>>) -> bool {
    exists|i: int| 0 <= i < lines.len() && strings::occurs(lower, #[trigger] lines[i])
}

/// A name without a category is a headset's where a word of it says so, and else
/// that of the first kind whose product lines it names; it is nothing known where
/// it names none.
pub proof fn else_the_product_line_decides(lower: Seq<char>)
    requires
        types::stated_kind(lower) is None,
    ensures
        ({
            let kind = types::kind_of(lower);
            let word = types::has_word(
                lower,
                seq![
                    "ear"@,
                    "buds"@,
                    "earbuds"@,
                    "airpods"@,
                    "headphone"@,
                    "headphones"@,
                    "earphone"@,
                ],
            );
            let mouse = names_one_of(
                lower,
                seq![
                    "aerox"@,
                    "rival"@,
                    "viper"@,
                    "deathadder"@,
                    "basilisk"@,
                    "mx anywhere"@,
                    "mx master"@,
                    "g pro"@,
                    "m705"@,
                    "m750"@,
                ],
            );
            let keyboard = names_one_of(
                lower,
                seq![
                    "apex"@,
                    "huntsman"@,
                    "k70"@,
                    "k95"@,
                    "g915"@,
                    "air75"@,
                    "air96"@,
                    "nuphy"@,
                    "keychron"@,
                ],
            );
            let headset = names_one_of(
                lower,
                seq!["hitune"@, "arctis"@, "wh-"@, "wf-"@, "momentum"@, "qc"@],
            );
            let controller = names_one_of(
                lower,
                seq!["dualsense"@, "dualshock"@, "xbox"@, "joycon"@, "8bitdo"@],
            );
            &&& word ==> kind == DeviceKind::Headset
            &&& !word && mouse ==> kind == DeviceKind::Mouse
            &&& !word && !mouse && keyboard ==> kind == DeviceKind::Keyboard
            &&& !word && !mouse && !keyboard && headset ==> kind == DeviceKind::Headset
            &&& !word && !mouse && !keyboard && !headset && controller ==> kind
                == DeviceKind::Controller
            &&& !word && !mouse && !keyboard && !headset && !controller ==> kind
                == DeviceKind::Other
        }),
{
    assert(names_one_of(lower, types::mouse_models()) == types::mentions_any(
        lower,
        types::mouse_models(),
    ));
    assert(names_one_of(lower, types::keyboard_models()) == types::mentions_any(
        lower,
        types::keyboard_models(),
    ));
    assert(names_one_of(lower, types::headset_models()) == types::mentions_any(
        lower,
        types::headset_models(),
    ));
    assert(names_one_of(lower, types::controller_models()) == types::mentions_any(
        lower,
        types::controller_models(),
    ));
}

/// A text stands in another if some part of that spells it.
pub proof fn a_word_occurs_where_it_is_spelt(hay: Seq<char>, needle: Seq<char>, i: int)
    requires
        0 <= i,
        i + needle.len() <= hay.len(),
    ensures
        (forall|k: int| 0 <= k < needle.len() ==> hay[i + k] == #[trigger] needle[k])
            ==> strings::occurs(hay, needle),
{
    if forall|k: int| 0 <= k < needle.len() ==> hay[i + k] == #[trigger] needle[k] {
        assert(hay.subrange(i, i + needle.len()) =~= needle);
        assert(strings::occurs_at(hay, needle, i));
    }
}

// --- readings ----------------------------------------------------------------

/// A reading holds the percent it was made of, and a whole battery where that is
/// more.
pub proof fn a_reading_is_at_most_full(raw: u8)
    ensures
        types::percent_of(raw) <= 100,
        raw <= 100 ==> types::percent_of(raw) == raw,
        raw > 100 ==> types::percent_of(raw) == 100,
{
}

// --- by name -----------------------------------------------------------------

/// Of names with a flag for who is online, the pinned one is picked where it is
/// listed, else the first that is online, else the first.
pub proof fn the_pin_then_the_first_online_is_picked(
    shown: Seq<(Seq<char>, bool)>,
    pin: Option<Seq<char>>,
    i: int,
)
    requires
        0 <= i < shown.len(),
    ensures
        pin is Some && shown[i].0 == pin->0 ==> primary::featured_name(shown, pin) == pin,
        (pin is None || forall|k: int|
            0 <= k < shown.len() ==> (#[trigger] shown[k]).0 != pin->0) ==> {
            &&& shown[i].1 && (forall|k: int| 0 <= k < i ==> !(#[trigger] shown[k]).1)
                ==> primary::featured_name(shown, pin) == Some(shown[i].0)
            &&& (forall|k: int| 0 <= k < shown.len() ==> !(#[trigger] shown[k]).1)
                ==> primary::featured_name(shown, pin) == Some(shown[0].0)
        },
{
    if shown[i].1 && (forall|k: int| 0 <= k < i ==> !(#[trigger] shown[k]).1) {
        the_first_online_is_found(shown, i);
    }
    if forall|k: int| 0 <= k < shown.len() ==> !(#[trigger] shown[k]).1 {
        nobody_is_found_online(shown);
    }
}

proof fn the_first_online_is_found(shown: Seq<(Seq<char>, bool)>, i: int)
    requires
        0 <= i < shown.len(),
        shown[i].1,
        forall|k: int| 0 <= k < i ==> !(#[trigger] shown[k]).1,
    ensures
        primary::first_online(shown) == Some(shown[i].0),
    decreases shown.len(),
{
    if i > 0 {
        let rest = shown.drop_first();
        assert(!shown[0].1);
        assert forall|k: int| 0 <= k < i - 1 implies !(#[trigger] rest[k]).1 by {
            assert(!shown[k + 1].1);
        }
        the_first_online_is_found(rest, i - 1);
    }
}

proof fn nobody_is_found_online(shown: Seq<(Seq<char>, bool)>)
    requires
        forall|k: int| 0 <= k < shown.len() ==> !(#[trigger] shown[k]).1,
    ensures
        primary::first_online(shown) is None,
    decreases shown.len(),
{
    if shown.len() > 0 {
        let rest = shown.drop_first();
        assert(!shown[0].1);
        assert forall|k: int| 0 <= k < rest.len() implies !(#[trigger] rest[k]).1 by {
            assert(!shown[k + 1].1);
        }
        nobody_is_found_online(rest);
    }
}

} // verus!
