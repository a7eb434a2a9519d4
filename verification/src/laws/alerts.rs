//! Low-battery alerts: who is announced, and when.

use crate::config::Settings;
use crate::domain::time::BootTime;
use crate::domain::types::{ChargeState, DeviceKey, DeviceState, Presence};
use crate::i18n::Lang;
use crate::laws::settings;
use crate::notifications::{self, Alert, Level, Toast};
use crate::strings;
use vstd::prelude::*;

verus! {

/// Whether a device is shown and online, and its reading is that of a battery
/// that does not charge and has no more than the percent its own override names,
/// or the settings where it has none.
pub open spec fn runs_low(d: DeviceState, s: Settings) -> bool {
    &&& !s.hidden.contains(d.info.name@)
    &&& d.presence == Presence::Online
    &&& d.last_reading matches Some(r) && r.state != ChargeState::Charging && r.percent
        <= settings::own_threshold(s, d.info.name@)
}

/// A shown, online device counts as low exactly if it does not charge and reads
/// no more than its own threshold; it is re-armed exactly if it charges or reads
/// five percent more than that.
pub proof fn a_device_is_low_by_its_own_threshold(d: DeviceState, s: Settings)
    requires
        d.last_reading is Some,
        d.last_reading->0.percent <= 100,
        d.presence == Presence::Online,
        !s.hidden.contains(d.info.name@),
    ensures
        notifications::concerns(d, s),
        (notifications::device_level(d, s) == Level::Low) == runs_low(d, s),
        (notifications::device_level(d, s) == Level::Rearmed) == (d.last_reading->0.state
            == ChargeState::Charging || d.last_reading->0.percent >= settings::own_threshold(
            s,
            d.info.name@,
        ) + 5),
{
    settings::thresholds_are_the_settings(s, d.info.name@);
}

/// A device that is hidden, or not online, is no concern.
pub proof fn the_hidden_and_the_absent_are_no_concern(d: DeviceState, s: Settings)
    ensures
        notifications::concerns(d, s) == (!s.hidden.contains(d.info.name@) && d.presence
            == Presence::Online),
{
}

/// Whether the device of `key` stands at place `i` of the list and nowhere else.
pub open spec fn listed_once(devices: Seq<DeviceState>, i: int, key: DeviceKey) -> bool {
    &&& 0 <= i < devices.len()
    &&& devices[i].info.key() == key
    &&& forall|k: int| 0 <= k < devices.len() && k != i ==> (#[trigger] devices[k]).info.key() != key
}

proof fn others_are_not_observed(
    alerts: spec_fn(DeviceKey) -> Alert,
    devices: Seq<DeviceState>,
    s: Settings,
    key: DeviceKey,
)
    requires
        forall|k: int| 0 <= k < devices.len() ==> (#[trigger] devices[k]).info.key() != key,
    ensures
        notifications::observed_all(alerts, devices, s)(key) == alerts(key),
    decreases devices.len(),
{
    if devices.len() > 0 {
        let earlier = devices.drop_last();
        assert forall|k: int| 0 <= k < earlier.len() implies (#[trigger] earlier[k]).info.key()
            != key by {
            assert(devices[k] == earlier[k]);
        }
        others_are_not_observed(alerts, earlier, s, key);
        assert(devices[devices.len() - 1] == devices.last());
    }
}

proof fn one_is_observed(
    alerts: spec_fn(DeviceKey) -> Alert,
    devices: Seq<DeviceState>,
    s: Settings,
    i: int,
    key: DeviceKey,
)
    requires
        listed_once(devices, i, key),
        notifications::concerns(devices[i], s),
    ensures
        notifications::observed_all(alerts, devices, s)(key) == notifications::observed(
            alerts(key),
            notifications::device_level(devices[i], s),
            devices[i].last_seen,
        ),
        notifications::fires(
            alerts(key),
            notifications::device_level(devices[i], s),
            devices[i].last_seen,
        ) && devices[i].last_reading is Some ==> notifications::due(alerts, devices, s).contains(
            (devices[i].info.name@, devices[i].last_reading->0.percent),
        ),
    decreases devices.len(),
{
    let earlier = devices.drop_last();
    let last = devices.last();
    assert(devices[devices.len() - 1] == last);
    assert forall|k: int| 0 <= k < earlier.len() implies (#[trigger] earlier[k]) == devices[k] by {}
    if i < devices.len() - 1 {
        assert(earlier[i] == devices[i]);
        one_is_observed(alerts, earlier, s, i, key);
        let before = notifications::due(alerts, earlier, s);
        let after = notifications::due(alerts, devices, s);
        if devices[i].last_reading is Some {
            let one = (devices[i].info.name@, devices[i].last_reading->0.percent);
            if before.contains(one) {
                assert(after[before.index_of(one)] == one);
            }
        }
    } else {
        others_are_not_observed(alerts, earlier, s, key);
        let before = notifications::due(alerts, earlier, s);
        let after = notifications::due(alerts, devices, s);
        if notifications::fires(
            alerts(key),
            notifications::device_level(last, s),
            last.last_seen,
        ) {
            assert(after[before.len() as int] == after.last());
        }
    }
}

/// Two readings in a row, taken at different times, of a device that runs low,
/// and of which nothing is remembered: it is announced by its name and what it
/// reads.
pub proof fn a_device_that_runs_low_is_announced(
    alerts: spec_fn(DeviceKey) -> Alert,
    first: Seq<DeviceState>,
    second: Seq<DeviceState>,
    i: int,
    j: int,
    key: DeviceKey,
    s: Settings,
)
    requires
        !alerts(key).notified,
        alerts(key).streak is None,
        listed_once(first, i, key),
        listed_once(second, j, key),
        runs_low(first[i], s),
        runs_low(second[j], s),
        first[i].last_reading->0.percent <= 100,
        second[j].last_reading->0.percent <= 100,
        first[i].last_seen is Some,
        second[j].last_seen is Some,
        first[i].last_seen != second[j].last_seen,
    ensures
        ({
            let once = notifications::observed_all(
                notifications::of_listed(alerts, first),
                first,
                s,
            );
            notifications::due(notifications::of_listed(once, second), second, s).contains(
                (second[j].info.name@, second[j].last_reading->0.percent),
            )
        }),
{
    let start = notifications::of_listed(alerts, first);
    let once = notifications::observed_all(start, first, s);
    let again = notifications::of_listed(once, second);
    assert(notifications::is_listed(first, key)) by {
        assert(first[i].info.key() == key);
    }
    assert(notifications::is_listed(second, key)) by {
        assert(second[j].info.key() == key);
    }
    a_device_is_low_by_its_own_threshold(first[i], s);
    a_device_is_low_by_its_own_threshold(second[j], s);
    one_is_observed(start, first, s, i, key);
    one_is_observed(again, second, s, j, key);
}

/// Once announced, a device that goes on running low is not announced again: it
/// is remembered as announced until it charges or reads well above its
/// threshold.
pub proof fn an_announced_device_stays_announced(
    alerts: spec_fn(DeviceKey) -> Alert,
    devices: Seq<DeviceState>,
    i: int,
    key: DeviceKey,
    s: Settings,
)
    requires
        alerts(key).notified,
        listed_once(devices, i, key),
        devices[i].last_reading is Some,
        devices[i].last_reading->0.percent <= 100,
        devices[i].last_reading->0.state != ChargeState::Charging,
        devices[i].last_reading->0.percent < settings::own_threshold(s, devices[i].info.name@) + 5,
    ensures
        notifications::observed_all(alerts, devices, s)(key).notified,
        !notifications::fires(
            alerts(key),
            notifications::device_level(devices[i], s),
            devices[i].last_seen,
        ),
{
    settings::thresholds_are_the_settings(s, devices[i].info.name@);
    if notifications::concerns(devices[i], s) {
        one_is_observed(alerts, devices, s, i, key);
    } else {
        assert forall|k: int|
            0 <= k < devices.len() && (#[trigger] devices[k]).info.key() == key implies !notifications::concerns(
            devices[k],
            s,
        ) by {}
        notifications::the_absent_keep_their_streak(alerts, devices, s, key);
    }
}

/// Whoever is announced runs low, and is announced by name and with what it reads.
pub proof fn only_who_runs_low_is_announced(
    alerts: spec_fn(DeviceKey) -> Alert,
    devices: Seq<DeviceState>,
    s: Settings,
    j: int,
) -> (i: int)
    requires
        0 <= j < notifications::due(alerts, devices, s).len(),
        forall|k: int|
            0 <= k < devices.len() && (#[trigger] devices[k]).last_reading is Some
                ==> devices[k].last_reading->0.percent <= 100,
    ensures
        0 <= i < devices.len(),
        runs_low(devices[i], s),
        notifications::due(alerts, devices, s)[j] == (
            devices[i].info.name@,
            devices[i].last_reading->0.percent,
        ),
{
    notifications::only_the_low_are_notified(alerts, devices, s, j);
    let due = notifications::due(alerts, devices, s);
    let i = choose|i: int|
        0 <= i < devices.len() && notifications::is_low_device(#[trigger] devices[i], s) && (
        devices[i].info.name@, devices[i].last_reading->0.percent) == due[j];
    a_device_is_low_by_its_own_threshold(devices[i], s);
    i
}

/// A device that is no longer listed is forgotten; of the others nothing is.
pub proof fn only_the_unlisted_are_forgotten(
    alerts: spec_fn(DeviceKey) -> Alert,
    devices: Seq<DeviceState>,
    key: DeviceKey,
)
    ensures
        (exists|i: int| 0 <= i < devices.len() && (#[trigger] devices[i]).info.key() == key)
            ==> notifications::of_listed(alerts, devices)(key) == alerts(key),
        (forall|i: int| 0 <= i < devices.len() ==> (#[trigger] devices[i]).info.key() != key) ==> {
            &&& !notifications::of_listed(alerts, devices)(key).notified
            &&& notifications::of_listed(alerts, devices)(key).streak is None
        },
{
}

/// A notification names its device, and opens its body with the percent left.
pub proof fn a_toast_names_device_and_percent(t: Toast, name: Seq<char>, percent: u8, lang: Lang)
    requires
        notifications::is_toast(t, name, percent, lang),
    ensures
        t.device@ == name,
        t.percent == percent,
        t.summary@.len() > name.len(),
        t.summary@.take(name.len() as int) == name,
        t.body@.len() > strings::decimal(percent as nat).len(),
        t.body@.take(strings::decimal(percent as nat).len() as int) == strings::decimal(
            percent as nat,
        ),
        t.body@[strings::decimal(percent as nat).len() as int] == '%',
{
    reveal_strlit(": battery low");
    reveal_strlit(": низкий заряд");
    reveal_strlit("% remaining");
    reveal_strlit("% осталось");
    assert(t.summary@.take(name.len() as int) =~= name);
    assert(t.body@.take(strings::decimal(percent as nat).len() as int) =~= strings::decimal(
        percent as nat,
    ));
}

/// A reading that is no longer low breaks the row: the next low one counts as the
/// first again.
pub proof fn a_reading_in_between_breaks_the_row(
    a: Alert,
    first: BootTime,
    between: Option<BootTime>,
    second: BootTime,
)
    requires
        !a.notified,
        a.streak is None,
    ensures
        ({
            let low = notifications::observed(a, Level::Low, Some(first));
            let broken = notifications::observed(low, Level::Recovering, between);
            &&& !low.notified && !broken.notified
            &&& !notifications::fires(broken, Level::Low, Some(second))
        }),
{
}

/// A device that charged, or rose well above its threshold, is announced anew
/// when two distinct readings find it low again.
pub proof fn who_recovered_is_announced_anew(
    a: Alert,
    up: Option<BootTime>,
    first: BootTime,
    second: BootTime,
)
    requires
        first != second,
    ensures
        ({
            let armed = notifications::observed(a, Level::Rearmed, up);
            let once = notifications::observed(armed, Level::Low, Some(first));
            &&& !armed.notified && armed.streak is None
            &&& !once.notified
            &&& notifications::fires(once, Level::Low, Some(second))
        }),
{
}

/// The same reading, seen again, is no second one: it neither announces anything
/// nor stands in the way of the next.
pub proof fn the_same_reading_is_no_second_one(a: Alert, first: BootTime, second: BootTime)
    requires
        !a.notified,
        a.streak is None,
        first != second,
    ensures
        ({
            let once = notifications::observed(a, Level::Low, Some(first));
            let again = notifications::observed(once, Level::Low, Some(first));
            &&& !notifications::fires(once, Level::Low, Some(first))
            &&& again == once
            &&& notifications::fires(again, Level::Low, Some(second))
        }),
{
}

/// A notification says in its language that the battery of the device is low,
/// and how much of it is left.
pub proof fn a_toast_says_what_is_left(t: Toast, name: Seq<char>, percent: u8, lang: Lang)
    requires
        notifications::is_toast(t, name, percent, lang),
    ensures
        lang == Lang::En ==> t.summary@ == name + ": battery low"@ && t.body@ == strings::decimal(
            percent as nat,
        ) + "% remaining"@,
        lang == Lang::Ru ==> t.summary@ == name + ": низкий заряд"@ && t.body@ == strings::decimal(
            percent as nat,
        ) + "% осталось"@,
{
}

} // verus!
