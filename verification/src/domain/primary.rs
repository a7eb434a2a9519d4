//! How a device's charge is classified, and which device a single view shows.

use crate::domain::types::{BatteryReading, ChargeState, DeviceState, Presence};
use crate::i18n;
use vstd::prelude::*;

verus! {

#[derive(Debug, Clone, Copy, PartialEq, Eq, Structural)]
pub enum PrimaryStatus {
    Offline,
    /// Neither low nor on the charger.
    Normal { percent: u8 },
    Low { percent: u8 },
    Charging { percent: u8 },
}

/// What a percentage that is not being charged amounts to.
pub open spec fn level(percent: u8, low_threshold: u8) -> PrimaryStatus {
    if percent <= low_threshold {
        PrimaryStatus::Low { percent }
    } else {
        PrimaryStatus::Normal { percent }
    }
}

/// What a live reading amounts to.
pub open spec fn classified(reading: Option<BatteryReading>, low_threshold: u8) -> PrimaryStatus {
    match reading {
        None => PrimaryStatus::Offline,
        Some(r) => if r.state == ChargeState::Charging {
            PrimaryStatus::Charging { percent: r.percent }
        } else {
            level(r.percent, low_threshold)
        },
    }
}

/// Classifies a reading for a primary device.
/// `reading == None` means offline (device not responding).
/// Priority order: Offline → Charging → Low → Normal.
pub fn classify(reading: Option<BatteryReading>, low_threshold: u8) -> (s: PrimaryStatus)
    ensures
        s == classified(reading, low_threshold),
{
    match reading {
        None => PrimaryStatus::Offline,
        Some(r) => match r.state {
            ChargeState::Charging => PrimaryStatus::Charging { percent: r.percent },
            _ => if r.percent <= low_threshold {
                PrimaryStatus::Low { percent: r.percent }
            } else {
                PrimaryStatus::Normal { percent: r.percent }
            },
        },
    }
}

/// Classifies a reading whose liveness is no longer known: the percentage is a
/// measurement that ages gracefully, the charge state is a live condition that
/// does not. Used for a device that is no longer `Online` but still holds a
/// reading.
pub fn classify_stale(percent: u8, low_threshold: u8) -> (s: PrimaryStatus)
    ensures
        s == level(percent, low_threshold),
{
    if percent <= low_threshold {
        PrimaryStatus::Low { percent }
    } else {
        PrimaryStatus::Normal { percent }
    }
}

/// A device's status and whether it is a remembered one.
pub open spec fn status_of(device: DeviceState, low_threshold: u8) -> (PrimaryStatus, bool) {
    if device.presence == Presence::Online {
        (classified(device.last_reading, low_threshold), false)
    } else {
        match device.last_reading {
            Some(r) => (level(r.percent, low_threshold), true),
            None => (PrimaryStatus::Offline, false),
        }
    }
}

/// A device's status, and whether it rests on a reading that is not live.
pub fn device_status(device: &DeviceState, low_threshold: u8) -> (r: (PrimaryStatus, bool))
    ensures
        r == status_of(*device, low_threshold),
{
    if device.presence == Presence::Online {
        (classify(device.last_reading, low_threshold), false)
    } else {
        match device.last_reading {
            Some(r) => (classify_stale(r.percent, low_threshold), true),
            None => (PrimaryStatus::Offline, false),
        }
    }
}

/// Only a device that is online is ever shown as charging.
pub proof fn a_memory_never_charges(device: DeviceState, low_threshold: u8)
    requires
        status_of(device, low_threshold).0 is Charging,
    ensures
        device.presence == Presence::Online,
        !status_of(device, low_threshold).1,
{
}

/// Raising the threshold never turns a low reading into an ordinary one.
pub proof fn low_is_monotone(reading: Option<BatteryReading>, threshold: u8, higher: u8)
    requires
        threshold <= higher,
        classified(reading, threshold) is Low,
    ensures
        classified(reading, higher) == classified(reading, threshold),
{
}

/// The first pair of `shown` that is online.
pub open spec fn first_online(shown: Seq<(Seq<char>, bool)>) -> Option<Seq<char>>
    decreases shown.len(),
{
    if shown.len() == 0 {
        None
    } else if shown[0].1 {
        Some(shown[0].0)
    } else {
        first_online(shown.drop_first())
    }
}

/// Whether `shown` lists a device named `name`.
pub open spec fn lists_name(shown: Seq<(Seq<char>, bool)>, name: Seq<char>) -> bool {
    exists|i: int| 0 <= i < shown.len() && (#[trigger] shown[i]).0 == name
}

/// The name a single view features.
pub open spec fn featured_name(shown: Seq<(Seq<char>, bool)>, primary: Option<Seq<char>>) -> Option<
    Seq<char>,
> {
    if primary is Some && lists_name(shown, primary->0) {
        primary
    } else if first_online(shown) is Some {
        first_online(shown)
    } else if shown.len() > 0 {
        Some(shown[0].0)
    } else {
        None
    }
}

/// The names and flags of a list, with names as their characters.
pub open spec fn name_flags(shown: Seq<(&str, bool)>) -> Seq<(Seq<char>, bool)> {
    shown.map_values(|s: (&str, bool)| (s.0@, s.1))
}

/// Picks the featured device by name from an already-shown-filtered roster.
///
/// `shown` is `(name, online)` pairs; `online` is the tiebreak signal used
/// when there is no explicit choice.
///
/// Priority: explicit choice (if still shown) → first online → first shown → None.
pub fn select_featured(shown: &[(&str, bool)], primary_device: Option<&str>) -> (r: Option<String>)
    ensures
        (match r {
            Some(name) => Some(name@),
            None => None,
        }) == featured_name(name_flags(shown@), i18n::optional_text(primary_device)),
{
    let ghost pairs = name_flags(shown@);
    if let Some(name) = primary_device {
        let mut i: usize = 0;
        while i < shown.len()
            invariant
                i <= shown@.len(),
                primary_device == Some(name),
                pairs == name_flags(shown@),
                forall|k: int| 0 <= k < i ==> (#[trigger] pairs[k]).0 != name@,
            decreases shown@.len() - i,
        {
            if *shown[i].0 == *name {
                assert(pairs[i as int].0 == name@);
                return Some(name.to_owned());
            }
            i += 1;
        }
    }
    let mut i: usize = 0;
    assert(pairs.skip(0) == pairs);
    while i < shown.len()
        invariant
            i <= shown@.len(),
            pairs == name_flags(shown@),
            first_online(pairs) == first_online(pairs.skip(i as int)),
            !(primary_device is Some && lists_name(pairs, primary_device->0@)),
        decreases shown@.len() - i,
    {
        assert(pairs.skip(i as int).drop_first() == pairs.skip(i + 1));
        if shown[i].1 {
            return Some(shown[i].0.to_owned());
        }
        i += 1;
    }
    if shown.len() > 0 {
        Some(shown[0].0.to_owned())
    } else {
        None
    }
}

} // verus!
