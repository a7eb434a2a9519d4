//! What the manager and the polling tasks decide between two awaits.

use crate::app::supervisor::{ConfigRole, SourceEvent};
use crate::config::{Config, Settings};
use crate::domain::estimate::Estimate;
use crate::domain::types::{self, BatteryReading, DeviceInfo, DeviceState, TrayState};
use vstd::prelude::*;

verus! {

// --- polling tasks -----------------------------------------------------------

/// How a poll failed.
#[derive(Debug, Clone, Copy, PartialEq, Eq, Structural)]
pub enum PollFailure {
    /// The node the source opens now belongs to another device.
    NodeReassigned,
    /// This user may not open the device.
    AccessDenied,
    /// The device did not answer, or not sensibly.
    Other,
}

/// What a polling task does after a poll.
#[derive(Debug, Clone, Copy, PartialEq, Eq, Structural)]
pub struct PollStep {
    pub event: SourceEvent,
    /// Whether the task ends once it has reported.
    pub ends: bool,
    /// Whether the failure is to be reported at `warn`: only the first in a
    /// row is, so a permanently absent device (a mouse left switched off)
    /// gives its reason once instead of every interval forever.
    pub warns: bool,
}

/// One more, as far as the counter goes.
pub open spec fn one_more(n: u32) -> u32 {
    if n == u32::MAX {
        n
    } else {
        (n + 1) as u32
    }
}

/// What a polling task reports of a poll, with how many have failed in a row
/// before it. The registry's own failure count drives presence, this one only
/// diagnostics.
pub fn take_poll(polled: Result<BatteryReading, PollFailure>, failures_in_a_row: &mut u32) -> (step:
    PollStep)
    ensures
        step.event == match polled {
            Ok(r) => SourceEvent::Polled(Some(r)),
            Err(PollFailure::NodeReassigned) => SourceEvent::NodeReassigned,
            Err(PollFailure::AccessDenied) => SourceEvent::AccessDenied,
            Err(PollFailure::Other) => SourceEvent::Polled(None),
        },
        step.ends == (polled == Err::<BatteryReading, _>(PollFailure::NodeReassigned)),
        step.warns == (polled is Err && !step.ends && *old(failures_in_a_row) == 0),
        *final(failures_in_a_row) == if polled is Ok {
            0
        } else if step.ends {
            *old(failures_in_a_row)
        } else {
            one_more(*old(failures_in_a_row))
        },
{
    let failure = match polled {
        Ok(r) => {
            *failures_in_a_row = 0;
            return PollStep { event: SourceEvent::Polled(Some(r)), ends: false, warns: false };
        },
        Err(failure) => failure,
    };
    let warns = *failures_in_a_row == 0;
    let event = match failure {
        PollFailure::NodeReassigned => {
            return PollStep { event: SourceEvent::NodeReassigned, ends: true, warns: false };
        },
        PollFailure::AccessDenied => SourceEvent::AccessDenied,
        PollFailure::Other => SourceEvent::Polled(None),
    };
    if *failures_in_a_row < u32::MAX {
        *failures_in_a_row = *failures_in_a_row + 1;
    }
    PollStep { event, ends: false, warns }
}

// --- publishing --------------------------------------------------------------

/// Whether two remaining-time estimates say the same.
pub open spec fn same_estimate(a: Estimate, b: Estimate) -> bool {
    match (a, b) {
        (Estimate::Unknown, Estimate::Unknown) => true,
        (Estimate::Charging, Estimate::Charging) => true,
        (Estimate::Remaining(x), Estimate::Remaining(y)) => x@ == y@,
        _ => false,
    }
}

/// Whether two published states say the same of a device.
pub open spec fn same_state(a: DeviceState, b: DeviceState) -> bool {
    &&& a.info.key() == b.info.key()
    &&& a.info.kind == b.info.kind
    &&& a.last_reading == b.last_reading
    &&& a.last_seen == b.last_seen
    &&& a.presence == b.presence
    &&& same_estimate(a.estimate, b.estimate)
}

/// Whether two published rosters say the same.
pub open spec fn same_roster(a: Seq<DeviceState>, b: Seq<DeviceState>) -> bool {
    a.len() == b.len() && forall|i: int| 0 <= i < a.len() ==> same_state(#[trigger] a[i], b[i])
}

fn is_same_estimate(a: Estimate, b: Estimate) -> (r: bool)
    ensures
        r == same_estimate(a, b),
{
    match (a, b) {
        (Estimate::Unknown, Estimate::Unknown) => true,
        (Estimate::Charging, Estimate::Charging) => true,
        (Estimate::Remaining(x), Estimate::Remaining(y)) => x.as_nanos() == y.as_nanos(),
        _ => false,
    }
}

fn is_same_info(a: &DeviceInfo, b: &DeviceInfo) -> (r: bool)
    ensures
        r == (a.key() == b.key() && a.kind == b.kind),
{
    a.name == b.name && a.kind == b.kind && a.transport == b.transport && types::same_locator(
        &a.locator,
        &b.locator,
    )
}

fn is_same_state(a: &DeviceState, b: &DeviceState) -> (r: bool)
    ensures
        r == same_state(*a, *b),
{
    let same_reading = match (a.last_reading, b.last_reading) {
        (Some(x), Some(y)) => x == y,
        (None, None) => true,
        _ => false,
    };
    let same_seen = match (a.last_seen, b.last_seen) {
        (Some(x), Some(y)) => x == y,
        (None, None) => true,
        _ => false,
    };
    is_same_info(&a.info, &b.info) && same_reading && same_seen && a.presence == b.presence
        && is_same_estimate(a.estimate, b.estimate)
}

/// Publishes the roster, and says whether receivers are to be notified: only
/// when it differs from the last one.
pub fn publish(current: &mut TrayState, devices: Vec<DeviceState>) -> (notify: bool)
    ensures
        notify == !same_roster(old(current).devices@, devices@),
        final(current).devices@ == if notify {
            devices@
        } else {
            old(current).devices@
        },
{
    if current.devices.len() == devices.len() {
        let mut same = true;
        let mut i: usize = 0;
        while i < devices.len() && same
            invariant
                current.devices@ == old(current).devices@,
                current.devices@.len() == devices@.len(),
                i <= devices@.len(),
                same ==> forall|k: int|
                    0 <= k < i ==> same_state(#[trigger] current.devices@[k], devices@[k]),
                !same ==> exists|k: int|
                    0 <= k < i && !same_state(#[trigger] current.devices@[k], devices@[k]),
            decreases devices@.len() - i,
        {
            same = is_same_state(&current.devices[i], &devices[i]);
            i += 1;
        }
        if same {
            return false;
        }
    }
    current.devices = devices;
    true
}

// --- the config file ---------------------------------------------------------

/// The config a process may convert: the owner's as it is, a reader's without
/// the legacy whitelist, since a reader must not convert at all and an empty
/// whitelist needs no conversion.
pub fn config_to_convert(role: ConfigRole, loaded: Config) -> (cfg: Config)
    ensures
        cfg@ == match role {
            ConfigRole::Owner => loaded@,
            ConfigRole::Reader => Settings { shown: Seq::empty(), ..loaded@ },
        },
{
    match role {
        ConfigRole::Owner => loaded,
        ConfigRole::Reader => {
            let mut cfg = loaded;
            cfg.shown_devices = Vec::new();
            assert(cfg@.shown =~= Seq::empty());
            cfg
        },
    }
}

/// Whether a process may write the config file: only its owner. Two processes
/// independently converting the same legacy whitelist, against two different
/// rosters, would be a race with a destructive outcome.
pub fn may_save(role: ConfigRole) -> (r: bool)
    ensures
        r == (role == ConfigRole::Owner),
{
    role == ConfigRole::Owner
}

} // verus!
