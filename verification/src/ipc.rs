//! The session-bus contract between `rigbat tray`, which owns device state,
//! and the windows that only show it: `rigbat dashboard` and `rigbat settings`.

use crate::domain::display::DisplayMode;
use crate::domain::primary::PrimaryStatus;
use crate::domain::types::{self, ChargeState, DeviceKind, Presence, Transport};
use vstd::prelude::*;

verus! {

pub const TRAY_NAME: &'static str = "org.rigbat.Tray";

pub const TRAY_PATH: &'static str = "/org/rigbat/Tray";

pub const DASHBOARD_NAME: &'static str = "org.rigbat.Dashboard";

pub const DASHBOARD_PATH: &'static str = "/org/rigbat/Dashboard";

/// What the tray says of its devices.
#[derive(Debug, PartialEq, Eq)]
pub struct Snapshot {
    pub display_mode: DisplayMode,
    /// The shown devices.
    pub devices: Vec<DeviceCard>,
    /// Devices in `hidden_devices`, for the settings window to list.
    pub hidden: Vec<DeviceCard>,
}

/// One device, already classified the way its tray icon is.
#[derive(Debug, PartialEq, Eq)]
pub struct DeviceCard {
    pub name: String,
    pub kind: DeviceKind,
    pub transport: Transport,
    pub locator: Option<String>,
    pub presence: Presence,
    pub percent: Option<u8>,
    pub charge: Option<ChargeState>,
    pub status: PrimaryStatus,
    pub stale: bool,
    pub seen_secs_ago: Option<u64>,
    pub remaining_secs: Option<u64>,
    /// Whether a tray icon currently shows this device.
    pub in_tray: bool,
}

impl Clone for DeviceCard {
    fn clone(&self) -> (r: Self)
        ensures
            r == *self,
    {
        DeviceCard {
            name: self.name.clone(),
            kind: self.kind,
            transport: self.transport,
            locator: types::copy_locator(&self.locator),
            presence: self.presence,
            percent: self.percent,
            charge: self.charge,
            status: self.status,
            stale: self.stale,
            seen_secs_ago: self.seen_secs_ago,
            remaining_secs: self.remaining_secs,
            in_tray: self.in_tray,
        }
    }
}

} // verus!
