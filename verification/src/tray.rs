//! What the tray shows of its devices, and what it tells the windows of them.

use crate::cli::waybar;
use crate::config::{Config, Settings};
use crate::domain::display::TrayMode;
use crate::domain::estimate::Estimate;
use crate::domain::primary;
use crate::domain::roster;
use crate::domain::time::{self, BootTime};
use crate::domain::types::{self, ChargeState, DeviceState};
use crate::i18n;
use crate::icon::cache::IconKey;
use crate::icon::Theme;
use crate::ipc::{DeviceCard, Snapshot};
use vstd::prelude::*;

verus! {

/// The devices that have a tray icon: the one a single view features, or every
/// listed one.
pub open spec fn icons(states: Seq<DeviceState>, s: Settings, now: BootTime) -> Seq<DeviceState> {
    let list = waybar::listed(states, s, now);
    match s.tray_mode {
        TrayMode::PrimaryOnly => match roster::featured_of(list, s.primary) {
            Some(d) => seq![d],
            None => Seq::empty(),
        },
        TrayMode::PerDevice => list,
    }
}

/// The devices of a list of references.
pub open spec fn devices_of(list: Seq<&DeviceState>) -> Seq<DeviceState> {
    list.map_values(|d: &DeviceState| *d)
}

proof fn icons_are_listed(states: Seq<DeviceState>, s: Settings, now: BootTime)
    ensures
        forall|i: int|
            0 <= i < icons(states, s, now).len() ==> waybar::listed(states, s, now).contains(
                #[trigger] icons(states, s, now)[i],
            ),
{
    let list = waybar::listed(states, s, now);
    if s.tray_mode is PrimaryOnly {
        roster::featured_is_listed(list, s.primary);
    }
}

/// The devices that have a tray icon; a hidden device has none.
pub fn iconed<'a>(states: &'a [DeviceState], cfg: &Config, now: BootTime) -> (r: Vec<
    &'a DeviceState,
>)
    ensures
        devices_of(r@) == icons(states@, cfg@, now),
        forall|i: int| 0 <= i < r@.len() ==> cfg@.shows((#[trigger] r@[i]).info.name@),
{
    let count: usize = states.len();
    let roster = waybar::roster_of(states, cfg, now);
    let mut r: Vec<&'a DeviceState> = Vec::new();
    match cfg.tray_mode {
        TrayMode::PrimaryOnly => {
            let primary = match &cfg.primary_device {
                Some(name) => Some(name.as_str()),
                None => None,
            };
            assert(i18n::optional_text(primary) == cfg@.primary);
            match roster.featured(primary) {
                Some(device) => {
                    r.push(device);
                    assert(devices_of(r@) =~= seq![*device]);
                },
                None => {
                    assert(devices_of(r@) =~= Seq::empty());
                },
            }
        },
        TrayMode::PerDevice => {
            let list = roster.devices();
            let ghost all = roster@;
            let mut i: usize = 0;
            while i < list.len()
                invariant
                    all == list@.map_values(|d: &'a DeviceState| *d),
                    i <= list@.len(),
                    devices_of(r@) == all.take(i as int),
                decreases list@.len() - i,
            {
                let ghost before = r@;
                r.push(list[i]);
                assert(devices_of(r@) =~= devices_of(before).push(*list@[i as int]));
                assert(all.take(i + 1) =~= all.take(i as int).push(all[i as int]));
                i += 1;
            }
            assert(all.take(i as int) =~= all);
        },
    }
    proof {
        assert(states@.len() == count);
        icons_are_listed(states@, cfg@, now);
        roster::roster_holds_the_visible(
            states@,
            waybar::shown_by(states@, cfg@),
            now,
            waybar::listed(states@, cfg@, now),
        );
        assert forall|i: int| 0 <= i < r@.len() implies cfg@.shows(
            (#[trigger] r@[i]).info.name@,
        ) by {
            let list = waybar::listed(states@, cfg@, now);
            let d = icons(states@, cfg@, now)[i];
            assert(devices_of(r@) == icons(states@, cfg@, now));
            assert(d == devices_of(r@)[i]);
            let at = list.index_of(d);
            assert(roster::is_shown_device(
                states@,
                waybar::shown_by(states@, cfg@),
                now,
                list[at],
            ));
        }
    }
    r
}

/// The aggregate icon shows the device that a status bar features.
pub proof fn the_aggregate_icon_is_the_featured_device(
    states: Seq<DeviceState>,
    s: Settings,
    now: BootTime,
)
    requires
        s.tray_mode == TrayMode::PrimaryOnly,
    ensures
        match waybar::featured(states, s, now) {
            Some((d, status)) => icons(states, s, now) == seq![d] && status == primary::status_of(
                d,
                s.threshold(d.info.name@),
            ).0,
            None => icons(states, s, now).len() == 0,
        },
{
}

/// What a device's icon is drawn from.
pub fn icon_key(device: &DeviceState, cfg: &Config, theme: Theme) -> (key: IconKey)
    ensures
        (key.status, key.stale) == primary::status_of(
            *device,
            cfg@.threshold(device.info.name@),
        ),
        key.kind == Some(device.info.kind),
        key.theme == theme,
        key.mode == cfg.display_mode,
{
    let threshold: u8 = cfg.effective_low_threshold(device.info.name.as_str());
    let (status, stale) = primary::device_status(device, threshold);
    IconKey { status, kind: Some(device.info.kind), theme, mode: cfg.display_mode, stale }
}

// --- the windows -------------------------------------------------------------

/// The whole seconds since a reading was taken.
pub open spec fn secs_ago(seen: Option<BootTime>, now: BootTime) -> Option<u64> {
    match seen {
        Some(t) => Some((time::elapsed(now, t) / 1_000_000_000) as u64),
        None => None,
    }
}

/// The whole seconds an estimate leaves.
pub open spec fn secs_left(estimate: Estimate) -> Option<u64> {
    match estimate {
        Estimate::Remaining(d) => Some((d@ / 1_000_000_000) as u64),
        _ => None,
    }
}

/// What a window is told of a device: classified the way its tray icon is.
pub open spec fn card(device: DeviceState, s: Settings, now: BootTime, in_tray: bool) -> DeviceCard {
    let (status, stale) = primary::status_of(device, s.threshold(device.info.name@));
    DeviceCard {
        name: device.info.name,
        kind: device.info.kind,
        transport: device.info.transport,
        locator: device.info.locator,
        presence: device.presence,
        percent: match device.last_reading {
            Some(r) => Some(r.percent),
            None => None,
        },
        charge: match device.last_reading {
            Some(r) => Some(r.state),
            None => None,
        },
        status,
        stale,
        seen_secs_ago: secs_ago(device.last_seen, now),
        remaining_secs: secs_left(device.estimate),
        in_tray,
    }
}

/// What a window is told of a device.
pub fn card_of(device: &DeviceState, cfg: &Config, now: BootTime, in_tray: bool) -> (c: DeviceCard)
    ensures
        c == card(*device, cfg@, now, in_tray),
{
    let threshold: u8 = cfg.effective_low_threshold(device.info.name.as_str());
    let (status, stale) = primary::device_status(device, threshold);
    let (percent, charge): (Option<u8>, Option<ChargeState>) = match device.last_reading {
        Some(r) => (Some(r.percent), Some(r.state)),
        None => (None, None),
    };
    DeviceCard {
        name: device.info.name.clone(),
        kind: device.info.kind,
        transport: device.info.transport,
        locator: types::copy_locator(&device.info.locator),
        presence: device.presence,
        percent,
        charge,
        status,
        stale,
        seen_secs_ago: match device.last_seen {
            Some(seen) => Some(now.saturating_duration_since(seen).as_secs()),
            None => None,
        },
        remaining_secs: match device.estimate {
            Estimate::Remaining(d) => Some(d.as_secs()),
            _ => None,
        },
        in_tray,
    }
}

/// Whether a device is among those that have an icon.
pub open spec fn has_icon(icons: Seq<DeviceState>, device: DeviceState) -> bool {
    exists|i: int| 0 <= i < icons.len() && (#[trigger] icons[i]).info.key() == device.info.key()
}

/// The cards of the shown devices, in the order of the roster.
pub open spec fn shown_cards(states: Seq<DeviceState>, s: Settings, now: BootTime) -> Seq<
    DeviceCard,
> {
    waybar::listed(states, s, now).map_values(
        |d: DeviceState| card(d, s, now, has_icon(icons(states, s, now), d)),
    )
}

/// The cards of the hidden devices, in the order they are known.
pub open spec fn hidden_cards(states: Seq<DeviceState>, s: Settings, now: BootTime) -> Seq<
    DeviceCard,
>
    decreases states.len(),
{
    if states.len() == 0 {
        Seq::empty()
    } else {
        let before = hidden_cards(states.drop_last(), s, now);
        if s.shows(states.last().info.name@) {
            before
        } else {
            before.push(card(states.last(), s, now, false))
        }
    }
}

fn among(icons: &Vec<&DeviceState>, device: &DeviceState) -> (r: bool)
    ensures
        r == has_icon(devices_of(icons@), *device),
{
    let id = device.info.id();
    let mut i: usize = 0;
    while i < icons.len()
        invariant
            id@ == device.info.key(),
            i <= icons@.len(),
            forall|k: int|
                0 <= k < i ==> (#[trigger] devices_of(icons@)[k]).info.key() != device.info.key(),
        decreases icons@.len() - i,
    {
        if icons[i].info.is(&id) {
            assert(devices_of(icons@)[i as int].info.key() == device.info.key());
            return true;
        }
        i += 1;
    }
    false
}

/// What the windows are told of all devices.
pub fn snapshot(states: &[DeviceState], cfg: &Config, now: BootTime) -> (r: Snapshot)
    ensures
        r.display_mode == cfg.display_mode,
        r.devices@ == shown_cards(states@, cfg@, now),
        r.hidden@ == hidden_cards(states@, cfg@, now),
{
    let with_icon = iconed(states, cfg, now);
    let roster = waybar::roster_of(states, cfg, now);
    let list = roster.devices();
    let ghost all = roster@;
    let ghost of = |d: DeviceState| card(d, cfg@, now, has_icon(icons(states@, cfg@, now), d));
    let mut devices: Vec<DeviceCard> = Vec::new();
    let mut i: usize = 0;
    while i < list.len()
        invariant
            all == list@.map_values(|d: &DeviceState| *d),
            of == (|d: DeviceState|
                card(d, cfg@, now, has_icon(icons(states@, cfg@, now), d))),
            devices_of(with_icon@) == icons(states@, cfg@, now),
            i <= list@.len(),
            devices@.len() == i,
            forall|k: int| 0 <= k < i ==> #[trigger] devices@[k] == of(all[k]),
        decreases list@.len() - i,
    {
        let in_tray = among(&with_icon, list[i]);
        assert(all[i as int] == *list@[i as int]);
        devices.push(card_of(list[i], cfg, now, in_tray));
        i += 1;
    }
    assert(devices@ =~= shown_cards(states@, cfg@, now));
    let mut hidden: Vec<DeviceCard> = Vec::new();
    let mut j: usize = 0;
    while j < states.len()
        invariant
            j <= states@.len(),
            hidden@ == hidden_cards(states@.take(j as int), cfg@, now),
        decreases states@.len() - j,
    {
        assert(states@.take(j + 1).drop_last() =~= states@.take(j as int));
        assert(states@.take(j + 1).last() == states@[j as int]);
        if !cfg.is_shown(states[j].info.name.as_str()) {
            hidden.push(card_of(&states[j], cfg, now, false));
        }
        j += 1;
    }
    assert(states@.take(j as int) =~= states@);
    Snapshot { display_mode: cfg.display_mode, devices, hidden }
}

} // verus!
