//! The tray icon: what it shows of a device.

use crate::domain::display::DisplayMode;
use crate::domain::primary::PrimaryStatus;
use crate::domain::types::DeviceKind;
use crate::icon::{self, Layer, Mark, Role};
use vstd::prelude::*;

verus! {

/// The percentage a status carries, if it carries one.
pub open spec fn carried(status: PrimaryStatus) -> Option<u8> {
    match status {
        PrimaryStatus::Offline => None,
        PrimaryStatus::Normal { percent } => Some(percent),
        PrimaryStatus::Low { percent } => Some(percent),
        PrimaryStatus::Charging { percent } => Some(percent),
    }
}

/// The percentage a layer shows, if it shows one.
pub open spec fn shown_percent(layer: Layer) -> Option<u8> {
    match layer {
        Layer::Fill { percent, .. } => Some(percent),
        Layer::Digits { percent, .. } => Some(percent),
        _ => None,
    }
}

/// The colour a layer is drawn in.
pub open spec fn colour_of(layer: Layer) -> Role {
    match layer {
        Layer::Fill { role, .. } => role,
        Layer::Outline { role, .. } => role,
        Layer::Nub { role } => role,
        Layer::Cross { role } => role,
        Layer::StatusMark { role, .. } => role,
        Layer::KindGlyph { role, .. } => role,
        Layer::Digits { role, .. } => role,
    }
}

/// An icon shows the charge it was given: a fill with exactly that percentage in
/// the icon mode, digits in the two percent modes, once, and no other number.
pub proof fn an_icon_shows_the_charge_it_was_given(
    status: PrimaryStatus,
    kind: Option<DeviceKind>,
    mode: DisplayMode,
    stale: bool,
    percent: u8,
) -> (at: int)
    requires
        carried(status) == Some(percent),
    ensures
        ({
            let all = icon::layers(status, kind, mode, stale);
            &&& 0 <= at < all.len()
            &&& shown_percent(all[at]) == Some(percent)
            &&& (all[at] is Fill) == (mode == DisplayMode::IconOnly)
            &&& (all[at] is Digits) == (mode != DisplayMode::IconOnly)
            &&& forall|k: int|
                0 <= k < all.len() && k != at ==> shown_percent(#[trigger] all[k]) is None
        }),
{
    let all = icon::layers(status, kind, mode, stale);
    if mode == DisplayMode::IconOnly {
        0
    } else {
        all.len() - 1
    }
}

/// Icons of two percentages of the same status differ.
pub proof fn two_charges_look_different(
    a: PrimaryStatus,
    b: PrimaryStatus,
    kind: Option<DeviceKind>,
    other: Option<DeviceKind>,
    mode: DisplayMode,
    stale: bool,
    p: u8,
    q: u8,
)
    requires
        carried(a) == Some(p),
        carried(b) == Some(q),
        p != q,
    ensures
        icon::layers(a, kind, mode, stale) != icon::layers(b, other, mode, stale),
{
    let i = an_icon_shows_the_charge_it_was_given(a, kind, mode, stale, p);
    let j = an_icon_shows_the_charge_it_was_given(b, other, mode, stale, q);
    if icon::layers(a, kind, mode, stale) == icon::layers(b, other, mode, stale) {
        assert(shown_percent(icon::layers(a, kind, mode, stale)[i]) == Some(p));
    }
}

/// An offline device's icon shows no number: it is a battery crossed out, the
/// same in every mode, and no other status is crossed out.
pub proof fn an_offline_icon_is_crossed_out(
    status: PrimaryStatus,
    kind: Option<DeviceKind>,
    mode: DisplayMode,
    stale: bool,
)
    ensures
        (exists|k: int|
            0 <= k < icon::layers(status, kind, mode, stale).len() && (#[trigger] icon::layers(
                status,
                kind,
                mode,
                stale,
            )[k]) is Cross) == (status is Offline),
        status is Offline ==> forall|k: int|
            0 <= k < icon::layers(status, kind, mode, stale).len() ==> shown_percent(
                #[trigger] icon::layers(status, kind, mode, stale)[k],
            ) is None,
        status is Offline ==> icon::layers(status, kind, mode, stale) == icon::layers(
            status,
            kind,
            DisplayMode::IconOnly,
            false,
        ),
{
    let all = icon::layers(status, kind, mode, stale);
    if status is Offline {
        assert(all[2] is Cross);
    }
}

/// Everything of an icon is drawn in the colour of its status.
pub proof fn an_icon_has_the_colour_of_its_status(
    status: PrimaryStatus,
    kind: Option<DeviceKind>,
    mode: DisplayMode,
    stale: bool,
    k: int,
)
    requires
        0 <= k < icon::layers(status, kind, mode, stale).len(),
    ensures
        colour_of(icon::layers(status, kind, mode, stale)[k]) == match status {
            PrimaryStatus::Offline => Role::Offline,
            PrimaryStatus::Charging { .. } => Role::Charging,
            PrimaryStatus::Low { .. } => Role::Low,
            PrimaryStatus::Normal { .. } => Role::Normal,
        },
{
}

/// A charging icon has a bolt and a low one a warning, once; the others have no
/// mark.
pub proof fn an_icon_is_marked_by_its_status(
    status: PrimaryStatus,
    kind: Option<DeviceKind>,
    mode: DisplayMode,
    stale: bool,
    mark: Mark,
)
    ensures
        (exists|k: int|
            0 <= k < icon::layers(status, kind, mode, stale).len() && ((#[trigger] icon::layers(
                status,
                kind,
                mode,
                stale,
            )[k]) matches Layer::StatusMark { mark: m, .. } && m == mark)) == match mark {
            Mark::Bolt => status is Charging,
            Mark::Warning => status is Low,
        },
        forall|i: int, j: int|
            0 <= i < j < icon::layers(status, kind, mode, stale).len() ==> !((
            #[trigger] icon::layers(status, kind, mode, stale)[i]) is StatusMark && (
            #[trigger] icon::layers(status, kind, mode, stale)[j]) is StatusMark),
{
    let all = icon::layers(status, kind, mode, stale);
    let glyph = icon::has_glyph(kind);
    if status is Charging || status is Low {
        let at = match mode {
            DisplayMode::IconOnly => 3,
            DisplayMode::PercentOnly => if glyph {
                1int
            } else {
                0
            },
            DisplayMode::PercentInIcon => if glyph {
                3int
            } else {
                2
            },
        };
        assert(all[at] is StatusMark);
    }
}

/// An icon shows the silhouette of its device's kind, once, where it has one.
pub proof fn an_icon_shows_its_kind(
    status: PrimaryStatus,
    kind: DeviceKind,
    mode: DisplayMode,
    stale: bool,
)
    ensures
        (exists|k: int|
            0 <= k < icon::layers(status, Some(kind), mode, stale).len() && ((
            #[trigger] icon::layers(status, Some(kind), mode, stale)[k]) matches Layer::KindGlyph {
                kind: shown,
                ..
            } && shown == kind)) == (kind != DeviceKind::Other),
        forall|k: int|
            0 <= k < icon::layers(status, Some(kind), mode, stale).len() && (
            #[trigger] icon::layers(status, Some(kind), mode, stale)[k]) is KindGlyph
                ==> icon::layers(status, Some(kind), mode, stale)[k]->KindGlyph_kind == kind,
{
    let all = icon::layers(status, Some(kind), mode, stale);
    if kind != DeviceKind::Other {
        let at = if status is Offline {
            3int
        } else {
            match mode {
                DisplayMode::IconOnly => all.len() - 1,
                DisplayMode::PercentOnly => 0int,
                DisplayMode::PercentInIcon => 2int,
            }
        };
        assert(all[at] is KindGlyph);
    }
}

/// The battery's outline is drawn in the icon mode and around digits inside it,
/// and for an offline device; a remembered reading is dashed or dotted and its
/// fill dimmed, a live or a low one never is.
pub proof fn only_a_memory_is_drawn_faintly(
    status: PrimaryStatus,
    kind: Option<DeviceKind>,
    mode: DisplayMode,
    stale: bool,
    k: int,
)
    requires
        0 <= k < icon::layers(status, kind, mode, stale).len(),
    ensures
        ({
            let layer = icon::layers(status, kind, mode, stale)[k];
            let memory = stale && !(status is Low) && !(status is Offline);
            &&& layer matches Layer::Fill { dim, .. } ==> dim == memory
            &&& layer matches Layer::Outline { dashed, .. } ==> dashed == memory
            &&& layer matches Layer::Digits { dotted, .. } ==> dotted == (memory && mode
                == DisplayMode::PercentOnly)
        }),
{
}

/// The battery is drawn but where only its digits are.
pub proof fn the_battery_is_drawn_unless_only_digits_are(
    status: PrimaryStatus,
    kind: Option<DeviceKind>,
    mode: DisplayMode,
    stale: bool,
)
    ensures
        (exists|k: int|
            0 <= k < icon::layers(status, kind, mode, stale).len() && (#[trigger] icon::layers(
                status,
                kind,
                mode,
                stale,
            )[k]) is Outline) == (status is Offline || mode != DisplayMode::PercentOnly),
{
    let all = icon::layers(status, kind, mode, stale);
    if status is Offline {
        assert(all[0] is Outline);
    } else if mode == DisplayMode::IconOnly {
        assert(all[1] is Outline);
    } else if mode == DisplayMode::PercentInIcon {
        assert(all[0] is Outline);
    }
}

} // verus!
