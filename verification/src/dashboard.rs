//! `rigbat dashboard`: the tray icon's left click. A row per shown device, read
//! from the running tray — it never polls a device itself, so it opens
//! instantly and classifies each device exactly as its tray icon does.

use crate::domain::primary::PrimaryStatus;
use crate::domain::roster;
use crate::domain::text;
use crate::domain::time::Duration;
use crate::domain::types::{DeviceKind, Presence};
use crate::i18n::{self, Lang, Phrase};
use crate::ipc::DeviceCard;
use crate::strings;
use vstd::prelude::*;
use vstd::string::*;

verus! {

/// Past this many rows the list scrolls.
pub const MAX_VISIBLE_ROWS: usize = 10;

/// Seconds a refresh may take before the spinner gives up on it.
pub const REFRESH_SPINNER_LIMIT_SECS: u64 = 5;

/// How often a restarted tray is asked for its state before the window gives up.
pub const RESTART_RETRIES: u32 = 10;

/// The window's width, in points.
pub const WINDOW_WIDTH: u32 = 380;

/// The space around the window's contents, in points.
pub const MARGIN: u32 = 12;

/// The height of a row, in points.
pub const ROW_HEIGHT: u32 = 48;

/// The height of the footer, in points.
pub const FOOTER_HEIGHT: u32 = 32;

/// How many rows the window is sized for.
pub open spec fn visible_rows(devices: int) -> int {
    if devices < 1 {
        1
    } else if devices > MAX_VISIBLE_ROWS {
        MAX_VISIBLE_ROWS as int
    } else {
        devices
    }
}

/// The height of a window that shows `rows` rows: exactly the rows, footer and
/// margins.
pub open spec fn window_height(rows: int) -> int {
    2 * MARGIN + rows * ROW_HEIGHT + FOOTER_HEIGHT
}

/// The window's width and height in points: exactly the rows, footer and
/// margins; past `MAX_VISIBLE_ROWS` the list scrolls.
pub fn window_size(devices: usize) -> (size: [u32; 2])
    ensures
        size@ == seq![WINDOW_WIDTH, window_height(visible_rows(devices as int)) as u32],
{
    let rows: u32 = if devices < 1 {
        1
    } else if devices > MAX_VISIBLE_ROWS {
        MAX_VISIBLE_ROWS as u32
    } else {
        devices as u32
    };
    let size: [u32; 2] = [WINDOW_WIDTH, 2 * MARGIN + rows * ROW_HEIGHT + FOOTER_HEIGHT];
    assert(size@ =~= seq![WINDOW_WIDTH, window_height(visible_rows(devices as int)) as u32]);
    size
}

/// What the window shows.
#[derive(Debug, Clone, Copy, PartialEq, Eq, Structural)]
pub enum Contents {
    /// That no tray answered.
    NoTray,
    /// That the tray has no device to show.
    NoDevices,
    /// A row per device, in a list that scrolls if the window cannot show it
    /// whole.
    Rows { scrolls: bool },
}

/// What a window shows that was told of this many devices, if of any.
pub fn contents(devices: Option<usize>) -> (r: Contents)
    ensures
        r == match devices {
            None => Contents::NoTray,
            Some(n) => if n == 0 {
                Contents::NoDevices
            } else {
                Contents::Rows { scrolls: n > MAX_VISIBLE_ROWS }
            },
        },
{
    match devices {
        None => Contents::NoTray,
        Some(n) => if n == 0 {
            Contents::NoDevices
        } else {
            Contents::Rows { scrolls: n > MAX_VISIBLE_ROWS }
        },
    }
}

/// The window grows with its list until the list scrolls, and not beyond.
pub proof fn the_window_fits_its_rows(devices: int)
    requires
        0 <= devices,
    ensures
        1 <= devices <= MAX_VISIBLE_ROWS ==> window_height(visible_rows(devices)) == window_height(
            devices,
        ),
        visible_rows(devices) <= visible_rows(devices + 1) <= MAX_VISIBLE_ROWS,
        visible_rows(devices) < devices <==> devices > MAX_VISIBLE_ROWS,
{
}

// --- order -------------------------------------------------------------------

/// The sort keys of a list of cards.
pub open spec fn card_keys(cards: Seq<DeviceCard>) -> Seq<(bool, Seq<char>)> {
    cards.map_values(|c: DeviceCard| roster::sort_key(c.name@, c.presence))
}

/// Whether `list` are the cards in roster order, cards of the same key in the
/// order they came.
pub open spec fn is_sorted(cards: Seq<DeviceCard>, list: Seq<DeviceCard>) -> bool {
    exists|p: Seq<usize>| #[trigger] is_sorted_by(cards, list, p)
}

/// As `is_sorted`, where place `i` of the list is card `p[i]`.
pub open spec fn is_sorted_by(
    cards: Seq<DeviceCard>,
    list: Seq<DeviceCard>,
    p: Seq<usize>,
) -> bool {
    &&& roster::is_roster_order(card_keys(cards), Seq::new(cards.len(), |i: int| true), p)
    &&& list == p.map_values(|k: usize| cards[k as int])
}

/// Puts the cards in roster order: online ones first, then by name.
pub fn sort_cards(cards: &Vec<DeviceCard>) -> (list: Vec<DeviceCard>)
    ensures
        is_sorted(cards@, list@),
{
    let mut keys: Vec<(bool, String)> = Vec::new();
    let mut keep: Vec<bool> = Vec::new();
    let mut i: usize = 0;
    while i < cards.len()
        invariant
            i <= cards@.len(),
            keys@.len() == i,
            keep@.len() == i,
            roster::key_texts(keys@) == card_keys(cards@).take(i as int),
            forall|k: int| 0 <= k < i ==> #[trigger] keep@[k],
        decreases cards@.len() - i,
    {
        keys.push(roster::roster_order(cards[i].name.as_str(), cards[i].presence));
        keep.push(true);
        assert(roster::key_texts(keys@) =~= card_keys(cards@).take(i + 1));
        i += 1;
    }
    assert(card_keys(cards@).take(i as int) =~= card_keys(cards@));
    assert(keep@ =~= Seq::new(cards@.len(), |i: int| true));
    let p = roster::order_kept(&keys, &keep);
    let mut list: Vec<DeviceCard> = Vec::new();
    let mut j: usize = 0;
    while j < p.len()
        invariant
            j <= p@.len(),
            forall|k: int| 0 <= k < p@.len() ==> (#[trigger] p@[k]) < cards@.len(),
            list@.len() == j,
            forall|k: int| 0 <= k < j ==> #[trigger] list@[k] == cards@[p@[k] as int],
        decreases p@.len() - j,
    {
        list.push(cards[p[j]].clone());
        j += 1;
    }
    assert(list@ =~= p@.map_values(|k: usize| cards@[k as int]));
    assert(is_sorted_by(cards@, list@, p@));
    list
}

// --- rows --------------------------------------------------------------------

/// A kind's glyph in the window's font.
pub open spec fn glyph_text(kind: DeviceKind) -> Seq<char> {
    match kind {
        DeviceKind::Mouse => "\u{1F5B1}"@,
        DeviceKind::Keyboard => "\u{2328}"@,
        DeviceKind::Headset => "\u{1F3A7}"@,
        DeviceKind::Controller => "\u{1F3AE}"@,
        DeviceKind::Other => "\u{1F50B}"@,
    }
}

/// A kind's glyph in the window's font.
pub fn kind_glyph(kind: DeviceKind) -> (r: &'static str)
    ensures
        r@ == glyph_text(kind),
{
    match kind {
        DeviceKind::Mouse => "\u{1F5B1}",
        DeviceKind::Keyboard => "\u{2328}",
        DeviceKind::Headset => "\u{1F3A7}",
        DeviceKind::Controller => "\u{1F3AE}",
        DeviceKind::Other => "\u{1F50B}",
    }
}

/// A row's value.
pub open spec fn card_value(card: DeviceCard, lang: Lang) -> Seq<char> {
    text::value_text(card.presence, card.percent, card.charge, card.status, lang)
}

/// A row's value: its percentage, or its presence where that is not live.
pub fn value_text(card: &DeviceCard, lang: Lang) -> (r: String)
    ensures
        r@ == card_value(*card, lang),
{
    text::charge_value(card.presence, card.percent, card.charge, card.status, lang)
}

/// The nanoseconds of an optional number of seconds.
pub open spec fn secs_span(secs: Option<int>) -> Option<nat> {
    match secs {
        Some(s) => Some((s * 1_000_000_000) as nat),
        None => None,
    }
}

/// A row's note, `elapsed` seconds after the snapshot came in.
pub open spec fn card_note(card: DeviceCard, lang: Lang, elapsed: u64) -> Option<Seq<char>> {
    text::note_text(
        card.presence,
        secs_span(
            match card.remaining_secs {
                Some(s) => Some(s as int),
                None => None,
            },
        ),
        secs_span(
            match card.seen_secs_ago {
                Some(s) => Some(s + elapsed),
                None => None,
            },
        ),
        lang,
    )
}

/// A row's note: how long the charge will last, or how old the reading is. The
/// age goes on with the seconds since the snapshot came in.
pub fn row_note(card: &DeviceCard, lang: Lang, elapsed: u64) -> (r: Option<String>)
    requires
        card.seen_secs_ago is Some ==> card.seen_secs_ago->0 + elapsed <= u64::MAX,
    ensures
        text::optional_string(r) == card_note(*card, lang, elapsed),
{
    let remaining = match card.remaining_secs {
        Some(s) => Some(Duration::from_secs(s)),
        None => None,
    };
    let age = match card.seen_secs_ago {
        Some(s) => Some(Duration::from_secs(s + elapsed)),
        None => None,
    };
    text::status_note(card.presence, remaining, age, lang)
}

/// What hovering over a row says.
pub open spec fn details_text(card: DeviceCard, lang: Lang) -> Seq<char> {
    let parts = seq![i18n::wording(card.kind.name_phrase(), lang), card.transport.spelling()];
    strings::joined(
        if card.in_tray {
            parts.push(i18n::wording(Phrase::InTray, lang))
        } else {
            parts
        },
        " · "@,
    )
}

/// What hovering over a row says: kind, transport and tray membership.
pub fn details(card: &DeviceCard, lang: Lang) -> (r: String)
    ensures
        r@ == details_text(*card, lang),
{
    let mut parts: Vec<String> = Vec::new();
    parts.push(card.kind.label(lang));
    parts.push(card.transport.as_str().to_owned());
    if card.in_tray {
        parts.push(i18n::phrase(Phrase::InTray, lang).to_owned());
        assert(strings::texts(parts@) =~= seq![
            i18n::wording(card.kind.name_phrase(), lang),
            card.transport.spelling(),
        ].push(i18n::wording(Phrase::InTray, lang)));
    } else {
        assert(strings::texts(parts@) =~= seq![
            i18n::wording(card.kind.name_phrase(), lang),
            card.transport.spelling(),
        ]);
    }
    strings::join(&parts, " · ")
}

/// How a row's value is set.
#[derive(Debug, Clone, Copy, PartialEq, Eq, Structural)]
pub enum Emphasis {
    /// In the low colour.
    Low,
    Strong,
    Secondary,
}

/// Which colour a row's bar is filled with.
#[derive(Debug, Clone, Copy, PartialEq, Eq, Structural)]
pub enum Fill {
    Low,
    Charging,
    /// The window's accent.
    Accent,
    Offline,
}

/// A row's charge bar.
#[derive(Debug, Clone, Copy, PartialEq, Eq, Structural)]
pub struct Bar {
    pub percent: u8,
    pub fill: Fill,
    pub dim: bool,
}

/// How a row's value is set.
pub open spec fn emphasis_of(card: DeviceCard) -> Emphasis {
    if card.status is Low {
        Emphasis::Low
    } else if card.presence == Presence::Online {
        Emphasis::Strong
    } else {
        Emphasis::Secondary
    }
}

/// A row's charge bar, where there is a percentage to show. Like the tray icon:
/// dimmed when not live, except a low reading.
pub open spec fn bar_of(card: DeviceCard) -> Option<Bar> {
    match card.percent {
        Some(percent) => Some(
            Bar {
                percent,
                fill: match card.status {
                    PrimaryStatus::Low { .. } => Fill::Low,
                    PrimaryStatus::Charging { .. } => Fill::Charging,
                    PrimaryStatus::Normal { .. } => Fill::Accent,
                    PrimaryStatus::Offline => Fill::Offline,
                },
                dim: card.presence != Presence::Online && !(card.status is Low),
            },
        ),
        None => None,
    }
}

/// Everything a row shows.
#[derive(Debug, PartialEq, Eq)]
pub struct RowPlan {
    pub glyph: &'static str,
    pub hover: String,
    pub value: String,
    pub emphasis: Emphasis,
    pub note: Option<String>,
    pub bar: Option<Bar>,
}

/// What one row of the window shows, `elapsed` seconds after the snapshot came
/// in.
pub fn row_plan(card: &DeviceCard, lang: Lang, elapsed: u64) -> (r: RowPlan)
    requires
        card.seen_secs_ago is Some ==> card.seen_secs_ago->0 + elapsed <= u64::MAX,
    ensures
        r.glyph@ == glyph_text(card.kind),
        r.hover@ == details_text(*card, lang),
        r.value@ == card_value(*card, lang),
        r.emphasis == emphasis_of(*card),
        text::optional_string(r.note) == card_note(*card, lang, elapsed),
        r.bar == bar_of(*card),
{
    let low = match card.status {
        PrimaryStatus::Low { .. } => true,
        _ => false,
    };
    let online = card.presence == Presence::Online;
    let emphasis = if low {
        Emphasis::Low
    } else if online {
        Emphasis::Strong
    } else {
        Emphasis::Secondary
    };
    let bar = match card.percent {
        Some(percent) => Some(
            Bar {
                percent,
                fill: match card.status {
                    PrimaryStatus::Low { .. } => Fill::Low,
                    PrimaryStatus::Charging { .. } => Fill::Charging,
                    PrimaryStatus::Normal { .. } => Fill::Accent,
                    PrimaryStatus::Offline => Fill::Offline,
                },
                dim: !online && !low,
            },
        ),
        None => None,
    };
    RowPlan {
        glyph: kind_glyph(card.kind),
        hover: details(card, lang),
        value: value_text(card, lang),
        emphasis,
        note: row_note(card, lang, elapsed),
        bar,
    }
}

// --- the window --------------------------------------------------------------

/// Whether the window closes: on Esc, or on losing focus once it has had it —
/// without an activation token the window may open unfocused, and must not
/// close before being seen. `focused` is unknown on some platforms.
pub fn closes(was_focused: &mut bool, escape: bool, focused: Option<bool>) -> (r: bool)
    ensures
        *final(was_focused) == (*old(was_focused) || focused == Some(true)),
        r == (escape || (focused == Some(false) && *old(was_focused))),
{
    let blurred = match focused {
        Some(true) => {
            *was_focused = true;
            false
        },
        Some(false) => *was_focused,
        None => false,
    };
    escape || blurred
}

/// Whether a refresh that began `since` ago is still waited for: not once its
/// call failed, nor past the limit. A snapshot ends it too.
pub fn refresh_in_flight(since: Option<Duration>, call_failed: bool) -> (r: bool)
    ensures
        r == (since is Some && since->0@ < REFRESH_SPINNER_LIMIT_SECS * 1_000_000_000
            && !call_failed),
{
    match since {
        Some(d) => d.as_nanos() < REFRESH_SPINNER_LIMIT_SECS as u128 * 1_000_000_000
            && !call_failed,
        None => false,
    }
}

// --- a restarted tray --------------------------------------------------------

/// What to do once a restarted tray was asked for its state.
#[derive(Debug, Clone, Copy, PartialEq, Eq, Structural)]
pub enum Retry {
    Done,
    GiveUp,
    /// Ask again after a while.
    Again,
}

/// What to do after asking a restarted tray for its state for the `tries`th
/// time: it owns its name a moment before it serves its state.
pub fn after_fetch(tries: u32, got: bool) -> (r: Retry)
    ensures
        r == if got {
            Retry::Done
        } else if tries >= RESTART_RETRIES {
            Retry::GiveUp
        } else {
            Retry::Again
        },
{
    if got {
        Retry::Done
    } else if tries >= RESTART_RETRIES {
        Retry::GiveUp
    } else {
        Retry::Again
    }
}

// --- laws --------------------------------------------------------------------

/// A remembered percentage never passes for a live one: without a live
/// reading the value names the presence.
pub proof fn a_memory_names_the_presence(card: DeviceCard, lang: Lang)
    requires
        card.presence != Presence::Online,
    ensures
        !(card.status is Low) ==> card_value(card, lang) == i18n::wording(
            text::presence_phrase(card.presence),
            lang,
        ),
        card.status is Low ==> card_value(card, lang) == text::sign_text(card.status)
            + i18n::wording(text::presence_phrase(card.presence), lang),
{
}

/// A low bar is never dimmed: it must not get quieter.
pub proof fn a_low_bar_is_never_dimmed(card: DeviceCard)
    requires
        card.status is Low,
        card.percent is Some,
    ensures
        !bar_of(card)->0.dim,
        bar_of(card)->0.fill == Fill::Low,
{
}

} // verus!
