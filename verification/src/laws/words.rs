//! What is said of a device in words: its entry, its value and its note.

use crate::dashboard::{self, Emphasis, Fill};
use crate::domain::display::{DisplayMode, Palette};
use crate::domain::estimate;
use crate::domain::primary::PrimaryStatus;
use crate::domain::text;
use crate::domain::time::BootTime;
use crate::domain::types::{ChargeState, DeviceKind, DeviceState, Presence};
use crate::i18n::{self, Lang, Phrase};
use crate::ipc::DeviceCard;
use crate::laws::lines;
use crate::strings;
use vstd::prelude::*;

verus! {

// --- words -------------------------------------------------------------------

/// The word for a charge state in a language.
pub open spec fn charge_in(state: ChargeState, lang: Lang) -> Seq<char> {
    match (state, lang) {
        (ChargeState::Charging, Lang::En) => "charging"@,
        (ChargeState::Discharging, Lang::En) => "discharging"@,
        (ChargeState::Full, Lang::En) => "full"@,
        (ChargeState::Charging, Lang::Ru) => "заряжается"@,
        (ChargeState::Discharging, Lang::Ru) => "разряжается"@,
        (ChargeState::Full, Lang::Ru) => "заряжено"@,
    }
}

/// The word for how reachable a device is.
pub open spec fn presence_in(presence: Presence, lang: Lang) -> Seq<char> {
    match (presence, lang) {
        (Presence::Online, Lang::En) => "Online"@,
        (Presence::Unreachable, Lang::En) => "Unreachable"@,
        (Presence::Disconnected, Lang::En) => "Disconnected"@,
        (Presence::NoAccess, Lang::En) => "No access"@,
        (Presence::Online, Lang::Ru) => "На связи"@,
        (Presence::Unreachable, Lang::Ru) => "Не отвечает"@,
        (Presence::Disconnected, Lang::Ru) => "Отключено"@,
        (Presence::NoAccess, Lang::Ru) => "Нет доступа"@,
    }
}

/// The word for a kind of device.
pub open spec fn kind_in(kind: DeviceKind, lang: Lang) -> Seq<char> {
    match (kind, lang) {
        (DeviceKind::Mouse, Lang::En) => "Mouse"@,
        (DeviceKind::Keyboard, Lang::En) => "Keyboard"@,
        (DeviceKind::Headset, Lang::En) => "Headset"@,
        (DeviceKind::Controller, Lang::En) => "Controller"@,
        (DeviceKind::Other, Lang::En) => "Other"@,
        (DeviceKind::Mouse, Lang::Ru) => "Мышь"@,
        (DeviceKind::Keyboard, Lang::Ru) => "Клавиатура"@,
        (DeviceKind::Headset, Lang::Ru) => "Гарнитура"@,
        (DeviceKind::Controller, Lang::Ru) => "Геймпад"@,
        (DeviceKind::Other, Lang::Ru) => "Другое"@,
    }
}

/// The word for a device that does not answer.
pub open spec fn offline_in(lang: Lang) -> Seq<char> {
    match lang {
        Lang::En => "offline"@,
        Lang::Ru => "не на связи"@,
    }
}

/// How far apart two moments are: nothing where the second comes first, and no
/// more than the clock can count.
pub open spec fn nanos_between(earlier: BootTime, later: BootTime) -> nat {
    if later@ <= earlier@ {
        0
    } else if later@ - earlier@ <= 0x7fff_ffff_ffff_ffff {
        (later@ - earlier@) as nat
    } else {
        0x7fff_ffff_ffff_ffff
    }
}

// --- ages --------------------------------------------------------------------

/// An age is told in the largest whole unit it reaches: nothing is counted under
/// a minute, then whole minutes, hours and days.
pub proof fn an_age_is_told_in_its_largest_unit(nanos: nat, n: nat)
    ensures
        nanos < 60_000_000_000 ==> text::age_text(nanos, Lang::En) == "just now"@,
        1 <= n < 60 && n * 60_000_000_000 <= nanos < (n + 1) * 60_000_000_000 ==> text::age_text(
            nanos,
            Lang::En,
        ) == strings::decimal(n) + "m ago"@,
        1 <= n < 24 && n * 3_600_000_000_000 <= nanos < (n + 1) * 3_600_000_000_000
            ==> text::age_text(nanos, Lang::En) == strings::decimal(n) + "h ago"@,
        1 <= n && n * 86_400_000_000_000 <= nanos < (n + 1) * 86_400_000_000_000 ==> text::age_text(
            nanos,
            Lang::En,
        ) == strings::decimal(n) + "d ago"@,
        nanos < 60_000_000_000 ==> text::age_text(nanos, Lang::Ru) == "только что"@,
        1 <= n < 60 && n * 60_000_000_000 <= nanos < (n + 1) * 60_000_000_000 ==> text::age_text(
            nanos,
            Lang::Ru,
        ) == strings::decimal(n) + " мин назад"@,
        1 <= n < 24 && n * 3_600_000_000_000 <= nanos < (n + 1) * 3_600_000_000_000
            ==> text::age_text(nanos, Lang::Ru) == strings::decimal(n) + " ч назад"@,
        1 <= n && n * 86_400_000_000_000 <= nanos < (n + 1) * 86_400_000_000_000 ==> text::age_text(
            nanos,
            Lang::Ru,
        ) == strings::decimal(n) + " д назад"@,
{
    let secs = nanos / 1_000_000_000;
    if n * 60_000_000_000 <= nanos < (n + 1) * 60_000_000_000 {
        assert(secs / 60 == n);
    }
    if n * 3_600_000_000_000 <= nanos < (n + 1) * 3_600_000_000_000 {
        assert(secs / 3600 == n);
    }
    if n * 86_400_000_000_000 <= nanos < (n + 1) * 86_400_000_000_000 {
        assert(secs / 86400 == n);
    }
}

// --- remaining time ----------------------------------------------------------

/// A remaining time in words: minutes below an hour, hours up to four days, and
/// that it is more beyond.
pub open spec fn lasting_in(secs: nat, lang: Lang) -> Seq<char> {
    if secs > 4 * 86_400 {
        ">4"@ + match lang {
            Lang::En => "d"@,
            Lang::Ru => " д"@,
        }
    } else if secs < 3600 {
        "~"@ + strings::decimal(secs / 60) + match lang {
            Lang::En => "m"@,
            Lang::Ru => " мин"@,
        }
    } else {
        "~"@ + strings::decimal(secs / 3600) + match lang {
            Lang::En => "h"@,
            Lang::Ru => " ч"@,
        }
    }
}

/// A remaining time is told as the nearest quarter of an hour or hour, in minutes
/// below an hour and in hours above.
pub proof fn a_remaining_time_is_told_rounded(nanos: nat, lang: Lang)
    ensures
        estimate::coarse_text(nanos, lang) == lasting_in(estimate::coarse_secs(nanos), lang),
        ({
            let mins = nanos as int / 60_000_000_000;
            let told = estimate::coarse_secs(nanos) as int / 60;
            &&& mins >= 45 ==> told % 60 == 0 && mins - 30 < told <= mins + 30
            &&& mins < 45 ==> told == 15 || told == 30 || told == 45
            &&& 8 <= mins < 45 ==> mins - 7 <= told <= mins + 7
        }),
{
    reveal_strlit(">4");
    reveal_strlit(">");
    assert(strings::decimal(4) =~= seq!['4']);
    assert(">4"@ =~= ">"@ + strings::decimal(4));
    let mins = nanos as int / 60_000_000_000;
    assert(nanos / 1_000_000_000 / 60 == mins);
}

/// What stands for a remaining time: its words, and that so much is left.
pub open spec fn left_in(nanos: nat, lang: Lang) -> Seq<char> {
    match lang {
        Lang::En => lasting_in(estimate::coarse_secs(nanos), lang) + " left"@,
        Lang::Ru => "осталось "@ + lasting_in(estimate::coarse_secs(nanos), lang),
    }
}

proof fn left_is_told(nanos: nat, lang: Lang)
    ensures
        i18n::wording(Phrase::BeforeRemaining, lang) + estimate::coarse_text(
            nanos,
            lang,
        ) + i18n::wording(Phrase::AfterRemaining, lang) == left_in(nanos, lang),
{
    a_remaining_time_is_told_rounded(nanos, lang);
    reveal_strlit("");
    assert(i18n::wording(Phrase::BeforeRemaining, lang) + estimate::coarse_text(
        nanos,
        lang,
    ) + i18n::wording(Phrase::AfterRemaining, lang) =~= left_in(nanos, lang));
}

// --- entries -----------------------------------------------------------------

/// The entry of a device that was read live: its name, what it reads, the word
/// for its charge state and, where it is known, how much time that leaves.
pub proof fn a_live_entry_tells_percent_state_and_time(d: DeviceState, now: BootTime, lang: Lang)
    requires
        d.presence == Presence::Online,
        d.last_reading is Some,
    ensures
        ({
            let r = d.last_reading->0;
            let told = d.info.name@ + ": "@ + strings::decimal(r.percent as nat) + "%  "@
                + charge_in(r.state, lang);
            &&& d.estimate is Remaining ==> text::entry_text(d, now, lang) == told + "  "@
                + left_in(d.estimate->Remaining_0@, lang)
            &&& !(d.estimate is Remaining) ==> text::entry_text(d, now, lang) == told
        }),
{
    let r = d.last_reading->0;
    let told = d.info.name@ + ": "@ + strings::decimal(r.percent as nat) + "%  "@ + charge_in(
        r.state,
        lang,
    );
    if d.estimate is Remaining {
        let nanos = d.estimate->Remaining_0@;
        left_is_told(nanos, lang);
        assert(text::entry_text(d, now, lang) =~= told + "  "@ + left_in(nanos, lang));
    } else {
        assert(text::entry_text(d, now, lang) =~= told);
    }
}

/// The entry of a device that no longer answers: its name, what it last read, and
/// that it is offline and how long ago that was read. One that was never read is
/// just offline.
pub proof fn a_remembered_entry_tells_percent_and_age(d: DeviceState, now: BootTime, lang: Lang)
    requires
        d.presence == Presence::Unreachable || d.presence == Presence::Disconnected,
    ensures
        d.last_reading is Some && d.last_seen is Some ==> text::entry_text(d, now, lang)
            == d.info.name@ + ": "@ + strings::decimal(d.last_reading->0.percent as nat) + "%  "@
            + offline_in(lang) + " ("@ + text::age_text(
            nanos_between(d.last_seen->0, now),
            lang,
        ) + ")"@,
        d.last_reading is None ==> text::entry_text(d, now, lang) == d.info.name@ + ": "@
            + offline_in(lang),
{
    if d.last_reading is Some && d.last_seen is Some {
        assert(text::entry_text(d, now, lang) =~= d.info.name@ + ": "@ + strings::decimal(
            d.last_reading->0.percent as nat,
        ) + "%  "@ + offline_in(lang) + " ("@ + text::age_text(
            nanos_between(d.last_seen->0, now),
            lang,
        ) + ")"@);
    }
}

/// The entry of a device that may not be opened names what helps, whatever it
/// read before.
pub proof fn an_entry_without_access_says_what_to_do(d: DeviceState, now: BootTime, lang: Lang)
    requires
        d.presence == Presence::NoAccess,
    ensures
        text::entry_text(d, now, lang) == d.info.name@ + ": "@ + match lang {
            Lang::En => "no access (run rigbat doctor)"@,
            Lang::Ru => "нет доступа (запустите rigbat doctor)"@,
        },
{
}

// --- rows --------------------------------------------------------------------

/// The sign that tells a status without colour.
pub open spec fn sign_of(status: PrimaryStatus) -> Seq<char> {
    match status {
        PrimaryStatus::Low { .. } => seq!['⚠', ' '],
        PrimaryStatus::Charging { .. } => seq!['⚡', ' '],
        PrimaryStatus::Normal { .. } => Seq::empty(),
        PrimaryStatus::Offline => Seq::empty(),
    }
}

/// A live row shows its sign, its percentage in decimal with a percent sign and,
/// where it is full, that it is.
pub proof fn a_live_row_shows_its_percentage(card: DeviceCard, lang: Lang)
    requires
        card.presence == Presence::Online,
        card.percent is Some,
    ensures
        ({
            let told = sign_of(card.status) + strings::decimal(card.percent->0 as nat) + "%"@;
            &&& card.charge != Some(ChargeState::Full) ==> dashboard::card_value(card, lang) == told
            &&& card.charge == Some(ChargeState::Full) ==> dashboard::card_value(card, lang) == told
                + " · "@ + charge_in(ChargeState::Full, lang)
        }),
{
}

/// A row that is not live shows how reachable its device is and no number; a low
/// one keeps its sign.
pub proof fn a_row_that_is_not_live_shows_no_number(card: DeviceCard, lang: Lang)
    requires
        card.presence != Presence::Online || card.percent is None,
    ensures
        dashboard::card_value(card, lang) == (if card.status is Low {
            seq!['⚠', ' ']
        } else {
            Seq::empty()
        }) + presence_in(card.presence, lang),
{
    assert(Seq::<char>::empty() + presence_in(card.presence, lang) =~= presence_in(
        card.presence,
        lang,
    ));
}

proof fn a_live_value_goes_on_with_a_percent_sign(card: DeviceCard, lang: Lang) -> (tail: Seq<char>)
    requires
        card.presence == Presence::Online,
        card.percent is Some,
    ensures
        tail.len() > 0,
        tail[0] == '%',
        dashboard::card_value(card, lang) == sign_of(card.status) + (strings::decimal(
            card.percent->0 as nat,
        ) + tail),
{
    reveal_strlit("%");
    a_live_row_shows_its_percentage(card, lang);
    let sign = sign_of(card.status);
    let number = strings::decimal(card.percent->0 as nat);
    let more = if card.charge == Some(ChargeState::Full) {
        " · "@ + charge_in(ChargeState::Full, lang)
    } else {
        Seq::empty()
    };
    assert(dashboard::card_value(card, lang) =~= sign + (number + ("%"@ + more)));
    "%"@ + more
}

/// The values of two live rows of the same sign and different percentages
/// differ.
pub proof fn two_live_rows_read_differently(card: DeviceCard, other: DeviceCard, lang: Lang)
    requires
        card.presence == Presence::Online,
        other.presence == Presence::Online,
        card.percent is Some,
        other.percent is Some,
        card.percent != other.percent,
        sign_of(card.status) == sign_of(other.status),
    ensures
        dashboard::card_value(card, lang) != dashboard::card_value(other, lang),
{
    let tail = a_live_value_goes_on_with_a_percent_sign(card, lang);
    let end = a_live_value_goes_on_with_a_percent_sign(other, lang);
    let a = card.percent->0 as nat;
    let b = other.percent->0 as nat;
    if dashboard::card_value(card, lang) == dashboard::card_value(other, lang) {
        same_lead(sign_of(card.status), strings::decimal(a) + tail, strings::decimal(b) + end);
        lines::numbers_show(a, b, '%', tail, end);
    }
}

proof fn same_lead(lead: Seq<char>, a: Seq<char>, b: Seq<char>)
    requires
        lead + a == lead + b,
    ensures
        a == b,
{
    assert((lead + a).skip(lead.len() as int) =~= a);
    assert((lead + b).skip(lead.len() as int) =~= b);
}

/// A row's note: how long the charge of a live device lasts, how old the last
/// reading of one that does not answer is, what to do about one that may not be
/// opened; the age goes on with the window.
pub proof fn a_note_tells_time_left_or_age(card: DeviceCard, lang: Lang, elapsed: u64)
    ensures
        ({
            let note = dashboard::card_note(card, lang, elapsed);
            match card.presence {
                Presence::Online => if card.remaining_secs is Some {
                    note == Some(left_in((card.remaining_secs->0 * 1_000_000_000) as nat, lang))
                } else {
                    note is None
                },
                Presence::NoAccess => note == Some(
                    match lang {
                        Lang::En => "run rigbat doctor"@,
                        Lang::Ru => "запустите rigbat doctor"@,
                    },
                ),
                Presence::Unreachable | Presence::Disconnected => if card.seen_secs_ago is Some {
                    note == Some(
                        (match lang {
                            Lang::En => "last reading "@,
                            Lang::Ru => "последнее значение "@,
                        }) + text::age_text(
                            ((card.seen_secs_ago->0 + elapsed) * 1_000_000_000) as nat,
                            lang,
                        ),
                    )
                } else {
                    note is None
                },
            }
        }),
{
    if card.presence == Presence::Online && card.remaining_secs is Some {
        left_is_told((card.remaining_secs->0 * 1_000_000_000) as nat, lang);
    }
}

/// A row's bar shows its percentage, filled by its status, and is dimmed exactly
/// if the device is not online and not low; without a percentage there is none.
pub proof fn a_bar_shows_the_percentage(card: DeviceCard)
    ensures
        (dashboard::bar_of(card) is Some) == (card.percent is Some),
        card.percent is Some ==> {
            let bar = dashboard::bar_of(card)->0;
            &&& bar.percent == card.percent->0
            &&& (bar.fill == Fill::Low) == (card.status is Low)
            &&& (bar.fill == Fill::Charging) == (card.status is Charging)
            &&& (bar.fill == Fill::Accent) == (card.status is Normal)
            &&& (bar.fill == Fill::Offline) == (card.status is Offline)
            &&& bar.dim == (card.presence != Presence::Online && !(card.status is Low))
        },
{
}

/// A low value stands out whatever its device's presence; of the others those of
/// devices that are online do.
pub proof fn what_is_low_stands_out(card: DeviceCard)
    ensures
        (dashboard::emphasis_of(card) == Emphasis::Low) == (card.status is Low),
        (dashboard::emphasis_of(card) == Emphasis::Strong) == (!(card.status is Low)
            && card.presence == Presence::Online),
        (dashboard::emphasis_of(card) == Emphasis::Secondary) == (!(card.status is Low)
            && card.presence != Presence::Online),
{
}

/// Hovering over a row tells its kind and transport, and that it has an icon
/// exactly if it has one.
pub proof fn hovering_tells_kind_and_transport(card: DeviceCard, lang: Lang)
    ensures
        ({
            let told = kind_in(card.kind, lang) + " · "@ + lines::transport_word(card.transport);
            &&& !card.in_tray ==> dashboard::details_text(card, lang) == told
            &&& card.in_tray ==> dashboard::details_text(card, lang) == told + " · "@ + match lang {
                Lang::En => "in tray"@,
                Lang::Ru => "в трее"@,
            }
        }),
{
    let two = seq![kind_in(card.kind, lang), lines::transport_word(card.transport)];
    let word = match lang {
        Lang::En => "in tray"@,
        Lang::Ru => "в трее"@,
    };
    let one = two.drop_last();
    assert(strings::joined(one, " · "@) == kind_in(card.kind, lang));
    assert(strings::joined(two, " · "@) == kind_in(card.kind, lang) + " · "@
        + lines::transport_word(card.transport));
    let three = two.push(word);
    assert(three.drop_last() =~= two);
    assert(strings::joined(three, " · "@) == strings::joined(two, " · "@) + " · "@ + word);
}

/// The window is as high as its rows, one at least and ten at most, its footer
/// and its two margins.
pub proof fn the_window_is_as_high_as_its_rows(devices: int)
    requires
        devices >= 0,
    ensures
        dashboard::window_height(dashboard::visible_rows(devices)) == 24 + 32 + 48 * (
        if devices == 0 {
            1
        } else if devices <= 10 {
            devices
        } else {
            10
        }),
{
}

/// The labels of the display modes and the palettes, in either language.
pub proof fn choices_have_their_labels(mode: DisplayMode, palette: Palette, lang: Lang)
    ensures
        i18n::wording(mode.name_phrase(), lang) == (match (mode, lang) {
            (DisplayMode::IconOnly, Lang::En) => "Battery icon only"@,
            (DisplayMode::PercentOnly, Lang::En) => "Percentage as text"@,
            (DisplayMode::PercentInIcon, Lang::En) => "Percentage inside icon"@,
            (DisplayMode::IconOnly, Lang::Ru) => "Только значок"@,
            (DisplayMode::PercentOnly, Lang::Ru) => "Процент текстом"@,
            (DisplayMode::PercentInIcon, Lang::Ru) => "Процент внутри значка"@,
        }),
        i18n::wording(palette.name_phrase(), lang) == (match palette {
            Palette::Catppuccin => "Catppuccin"@,
            Palette::Everforest => "Everforest"@,
            Palette::Gnome => "GNOME"@,
            Palette::Nord => "Nord"@,
        }),
{
}

/// The labels of the kinds and the charge states, in either language.
pub proof fn kinds_and_states_have_their_labels(kind: DeviceKind, state: ChargeState, lang: Lang)
    ensures
        i18n::wording(kind.name_phrase(), lang) == kind_in(kind, lang),
        i18n::wording(text::state_phrase(state), lang) == charge_in(state, lang),
{
}

/// How machine-readable output spells how reachable a device is.
pub proof fn presences_have_their_spelling(presence: Presence)
    ensures
        presence.spelling() == (match presence {
            Presence::Online => "online"@,
            Presence::Unreachable => "unreachable"@,
            Presence::Disconnected => "disconnected"@,
            Presence::NoAccess => "no_access"@,
        }),
{
}

/// Every kind has a glyph of its own in the windows.
pub proof fn every_kind_has_its_glyph(a: DeviceKind, b: DeviceKind)
    requires
        a != b,
    ensures
        dashboard::glyph_text(a).len() == 1,
        dashboard::glyph_text(a) != dashboard::glyph_text(b),
{
    reveal_strlit("\u{1F5B1}");
    reveal_strlit("\u{2328}");
    reveal_strlit("\u{1F3A7}");
    reveal_strlit("\u{1F3AE}");
    reveal_strlit("\u{1F50B}");
    assert(dashboard::glyph_text(a)[0] != dashboard::glyph_text(b)[0]);
}

/// What the menu and the windows say beside the devices.
pub proof fn the_menu_is_worded(lang: Lang)
    ensures
        ({
            let en = lang == Lang::En;
            &&& i18n::wording(Phrase::NoDevices, lang) == if en {
                "No devices"@
            } else {
                "Нет устройств"@
            }
            &&& i18n::wording(Phrase::TrayNotRunning, lang) == if en {
                "The rigbat tray is not running"@
            } else {
                "Трей rigbat не запущен"@
            }
            &&& i18n::wording(Phrase::Refresh, lang) == if en {
                "Refresh"@
            } else {
                "Обновить"@
            }
            &&& i18n::wording(Phrase::OpenSettings, lang) == if en {
                "Settings"@
            } else {
                "Настройки"@
            }
            &&& i18n::wording(Phrase::Quit, lang) == if en {
                "Quit"@
            } else {
                "Выход"@
            }
        }),
{
}

} // verus!
