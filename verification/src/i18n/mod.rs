//! UI language for the tray, the windows and the notifications, and the phrases
//! each language has. The language is passed as a parameter, not held globally:
//! it changes at runtime. Command-line output is never translated.

use crate::strings;
use vstd::prelude::*;

verus! {

#[derive(Debug, Clone, Copy, PartialEq, Eq, Structural)]
pub enum Lang {
    En,
    Ru,
}

impl Default for Lang {
    fn default() -> (lang: Self)
        ensures
            lang == Lang::En,
    {
        Lang::En
    }
}

/// Whether `c` ends a locale name's language part.
pub open spec fn is_separator(c: char) -> bool {
    c == '_' || c == '-' || c == '.' || c == '@'
}

/// The language part of a tag or locale name: everything before the first
/// separator.
pub open spec fn primary_part(tag: Seq<char>) -> Seq<char>
    decreases tag.len(),
{
    if tag.len() == 0 || is_separator(tag[0]) {
        Seq::empty()
    } else {
        seq![tag[0]] + primary_part(tag.drop_first())
    }
}

/// `c`, in lower case if it is an ASCII capital.
pub open spec fn ascii_lower(c: char) -> char {
    if 'A' <= c && c <= 'Z' {
        (c as u8 + 32) as char
    } else {
        c
    }
}

/// The language a tag or locale name stands for, whatever its case.
pub open spec fn lang_of_tag(tag: Seq<char>) -> Option<Lang> {
    let primary = primary_part(tag).map_values(|c: char| ascii_lower(c));
    if primary == "en"@ {
        Some(Lang::En)
    } else if primary == "ru"@ {
        Some(Lang::Ru)
    } else {
        None
    }
}

fn lower_char(c: char) -> (r: char)
    ensures
        r == ascii_lower(c),
{
    if 'A' <= c && c <= 'Z' {
        (c as u8 + 32) as char
    } else {
        c
    }
}

impl Lang {
    pub const ALL: [Lang; 2] = [Lang::En, Lang::Ru];

    pub open spec fn tag_text(self) -> Seq<char> {
        match self {
            Lang::En => "en"@,
            Lang::Ru => "ru"@,
        }
    }

    pub fn tag(self) -> (r: &'static str)
        ensures
            r@ == self.tag_text(),
    {
        match self {
            Lang::En => "en",
            Lang::Ru => "ru",
        }
    }

    pub fn native_name(self) -> (r: &'static str)
        ensures
            r@ == match self {
                Lang::En => "English"@,
                Lang::Ru => "Русский"@,
            },
    {
        match self {
            Lang::En => "English",
            Lang::Ru => "Русский",
        }
    }

    /// Accepts `ru`, `ru-RU`, `ru_RU.UTF-8`, `ru_RU@euro`.
    pub fn from_tag(tag: &str) -> (r: Option<Lang>)
        ensures
            r == lang_of_tag(tag@),
    {
        let chars = strings::chars_of(tag);
        let mut primary: String = String::new();
        let mut i: usize = 0;
        let ghost lower = |c: char| ascii_lower(c);
        assert(chars@.skip(0) == tag@);
        assert(primary_part(tag@).map_values(lower) =~= primary@ + primary_part(
            chars@.skip(0),
        ).map_values(lower));
        while i < chars.len() && !(chars[i] == '_' || chars[i] == '-' || chars[i] == '.' || chars[i]
            == '@')
            invariant
                chars@ == tag@,
                i <= chars@.len(),
                lower == |c: char| ascii_lower(c),
                primary_part(tag@).map_values(lower) == primary@ + primary_part(
                    chars@.skip(i as int),
                ).map_values(lower),
            decreases chars@.len() - i,
        {
            assert(chars@.skip(i as int).drop_first() == chars@.skip(i + 1));
            assert((seq![chars@[i as int]] + primary_part(chars@.skip(i + 1))).map_values(lower)
                =~= seq![ascii_lower(chars@[i as int])] + primary_part(
                chars@.skip(i + 1),
            ).map_values(lower));
            let ghost before = primary@;
            primary.push(lower_char(chars[i]));
            assert(primary@ =~= before + seq![ascii_lower(chars@[i as int])]);
            i += 1;
        }
        assert(primary_part(chars@.skip(i as int)) =~= Seq::<char>::empty());
        assert(primary_part(tag@).map_values(lower) =~= primary@);
        if *primary.as_str() == *"en" {
            Some(Lang::En)
        } else if *primary.as_str() == *"ru" {
            Some(Lang::Ru)
        } else {
            None
        }
    }
}

/// A language's tag names that language.
pub proof fn tag_round_trip(lang: Lang)
    ensures
        lang_of_tag(lang.tag_text()) == Some(lang),
{
    reveal_strlit("en");
    reveal_strlit("ru");
    reveal_with_fuel(primary_part, 3);
    let lower = |c: char| ascii_lower(c);
    assert("en"@.drop_first().drop_first() =~= Seq::<char>::empty());
    assert("ru"@.drop_first().drop_first() =~= Seq::<char>::empty());
    assert(primary_part("en"@) =~= "en"@);
    assert(primary_part("ru"@) =~= "ru"@);
    assert("en"@.map_values(lower) =~= "en"@);
    assert("ru"@.map_values(lower) =~= "ru"@);
    assert("en"@[0] != "ru"@[0]);
}

/// What follows a language part does not matter: `ru_RU.UTF-8` is `ru`.
pub proof fn locale_suffix_is_ignored(tag: Seq<char>, suffix: Seq<char>)
    requires
        suffix.len() > 0,
        is_separator(suffix[0]),
    ensures
        lang_of_tag(tag + suffix) == lang_of_tag(tag),
{
    primary_part_ends_at_a_separator(tag, suffix);
}

proof fn primary_part_ends_at_a_separator(tag: Seq<char>, suffix: Seq<char>)
    requires
        suffix.len() > 0,
        is_separator(suffix[0]),
    ensures
        primary_part(tag + suffix) == primary_part(tag),
    decreases tag.len(),
{
    if tag.len() == 0 {
        assert(tag + suffix =~= suffix);
    } else if !is_separator(tag[0]) {
        assert((tag + suffix).drop_first() =~= tag.drop_first() + suffix);
        primary_part_ends_at_a_separator(tag.drop_first(), suffix);
    }
}

/// The configured language, else the session's (also for an unknown tag).
pub open spec fn resolved(configured: Option<Seq<char>>, system: Lang) -> Lang {
    match configured {
        Some(tag) => match lang_of_tag(tag) {
            Some(lang) => lang,
            None => system,
        },
        None => system,
    }
}

/// The characters of an optional text.
pub open spec fn optional_text(s: Option<&str>) -> Option<Seq<char>> {
    match s {
        Some(text) => Some(text@),
        None => None,
    }
}

/// The configured language, else `system`, the session's (also for an unknown tag).
pub fn resolve(configured: Option<&str>, system: Lang) -> (lang: Lang)
    ensures
        lang == resolved(optional_text(configured), system),
{
    match configured {
        Some(tag) => match Lang::from_tag(tag) {
            Some(lang) => lang,
            None => system,
        },
        None => system,
    }
}

/// The first value that is set and not empty.
pub open spec fn first_set(values: Seq<Option<Seq<char>>>) -> Option<Seq<char>>
    decreases values.len(),
{
    if values.len() == 0 {
        None
    } else if values[0] is Some && values[0]->0.len() > 0 {
        values[0]
    } else {
        first_set(values.drop_first())
    }
}

/// The first language a colon-separated preference list names.
pub open spec fn first_known(list: Seq<char>) -> Option<Lang>
    decreases list.len(),
{
    let end = first_colon(list, 0);
    match lang_of_tag(list.take(end)) {
        Some(lang) => Some(lang),
        None => if 0 <= end < list.len() {
            first_known(list.skip(end + 1))
        } else {
            None
        },
    }
}

/// Where the first colon at or after `from` stands, or the list's end.
pub open spec fn first_colon(list: Seq<char>, from: int) -> int
    decreases list.len() - from,
{
    if from >= list.len() || list[from] == ':' {
        from
    } else {
        first_colon(list, from + 1)
    }
}

/// Whether a locale asks for no translation at all.
pub open spec fn is_untranslated(locale: Seq<char>) -> bool {
    locale == "C"@ || locale == "POSIX"@ || strings::begins_with(locale, "C."@)
}

/// The session's language by gettext precedence.
pub open spec fn session_lang(
    lc_all: Option<Seq<char>>,
    lc_messages: Option<Seq<char>>,
    lang: Option<Seq<char>>,
    language: Option<Seq<char>>,
) -> Lang {
    match first_set(seq![lc_all, lc_messages, lang]) {
        None => Lang::En,
        Some(locale) => if is_untranslated(locale) {
            Lang::En
        } else {
            let preferred = match language {
                Some(list) => first_known(list),
                None => None,
            };
            match preferred {
                Some(known) => known,
                None => match lang_of_tag(locale) {
                    Some(known) => known,
                    None => Lang::En,
                },
            }
        },
    }
}

/// The first language the preference list `list` names.
fn first_preferred(list: &str) -> (r: Option<Lang>)
    ensures
        r == first_known(list@),
{
    let chars = strings::chars_of(list);
    let mut start: usize = 0;
    assert(chars@.skip(0) == list@);
    loop
        invariant
            chars@ == list@,
            start <= chars@.len(),
            first_known(list@) == first_known(chars@.skip(start as int)),
        decreases chars@.len() - start,
    {
        let ghost rest = chars@.skip(start as int);
        let mut tag = String::new();
        let mut i: usize = start;
        while i < chars.len() && chars[i] != ':'
            invariant
                start <= i <= chars@.len(),
                rest == chars@.skip(start as int),
                tag@ == rest.take(i - start),
                first_colon(rest, 0) == first_colon(rest, i - start),
            decreases chars@.len() - i,
        {
            assert(rest.take(i + 1 - start) == rest.take(i - start).push(rest[i - start]));
            tag.push(chars[i]);
            i += 1;
        }
        assert(first_colon(rest, 0) == i - start);
        match Lang::from_tag(tag.as_str()) {
            Some(lang) => return Some(lang),
            None => {},
        }
        if i == chars.len() {
            return None;
        }
        assert(rest.skip(i - start + 1) == chars@.skip(i + 1));
        start = i + 1;
    }
}

/// The first of `a`, `b` and `c` that is set and not empty.
fn first_nonempty<'a>(a: Option<&'a str>, b: Option<&'a str>, c: Option<&'a str>) -> (r: Option<
    &'a str,
>)
    ensures
        optional_text(r) == first_set(seq![optional_text(a), optional_text(b), optional_text(c)]),
{
    proof {
        reveal_with_fuel(first_set, 4);
        let all = seq![optional_text(a), optional_text(b), optional_text(c)];
        assert(all.drop_first() =~= seq![optional_text(b), optional_text(c)]);
        assert(all.drop_first().drop_first() =~= seq![optional_text(c)]);
        assert(all.drop_first().drop_first().drop_first() =~= Seq::empty());
    }
    if let Some(text) = a {
        if !text.is_empty() {
            return Some(text);
        }
    }
    if let Some(text) = b {
        if !text.is_empty() {
            return Some(text);
        }
    }
    if let Some(text) = c {
        if !text.is_empty() {
            return Some(text);
        }
    }
    None
}

/// The session's language from the environment's `LC_ALL`, `LC_MESSAGES`,
/// `LANG` and `LANGUAGE`. gettext precedence: `LC_ALL` > `LC_MESSAGES` >
/// `LANG`; `LANGUAGE` overrides them unless the locale is C/POSIX.
pub fn from_env(
    lc_all: Option<&str>,
    lc_messages: Option<&str>,
    lang: Option<&str>,
    language: Option<&str>,
) -> (r: Lang)
    ensures
        r == session_lang(
            optional_text(lc_all),
            optional_text(lc_messages),
            optional_text(lang),
            optional_text(language),
        ),
{
    let locale = match first_nonempty(lc_all, lc_messages, lang) {
        Some(locale) => locale,
        None => return Lang::En,
    };
    if *locale == *"C" || *locale == *"POSIX" || strings::starts_with(locale, "C.") {
        return Lang::En;
    }
    let preferred = match language {
        Some(list) => first_preferred(list),
        None => None,
    };
    match preferred {
        Some(known) => known,
        None => match Lang::from_tag(locale) {
            Some(known) => known,
            None => Lang::En,
        },
    }
}

// --- phrases -----------------------------------------------------------------

/// A fixed piece of text that each language words its own way.
#[derive(Debug, Clone, Copy, PartialEq, Eq, Structural)]
pub enum Phrase {
    StateCharging,
    StateDischarging,
    StateFull,
    JustNow,
    /// Follows a count of minutes.
    MinutesAgo,
    /// Follows a count of hours.
    HoursAgo,
    /// Follows a count of days.
    DaysAgo,
    /// Follows a count of minutes.
    Minutes,
    /// Follows a count of hours.
    Hours,
    /// Follows a count of days.
    Days,
    /// Stands before a remaining time.
    BeforeRemaining,
    /// Stands after a remaining time.
    AfterRemaining,
    Offline,
    NoAccessHint,
    KindMouse,
    KindKeyboard,
    KindHeadset,
    KindController,
    KindOther,
    DisplayIconOnly,
    DisplayPercentOnly,
    DisplayPercentInIcon,
    PaletteCatppuccin,
    PaletteEverforest,
    PaletteGnome,
    PaletteNord,
    PresenceOnline,
    PresenceUnreachable,
    PresenceDisconnected,
    PresenceNoAccess,
    /// Stands before a reading's age.
    BeforeLastReading,
    NoteNoAccess,
    InTray,
    NoDevices,
    TrayNotRunning,
    Refresh,
    OpenSettings,
    Quit,
    /// Follows a device's name.
    LowBattery,
    /// Follows a percentage.
    ChargeLeft,
}

/// How `lang` words a phrase.
pub open spec fn wording(p: Phrase, lang: Lang) -> Seq<char> {
    match lang {
        Lang::En => match p {
            Phrase::StateCharging => "charging"@,
            Phrase::StateDischarging => "discharging"@,
            Phrase::StateFull => "full"@,
            Phrase::JustNow => "just now"@,
            Phrase::MinutesAgo => "m ago"@,
            Phrase::HoursAgo => "h ago"@,
            Phrase::DaysAgo => "d ago"@,
            Phrase::Minutes => "m"@,
            Phrase::Hours => "h"@,
            Phrase::Days => "d"@,
            Phrase::BeforeRemaining => ""@,
            Phrase::AfterRemaining => " left"@,
            Phrase::Offline => "offline"@,
            Phrase::NoAccessHint => "no access (run rigbat doctor)"@,
            Phrase::KindMouse => "Mouse"@,
            Phrase::KindKeyboard => "Keyboard"@,
            Phrase::KindHeadset => "Headset"@,
            Phrase::KindController => "Controller"@,
            Phrase::KindOther => "Other"@,
            Phrase::DisplayIconOnly => "Battery icon only"@,
            Phrase::DisplayPercentOnly => "Percentage as text"@,
            Phrase::DisplayPercentInIcon => "Percentage inside icon"@,
            Phrase::PaletteCatppuccin => "Catppuccin"@,
            Phrase::PaletteEverforest => "Everforest"@,
            Phrase::PaletteGnome => "GNOME"@,
            Phrase::PaletteNord => "Nord"@,
            Phrase::PresenceOnline => "Online"@,
            Phrase::PresenceUnreachable => "Unreachable"@,
            Phrase::PresenceDisconnected => "Disconnected"@,
            Phrase::PresenceNoAccess => "No access"@,
            Phrase::BeforeLastReading => "last reading "@,
            Phrase::NoteNoAccess => "run rigbat doctor"@,
            Phrase::InTray => "in tray"@,
            Phrase::NoDevices => "No devices"@,
            Phrase::TrayNotRunning => "The rigbat tray is not running"@,
            Phrase::Refresh => "Refresh"@,
            Phrase::OpenSettings => "Settings"@,
            Phrase::Quit => "Quit"@,
            Phrase::LowBattery => ": battery low"@,
            Phrase::ChargeLeft => "% remaining"@,
        },
        Lang::Ru => match p {
            Phrase::StateCharging => "заряжается"@,
            Phrase::StateDischarging => "разряжается"@,
            Phrase::StateFull => "заряжено"@,
            Phrase::JustNow => "только что"@,
            Phrase::MinutesAgo => " мин назад"@,
            Phrase::HoursAgo => " ч назад"@,
            Phrase::DaysAgo => " д назад"@,
            Phrase::Minutes => " мин"@,
            Phrase::Hours => " ч"@,
            Phrase::Days => " д"@,
            Phrase::BeforeRemaining => "осталось "@,
            Phrase::AfterRemaining => ""@,
            Phrase::Offline => "не на связи"@,
            Phrase::NoAccessHint => "нет доступа (запустите rigbat doctor)"@,
            Phrase::KindMouse => "Мышь"@,
            Phrase::KindKeyboard => "Клавиатура"@,
            Phrase::KindHeadset => "Гарнитура"@,
            Phrase::KindController => "Геймпад"@,
            Phrase::KindOther => "Другое"@,
            Phrase::DisplayIconOnly => "Только значок"@,
            Phrase::DisplayPercentOnly => "Процент текстом"@,
            Phrase::DisplayPercentInIcon => "Процент внутри значка"@,
            Phrase::PaletteCatppuccin => "Catppuccin"@,
            Phrase::PaletteEverforest => "Everforest"@,
            Phrase::PaletteGnome => "GNOME"@,
            Phrase::PaletteNord => "Nord"@,
            Phrase::PresenceOnline => "На связи"@,
            Phrase::PresenceUnreachable => "Не отвечает"@,
            Phrase::PresenceDisconnected => "Отключено"@,
            Phrase::PresenceNoAccess => "Нет доступа"@,
            Phrase::BeforeLastReading => "последнее значение "@,
            Phrase::NoteNoAccess => "запустите rigbat doctor"@,
            Phrase::InTray => "в трее"@,
            Phrase::NoDevices => "Нет устройств"@,
            Phrase::TrayNotRunning => "Трей rigbat не запущен"@,
            Phrase::Refresh => "Обновить"@,
            Phrase::OpenSettings => "Настройки"@,
            Phrase::Quit => "Выход"@,
            Phrase::LowBattery => ": низкий заряд"@,
            Phrase::ChargeLeft => "% осталось"@,
        },
    }
}

/// How `lang` words a phrase.
pub fn phrase(p: Phrase, lang: Lang) -> (r: &'static str)
    ensures
        r@ == wording(p, lang),
{
    match lang {
        Lang::En => match p {
            Phrase::StateCharging => "charging",
            Phrase::StateDischarging => "discharging",
            Phrase::StateFull => "full",
            Phrase::JustNow => "just now",
            Phrase::MinutesAgo => "m ago",
            Phrase::HoursAgo => "h ago",
            Phrase::DaysAgo => "d ago",
            Phrase::Minutes => "m",
            Phrase::Hours => "h",
            Phrase::Days => "d",
            Phrase::BeforeRemaining => "",
            Phrase::AfterRemaining => " left",
            Phrase::Offline => "offline",
            Phrase::NoAccessHint => "no access (run rigbat doctor)",
            Phrase::KindMouse => "Mouse",
            Phrase::KindKeyboard => "Keyboard",
            Phrase::KindHeadset => "Headset",
            Phrase::KindController => "Controller",
            Phrase::KindOther => "Other",
            Phrase::DisplayIconOnly => "Battery icon only",
            Phrase::DisplayPercentOnly => "Percentage as text",
            Phrase::DisplayPercentInIcon => "Percentage inside icon",
            Phrase::PaletteCatppuccin => "Catppuccin",
            Phrase::PaletteEverforest => "Everforest",
            Phrase::PaletteGnome => "GNOME",
            Phrase::PaletteNord => "Nord",
            Phrase::PresenceOnline => "Online",
            Phrase::PresenceUnreachable => "Unreachable",
            Phrase::PresenceDisconnected => "Disconnected",
            Phrase::PresenceNoAccess => "No access",
            Phrase::BeforeLastReading => "last reading ",
            Phrase::NoteNoAccess => "run rigbat doctor",
            Phrase::InTray => "in tray",
            Phrase::NoDevices => "No devices",
            Phrase::TrayNotRunning => "The rigbat tray is not running",
            Phrase::Refresh => "Refresh",
            Phrase::OpenSettings => "Settings",
            Phrase::Quit => "Quit",
            Phrase::LowBattery => ": battery low",
            Phrase::ChargeLeft => "% remaining",
        },
        Lang::Ru => match p {
            Phrase::StateCharging => "заряжается",
            Phrase::StateDischarging => "разряжается",
            Phrase::StateFull => "заряжено",
            Phrase::JustNow => "только что",
            Phrase::MinutesAgo => " мин назад",
            Phrase::HoursAgo => " ч назад",
            Phrase::DaysAgo => " д назад",
            Phrase::Minutes => " мин",
            Phrase::Hours => " ч",
            Phrase::Days => " д",
            Phrase::BeforeRemaining => "осталось ",
            Phrase::AfterRemaining => "",
            Phrase::Offline => "не на связи",
            Phrase::NoAccessHint => "нет доступа (запустите rigbat doctor)",
            Phrase::KindMouse => "Мышь",
            Phrase::KindKeyboard => "Клавиатура",
            Phrase::KindHeadset => "Гарнитура",
            Phrase::KindController => "Геймпад",
            Phrase::KindOther => "Другое",
            Phrase::DisplayIconOnly => "Только значок",
            Phrase::DisplayPercentOnly => "Процент текстом",
            Phrase::DisplayPercentInIcon => "Процент внутри значка",
            Phrase::PaletteCatppuccin => "Catppuccin",
            Phrase::PaletteEverforest => "Everforest",
            Phrase::PaletteGnome => "GNOME",
            Phrase::PaletteNord => "Nord",
            Phrase::PresenceOnline => "На связи",
            Phrase::PresenceUnreachable => "Не отвечает",
            Phrase::PresenceDisconnected => "Отключено",
            Phrase::PresenceNoAccess => "Нет доступа",
            Phrase::BeforeLastReading => "последнее значение ",
            Phrase::NoteNoAccess => "запустите rigbat doctor",
            Phrase::InTray => "в трее",
            Phrase::NoDevices => "Нет устройств",
            Phrase::TrayNotRunning => "Трей rigbat не запущен",
            Phrase::Refresh => "Обновить",
            Phrase::OpenSettings => "Настройки",
            Phrase::Quit => "Выход",
            Phrase::LowBattery => ": низкий заряд",
            Phrase::ChargeLeft => "% осталось",
        },
    }
}

} // verus!
