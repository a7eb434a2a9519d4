//! The user's settings.

pub mod files;
pub mod overrides;

use crate::config::overrides::{DeviceSettings, Overrides};
use crate::domain::display::{DisplayMode, Palette, TrayMode};
use crate::domain::types;
use crate::i18n::{self, Lang};
use crate::strings;
use vstd::prelude::*;
use vstd::string::*;

verus! {

pub const DEFAULT_POLL_INTERVAL_SECS: u64 = 60;

pub const DEFAULT_LOW_THRESHOLD: u8 = 20;

#[derive(Debug, PartialEq, Eq)]
pub struct Config {
    pub display_mode: DisplayMode,
    /// Device names to hide from the tray and menu. Empty list = show all.
    /// A name this list never mentions is shown, including one for a device
    /// that is not currently discovered — the field only ever grows or
    /// shrinks by exactly the name a checkbox toggle names, never by
    /// rebuilding from whatever devices happen to be visible right now.
    pub hidden_devices: Vec<String>,
    /// Deprecated whitelist ("who to show"). Editing it through a partial
    /// device view could silently erase entries for devices absent from that
    /// view — `hidden_devices` ("who to hide") cannot have that failure mode
    /// because toggling one device never touches any other entry. Converted
    /// into `hidden_devices` once, after the first discovery sweeps; kept only
    /// so an old config file still loads.
    pub shown_devices: Vec<String>,
    /// Whether to send desktop notifications for low-battery crossings.
    pub notifications_enabled: bool,
    /// Whether to show one tray icon per visible device or one aggregate icon.
    pub tray_mode: TrayMode,
    /// User-chosen device for the aggregate (PrimaryOnly) icon.
    /// None = automatic.
    pub primary_device: Option<String>,
    /// Global poll interval in seconds. Applies to all devices unless overridden.
    pub poll_interval_secs: u64,
    /// Global low-battery threshold (percent). Applies to all devices unless overridden.
    pub low_threshold: u8,
    /// Per-device overrides keyed by device name.
    pub device_overrides: Overrides,
    /// UI language tag (`"ru"`); `None` follows the session locale. A string, not
    /// `Lang`, so a tag unknown to this build still loads.
    pub language: Option<String>,
    /// Colours inside the session's light or dark scheme.
    pub palette: Palette,
}

/// What a `Config` says, with texts as their characters.
pub struct Settings {
    pub display_mode: DisplayMode,
    pub hidden: Seq<Seq<char>>,
    pub shown: Seq<Seq<char>>,
    pub notifications_enabled: bool,
    pub tray_mode: TrayMode,
    pub primary: Option<Seq<char>>,
    pub poll_interval_secs: u64,
    pub low_threshold: u8,
    pub overrides: Map<Seq<char>, DeviceSettings>,
    pub language: Option<Seq<char>>,
    pub palette: Palette,
}

impl View for Config {
    type V = Settings;

    open spec fn view(&self) -> Settings {
        Settings {
            display_mode: self.display_mode,
            hidden: strings::texts(self.hidden_devices@),
            shown: strings::texts(self.shown_devices@),
            notifications_enabled: self.notifications_enabled,
            tray_mode: self.tray_mode,
            primary: types::locator_text(self.primary_device),
            poll_interval_secs: self.poll_interval_secs,
            low_threshold: self.low_threshold,
            overrides: self.device_overrides@,
            language: types::locator_text(self.language),
            palette: self.palette,
        }
    }
}

impl Settings {
    /// Whether a device of this name is shown.
    pub open spec fn shows(self, name: Seq<char>) -> bool {
        !self.hidden.contains(name)
    }

    /// The poll interval of a device of this name: its own, else the global
    /// one, at least a second.
    pub open spec fn poll_secs(self, name: Seq<char>) -> u64 {
        let chosen = if self.overrides.dom().contains(name)
            && self.overrides[name].poll_interval_secs is Some {
            self.overrides[name].poll_interval_secs->0
        } else {
            self.poll_interval_secs
        };
        if chosen < 1 {
            1
        } else {
            chosen
        }
    }

    /// The low threshold of a device of this name: its own, else the global
    /// one, at most 100.
    pub open spec fn threshold(self, name: Seq<char>) -> u8 {
        let chosen = if self.overrides.dom().contains(name) && self.overrides[name].low_threshold
            is Some {
            self.overrides[name].low_threshold->0
        } else {
            self.low_threshold
        };
        if chosen > 100 {
            100
        } else {
            chosen
        }
    }
}

/// What an installation without a config file starts with.
pub open spec fn default_settings() -> Settings {
    Settings {
        display_mode: DisplayMode::IconOnly,
        hidden: Seq::empty(),
        shown: Seq::empty(),
        notifications_enabled: true,
        tray_mode: TrayMode::PrimaryOnly,
        primary: None,
        poll_interval_secs: DEFAULT_POLL_INTERVAL_SECS,
        low_threshold: DEFAULT_LOW_THRESHOLD,
        overrides: Map::empty(),
        language: None,
        palette: Palette::Catppuccin,
    }
}

impl Default for Config {
    fn default() -> (r: Self)
        ensures
            r@ == default_settings(),
    {
        let r = Config {
            display_mode: DisplayMode::IconOnly,
            hidden_devices: Vec::new(),
            shown_devices: Vec::new(),
            notifications_enabled: true,
            tray_mode: TrayMode::PrimaryOnly,
            primary_device: None,
            poll_interval_secs: DEFAULT_POLL_INTERVAL_SECS,
            low_threshold: DEFAULT_LOW_THRESHOLD,
            device_overrides: Overrides::new(),
            language: None,
            palette: Palette::Catppuccin,
        };
        assert(r@.hidden =~= Seq::empty());
        assert(r@.shown =~= Seq::empty());
        r
    }
}

/// Copies a list of texts.
pub(crate) fn copy_texts(list: &Vec<String>) -> (r: Vec<String>)
    ensures
        r@ == list@,
{
    let mut r: Vec<String> = Vec::new();
    let mut i: usize = 0;
    while i < list.len()
        invariant
            i <= list@.len(),
            r@ == list@.take(i as int),
        decreases list@.len() - i,
    {
        r.push(list[i].clone());
        i += 1;
    }
    assert(list@.take(i as int) == list@);
    r
}

/// Whether `list` holds `name`.
pub(crate) fn lists(list: &[String], name: &str) -> (r: bool)
    ensures
        r == strings::texts(list@).contains(name@),
{
    let ghost all = strings::texts(list@);
    let mut i: usize = 0;
    while i < list.len()
        invariant
            all == strings::texts(list@),
            i <= list@.len(),
            forall|k: int| 0 <= k < i ==> #[trigger] all[k] != name@,
        decreases list@.len() - i,
    {
        if *list[i].as_str() == *name {
            assert(all[i as int] == name@);
            return true;
        }
        i += 1;
    }
    false
}

impl Clone for Config {
    fn clone(&self) -> (r: Self)
        ensures
            r@ == self@,
    {
        Config {
            display_mode: self.display_mode,
            hidden_devices: copy_texts(&self.hidden_devices),
            shown_devices: copy_texts(&self.shown_devices),
            notifications_enabled: self.notifications_enabled,
            tray_mode: self.tray_mode,
            primary_device: types::copy_locator(&self.primary_device),
            poll_interval_secs: self.poll_interval_secs,
            low_threshold: self.low_threshold,
            device_overrides: self.device_overrides.clone(),
            language: types::copy_locator(&self.language),
            palette: self.palette,
        }
    }
}

/// Whether two lists hold the same texts in the same order.
fn same_texts(a: &Vec<String>, b: &Vec<String>) -> (r: bool)
    ensures
        r == (strings::texts(a@) == strings::texts(b@)),
{
    if a.len() != b.len() {
        assert(strings::texts(a@).len() != strings::texts(b@).len());
        return false;
    }
    let mut i: usize = 0;
    while i < a.len()
        invariant
            a@.len() == b@.len(),
            i <= a@.len(),
            forall|k: int| 0 <= k < i ==> (#[trigger] a@[k])@ == b@[k]@,
        decreases a@.len() - i,
    {
        if !(*a[i].as_str() == *b[i].as_str()) {
            assert(strings::texts(a@)[i as int] != strings::texts(b@)[i as int]);
            return false;
        }
        i += 1;
    }
    assert(strings::texts(a@) =~= strings::texts(b@));
    true
}

/// Settles what is used after the config file was read: what it says, or the
/// defaults where there is no file or it cannot be read.
pub fn settled<E>(read: Result<Option<Config>, E>) -> (cfg: Config)
    ensures
        cfg@ == match read {
            Ok(Some(stored)) => stored@,
            _ => default_settings(),
        },
{
    match read {
        Ok(Some(stored)) => stored,
        _ => Config::default(),
    }
}

impl Config {
    /// Whether the two say the same.
    pub fn same(&self, other: &Config) -> (r: bool)
        ensures
            r == (self@ == other@),
    {
        self.display_mode == other.display_mode && same_texts(
            &self.hidden_devices,
            &other.hidden_devices,
        ) && same_texts(&self.shown_devices, &other.shown_devices) && self.notifications_enabled
            == other.notifications_enabled && self.tray_mode == other.tray_mode
            && types::same_locator(&self.primary_device, &other.primary_device)
            && self.poll_interval_secs == other.poll_interval_secs && self.low_threshold
            == other.low_threshold && self.device_overrides.same(&other.device_overrides)
            && types::same_locator(&self.language, &other.language) && self.palette == other.palette
    }

    /// Takes a config that was loaded again, and says whether it differs: what
    /// is already in use must not wake anyone.
    pub fn reload(&mut self, loaded: Config) -> (changed: bool)
        ensures
            final(self)@ == loaded@,
            changed == (old(self)@ != loaded@),
    {
        let changed = !self.same(&loaded);
        *self = loaded;
        changed
    }
}

impl Config {
    /// The UI language, given the session's.
    pub fn lang(&self, system: Lang) -> (lang: Lang)
        ensures
            lang == i18n::resolved(self@.language, system),
    {
        match &self.language {
            Some(tag) => i18n::resolve(Some(tag.as_str()), system),
            None => i18n::resolve(None, system),
        }
    }

    /// Returns true if the device should be shown (absent from `hidden_devices`).
    pub fn is_shown(&self, name: &str) -> (r: bool)
        ensures
            r == self@.shows(name@),
    {
        !lists(self.hidden_devices.as_slice(), name)
    }

    /// Effective poll interval for `name`: device override → global → clamp to at least 1.
    pub fn effective_poll_interval_secs(&self, name: &str) -> (secs: u64)
        ensures
            secs == self@.poll_secs(name@),
    {
        let chosen: u64 = match self.device_overrides.get(name) {
            Some(d) => match d.poll_interval_secs {
                Some(secs) => secs,
                None => self.poll_interval_secs,
            },
            None => self.poll_interval_secs,
        };
        if chosen < 1 {
            1
        } else {
            chosen
        }
    }

    /// Effective low-battery threshold for `name`: device override → global →
    /// clamp to the percent domain.
    ///
    /// The clamp is not decoration: the settings window's 5-50 range does not
    /// constrain a hand-edited `config.json`. A stored `250` would make
    /// `percent <= threshold` true for every discharging device, painting a
    /// full battery red and reporting `low` to waybar forever.
    pub fn effective_low_threshold(&self, name: &str) -> (percent: u8)
        ensures
            percent == self@.threshold(name@),
    {
        let chosen: u8 = match self.device_overrides.get(name) {
            Some(d) => match d.low_threshold {
                Some(percent) => percent,
                None => self.low_threshold,
            },
            None => self.low_threshold,
        };
        if chosen > 100 {
            100
        } else {
            chosen
        }
    }
}

// --- renaming ----------------------------------------------------------------

/// `list` with every `from` turned into `to`.
pub open spec fn replaced(list: Seq<Seq<char>>, from: Seq<char>, to: Seq<char>) -> Seq<Seq<char>> {
    list.map_values(|name: Seq<char>| if name == from {
        to
    } else {
        name
    })
}

/// `list` without any `name` but its first; without that one too if `seen`.
pub open spec fn kept_once(list: Seq<Seq<char>>, name: Seq<char>, seen: bool) -> Seq<Seq<char>>
    decreases list.len(),
{
    if list.len() == 0 {
        Seq::empty()
    } else if list[0] == name && seen {
        kept_once(list.drop_first(), name, true)
    } else {
        seq![list[0]] + kept_once(list.drop_first(), name, seen || list[0] == name)
    }
}

/// The settings after the device `from` has become `to`.
pub open spec fn renamed(s: Settings, from: Seq<char>, to: Seq<char>) -> Settings {
    Settings {
        hidden: kept_once(replaced(s.hidden, from, to), to, false),
        overrides: if s.overrides.dom().contains(from) {
            s.overrides.remove(from).insert(to, s.overrides[from])
        } else {
            s.overrides
        },
        primary: if s.primary == Some(from) {
            Some(to)
        } else {
            s.primary
        },
        ..s
    }
}

/// Whether any setting mentions the device `name`.
pub open spec fn mentions(s: Settings, name: Seq<char>) -> bool {
    s.hidden.contains(name) || s.overrides.dom().contains(name) || s.primary == Some(name)
}

/// Moves every per-device setting from `from` to `to`, returning whether any
/// existed. Called when the inventory sees a device keep its transport and
/// locator — its hardware identity — while its name changes, which is what a
/// BlueZ alias edit or a firmware-supplied name change looks like from here.
///
/// Config is keyed by display name, so without this a rename silently resets
/// the device to defaults: it reappears in the tray after being hidden, loses
/// its threshold and interval overrides, and stops being the aggregate icon's
/// device.
pub fn rename_device(cfg: &mut Config, from: &str, to: &str) -> (changed: bool)
    ensures
        final(cfg)@ == renamed(old(cfg)@, from@, to@),
        changed == mentions(old(cfg)@, from@),
{
    let ghost before = cfg@;
    let mut changed: bool = lists(cfg.hidden_devices.as_slice(), from);
    cfg.hidden_devices = rename_in_list(&cfg.hidden_devices, from, to);
    match cfg.device_overrides.remove(from) {
        Some(settings) => {
            cfg.device_overrides.insert(to.to_owned(), settings);
            changed = true;
        },
        None => {
            assert(before.overrides.remove(from@) =~= before.overrides);
        },
    }
    let pinned = match &cfg.primary_device {
        Some(name) => *name.as_str() == *from,
        None => false,
    };
    if pinned {
        cfg.primary_device = Some(to.to_owned());
        changed = true;
    }
    changed
}

/// `list` with `from` turned into `to`, and `to` held once.
fn rename_in_list(list: &Vec<String>, from: &str, to: &str) -> (r: Vec<String>)
    ensures
        strings::texts(r@) == kept_once(replaced(strings::texts(list@), from@, to@), to@, false),
{
    let ghost all = replaced(strings::texts(list@), from@, to@);
    let mut r: Vec<String> = Vec::new();
    let mut seen: bool = false;
    let mut i: usize = 0;
    assert(all.skip(0) == all);
    assert(strings::texts(r@) + kept_once(all, to@, false) =~= kept_once(all, to@, false));
    while i < list.len()
        invariant
            all == replaced(strings::texts(list@), from@, to@),
            i <= list@.len(),
            strings::texts(r@) + kept_once(all.skip(i as int), to@, seen) == kept_once(
                all,
                to@,
                false,
            ),
        decreases list@.len() - i,
    {
        let ghost rest = all.skip(i as int);
        assert(rest.drop_first() == all.skip(i + 1));
        let name = if *list[i].as_str() == *from {
            to.to_owned()
        } else {
            list[i].clone()
        };
        assert(name@ == rest[0]);
        let is_to = *name.as_str() == *to;
        if !(is_to && seen) {
            let ghost old_r = r@;
            r.push(name);
            assert(strings::texts(r@) =~= strings::texts(old_r).push(rest[0]));
            seen = seen || is_to;
            assert(strings::texts(r@) + kept_once(all.skip(i + 1), to@, seen) =~= strings::texts(
                old_r,
            ) + (seq![rest[0]] + kept_once(all.skip(i + 1), to@, seen)));
        }
        i += 1;
    }
    assert(kept_once(all.skip(i as int), to@, seen) =~= Seq::empty());
    assert(strings::texts(r@) =~= kept_once(all, to@, false));
    r
}

/// The settings after each rename of `renames` in turn.
pub open spec fn renamed_all(s: Settings, renames: Seq<(Seq<char>, Seq<char>)>) -> Settings
    decreases renames.len(),
{
    if renames.len() == 0 {
        s
    } else {
        let before = renamed_all(s, renames.drop_last());
        renamed(before, renames.last().0, renames.last().1)
    }
}

/// Whether any rename of `renames` found a setting to move.
pub open spec fn any_renamed(s: Settings, renames: Seq<(Seq<char>, Seq<char>)>) -> bool
    decreases renames.len(),
{
    renames.len() > 0 && (any_renamed(s, renames.drop_last()) || mentions(
        renamed_all(s, renames.drop_last()),
        renames.last().0,
    ))
}

/// The old and new names of a list of renames, as their characters.
pub open spec fn rename_texts(renames: Seq<(String, String)>) -> Seq<(Seq<char>, Seq<char>)> {
    renames.map_values(|r: (String, String)| (r.0@, r.1@))
}

/// Moves per-device settings onto each device's new name. `None` when no
/// rename found a setting to move: there is then nothing to save or publish.
pub fn apply_renames(cfg: &Config, renames: &[(String, String)]) -> (r: Option<Config>)
    ensures
        r is Some <==> any_renamed(cfg@, rename_texts(renames@)),
        r matches Some(new) ==> new@ == renamed_all(cfg@, rename_texts(renames@)),
{
    let ghost all = rename_texts(renames@);
    let mut new = cfg.clone();
    let mut changed: bool = false;
    let mut i: usize = 0;
    while i < renames.len()
        invariant
            all == rename_texts(renames@),
            i <= renames@.len(),
            new@ == renamed_all(cfg@, all.take(i as int)),
            changed == any_renamed(cfg@, all.take(i as int)),
        decreases renames@.len() - i,
    {
        assert(all.take(i + 1).drop_last() == all.take(i as int));
        let moved = rename_device(&mut new, renames[i].0.as_str(), renames[i].1.as_str());
        changed = changed || moved;
        i += 1;
    }
    assert(all.take(i as int) == all);
    if changed {
        Some(new)
    } else {
        None
    }
}

proof fn kept_once_members(list: Seq<Seq<char>>, name: Seq<char>, seen: bool, other: Seq<char>)
    ensures
        other != name ==> kept_once(list, name, seen).contains(other) == list.contains(other),
        kept_once(list, name, seen).contains(name) == (!seen && list.contains(name)),
    decreases list.len(),
{
    if list.len() > 0 {
        let rest = list.drop_first();
        let next = seen || list[0] == name;
        kept_once_members(rest, name, next, other);
        let tail = kept_once(rest, name, next);
        let whole = kept_once(list, name, seen);
        assert forall|x: Seq<char>| list.contains(x) == (list[0] == x || rest.contains(x)) by {
            if rest.contains(x) {
                assert(list[rest.index_of(x) + 1] == x);
            }
            if list.contains(x) && list[0] != x {
                assert(rest[list.index_of(x) - 1] == x);
            }
        }
        if !(list[0] == name && seen) {
            assert forall|x: Seq<char>| whole.contains(x) == (list[0] == x || tail.contains(x)) by {
                if tail.contains(x) {
                    assert(whole[tail.index_of(x) + 1] == x);
                }
                if list[0] == x {
                    assert(whole[0] == x);
                }
                if whole.contains(x) && list[0] != x {
                    assert(tail[whole.index_of(x) - 1] == x);
                }
            }
        }
    }
}

proof fn replaced_members(list: Seq<Seq<char>>, from: Seq<char>, to: Seq<char>, other: Seq<char>)
    ensures
        other != from && other != to ==> replaced(list, from, to).contains(other) == list.contains(
            other,
        ),
        replaced(list, from, to).contains(to) == (list.contains(from) || list.contains(to)),
        from != to ==> !replaced(list, from, to).contains(from),
{
    let new = replaced(list, from, to);
    assert forall|x: Seq<char>| list.contains(x) implies new.contains(
        if x == from {
            to
        } else {
            x
        },
    ) by {
        assert(new[list.index_of(x)] == if x == from {
            to
        } else {
            x
        });
    }
    if new.contains(other) {
        assert(list[new.index_of(other)] == other || other == to);
    }
    if new.contains(to) {
        let i = new.index_of(to);
        assert(list.contains(list[i]));
    }
    if new.contains(from) {
        let i = new.index_of(from);
        assert(list.contains(list[i]));
    }
}

/// After a rename nothing mentions the old name any more.
pub proof fn the_old_name_is_gone(s: Settings, from: Seq<char>, to: Seq<char>)
    requires
        from != to,
    ensures
        !mentions(renamed(s, from, to), from),
{
    replaced_members(s.hidden, from, to, from);
    kept_once_members(replaced(s.hidden, from, to), to, false, from);
}

/// A renamed device keeps its settings: it is hidden if it was, it has the
/// overrides it had, and it is pinned if it was.
pub proof fn settings_follow_a_rename(s: Settings, from: Seq<char>, to: Seq<char>)
    ensures
        renamed(s, from, to).shows(to) == (s.shows(from) && s.shows(to)),
        s.overrides.dom().contains(from) ==> {
            &&& renamed(s, from, to).overrides.dom().contains(to)
            &&& renamed(s, from, to).overrides[to] == s.overrides[from]
            &&& renamed(s, from, to).threshold(to) == s.threshold(from)
            &&& renamed(s, from, to).poll_secs(to) == s.poll_secs(from)
        },
        s.primary == Some(from) ==> renamed(s, from, to).primary == Some(to),
{
    replaced_members(s.hidden, from, to, to);
    kept_once_members(replaced(s.hidden, from, to), to, false, to);
}

/// A rename touches no other device and no global setting.
pub proof fn a_rename_touches_nothing_else(
    s: Settings,
    from: Seq<char>,
    to: Seq<char>,
    other: Seq<char>,
)
    requires
        other != from,
        other != to,
    ensures
        renamed(s, from, to).shows(other) == s.shows(other),
        renamed(s, from, to).threshold(other) == s.threshold(other),
        renamed(s, from, to).poll_secs(other) == s.poll_secs(other),
        (renamed(s, from, to).primary == Some(other)) == (s.primary == Some(other)),
        renamed(s, from, to).display_mode == s.display_mode,
        renamed(s, from, to).shown == s.shown,
        renamed(s, from, to).notifications_enabled == s.notifications_enabled,
        renamed(s, from, to).tray_mode == s.tray_mode,
        renamed(s, from, to).poll_interval_secs == s.poll_interval_secs,
        renamed(s, from, to).low_threshold == s.low_threshold,
        renamed(s, from, to).language == s.language,
        renamed(s, from, to).palette == s.palette,
{
    replaced_members(s.hidden, from, to, other);
    kept_once_members(replaced(s.hidden, from, to), to, false, other);
}

/// The new name is hidden at most once.
pub proof fn a_rename_hides_once(s: Settings, from: Seq<char>, to: Seq<char>, i: int, j: int)
    requires
        0 <= i < j < renamed(s, from, to).hidden.len(),
    ensures
        !(renamed(s, from, to).hidden[i] == to && renamed(s, from, to).hidden[j] == to),
{
    once_is_once(replaced(s.hidden, from, to), to, false, i, j);
}

proof fn once_is_once(list: Seq<Seq<char>>, name: Seq<char>, seen: bool, i: int, j: int)
    requires
        0 <= i < j < kept_once(list, name, seen).len(),
    ensures
        !(kept_once(list, name, seen)[i] == name && kept_once(list, name, seen)[j] == name),
    decreases list.len(),
{
    let rest = list.drop_first();
    if list[0] == name && seen {
        once_is_once(rest, name, true, i, j);
    } else {
        let next = seen || list[0] == name;
        if i > 0 {
            once_is_once(rest, name, next, i - 1, j - 1);
        } else if list[0] == name {
            kept_once_members(rest, name, true, name);
            if kept_once(list, name, seen)[j] == name {
                assert(kept_once(rest, name, true)[j - 1] == name);
            }
        }
    }
}

} // verus!
