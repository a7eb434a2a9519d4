//! Devices, their readings and how reachable they are.

use crate::domain::estimate::Estimate;
use crate::domain::time::{self, BootTime, Duration};
use crate::i18n::{self, Lang, Phrase};
use crate::strings;
use vstd::prelude::*;

verus! {

#[derive(Debug, Clone, Copy, PartialEq, Eq, Structural)]
pub enum DeviceKind {
    Mouse,
    Keyboard,
    Headset,
    Controller,
    Other,
}

// --- guessing the kind -------------------------------------------------------

/// Whether any of `words` stands somewhere in `name`.
pub open spec fn mentions_any(name: Seq<char>, words: Seq<Seq<char>>) -> bool {
    exists|i: int| 0 <= i < words.len() && strings::occurs(name, #[trigger] words[i])
}

/// The characters of each word of a list.
pub open spec fn word_texts(words: Seq<&str>) -> Seq<Seq<char>> {
    words.map_values(|w: &str| w@)
}

/// Whether the letters and digits of `name` from `i` to `j` form a whole word:
/// nothing but letters and digits inside, neither just before nor just after.
pub open spec fn is_word_at(name: Seq<char>, i: int, j: int) -> bool {
    &&& 0 <= i <= j <= name.len()
    &&& forall|k: int| i <= k < j ==> strings::alphanumeric(#[trigger] name[k])
    &&& i == 0 || !strings::alphanumeric(name[i - 1])
    &&& j == name.len() || !strings::alphanumeric(name[j])
}

/// Whether a whole word of `name` is one of `words`.
pub open spec fn has_word(name: Seq<char>, words: Seq<Seq<char>>) -> bool {
    exists|i: int, j: int|
        #[trigger] is_word_at(name, i, j) && words.contains(name.subrange(i, j))
}

/// Words that name a headset when they stand alone. Whole words only: "ear"
/// sits inside "Nearby", "Gear", "Clear".
pub open spec fn headset_words() -> Seq<Seq<char>> {
    seq![
        "ear"@,
        "buds"@,
        "earbuds"@,
        "airpods"@,
        "headphone"@,
        "headphones"@,
        "earphone"@,
    ]
}

/// Words that state a headset.
pub open spec fn headset_categories() -> Seq<Seq<char>> {
    seq!["headset"@, "headphone"@, "earphone"@, "earbud"@, "buds"@]
}

/// Words that state a controller.
pub open spec fn controller_categories() -> Seq<Seq<char>> {
    seq!["controller"@, "gamepad"@]
}

/// Product lines and model numbers of mice.
pub open spec fn mouse_models() -> Seq<Seq<char>> {
    seq![
        "aerox"@,
        "rival"@,
        "viper"@,
        "deathadder"@,
        "basilisk"@,
        "mx anywhere"@,
        "mx master"@,
        "g pro"@,
        "m705"@,
        "m750"@,
    ]
}

/// Product lines and model numbers of keyboards.
pub open spec fn keyboard_models() -> Seq<Seq<char>> {
    seq![
        "apex"@,
        "huntsman"@,
        "k70"@,
        "k95"@,
        "g915"@,
        "air75"@,
        "air96"@,
        "nuphy"@,
        "keychron"@,
    ]
}

/// Product lines and model numbers of headsets.
pub open spec fn headset_models() -> Seq<Seq<char>> {
    seq!["hitune"@, "arctis"@, "wh-"@, "wf-"@, "momentum"@, "qc"@]
}

/// Product lines and model numbers of controllers.
pub open spec fn controller_models() -> Seq<Seq<char>> {
    seq!["dualsense"@, "dualshock"@, "xbox"@, "joycon"@, "8bitdo"@]
}

/// The kind a lower-case name states by a category word, if it has one.
pub open spec fn stated_kind(lower: Seq<char>) -> Option<DeviceKind> {
    if strings::occurs(lower, "mouse"@) {
        Some(DeviceKind::Mouse)
    } else if strings::occurs(lower, "keyboard"@) {
        Some(DeviceKind::Keyboard)
    } else if mentions_any(lower, headset_categories()) {
        Some(DeviceKind::Headset)
    } else if mentions_any(lower, controller_categories()) {
        Some(DeviceKind::Controller)
    } else {
        None
    }
}

/// The kind a lower-case name hints at by a product line or model number.
pub open spec fn hinted_kind(lower: Seq<char>) -> DeviceKind {
    if mentions_any(lower, mouse_models()) {
        DeviceKind::Mouse
    } else if mentions_any(lower, keyboard_models()) {
        DeviceKind::Keyboard
    } else if mentions_any(lower, headset_models()) {
        DeviceKind::Headset
    } else if mentions_any(lower, controller_models()) {
        DeviceKind::Controller
    } else {
        DeviceKind::Other
    }
}

/// The kind of a device with the lower-case name `lower`. A category word
/// states what the device is; a product line only hints, and vendors reuse a
/// line across categories, so a category wins.
pub open spec fn kind_of(lower: Seq<char>) -> DeviceKind {
    match stated_kind(lower) {
        Some(kind) => kind,
        None => if has_word(lower, headset_words()) {
            DeviceKind::Headset
        } else {
            hinted_kind(lower)
        },
    }
}

fn any_mentioned(name: &Vec<char>, words: &[&str]) -> (r: bool)
    ensures
        r == mentions_any(name@, word_texts(words@)),
{
    let mut i: usize = 0;
    while i < words.len()
        invariant
            i <= words@.len(),
            forall|k: int| 0 <= k < i ==> !strings::occurs(name@, (#[trigger] words@[k])@),
        decreases words@.len() - i,
    {
        let word = strings::chars_of(words[i]);
        if strings::contains(name, &word) {
            assert(word_texts(words@)[i as int] == word@);
            return true;
        }
        i += 1;
    }
    false
}

fn is_one_of(word: &str, words: &[&str]) -> (r: bool)
    ensures
        r == word_texts(words@).contains(word@),
{
    let mut i: usize = 0;
    while i < words.len()
        invariant
            i <= words@.len(),
            forall|k: int| 0 <= k < i ==> (#[trigger] words@[k])@ != word@,
        decreases words@.len() - i,
    {
        if *word == *words[i] {
            assert(word_texts(words@)[i as int] == word@);
            return true;
        }
        i += 1;
    }
    assert forall|k: int| 0 <= k < word_texts(words@).len() implies word_texts(words@)[k]
        != word@ by {
        assert(words@[k]@ != word@);
    }
    false
}

fn word_stands_alone(name: &Vec<char>, words: &[&str]) -> (r: bool)
    ensures
        r == has_word(name@, word_texts(words@)),
{
    let ghost texts = word_texts(words@);
    let mut start: usize = 0;
    loop
        invariant
            texts == word_texts(words@),
            start <= name@.len(),
            start == 0 || !strings::alphanumeric(name@[start - 1]),
            forall|i: int, j: int|
                #[trigger] is_word_at(name@, i, j) && i < start ==> !texts.contains(
                    name@.subrange(i, j),
                ),
        decreases name@.len() - start,
    {
        let mut word = String::new();
        let mut end: usize = start;
        let mut inside: bool = true;
        while inside
            invariant
                start <= end <= name@.len(),
                word@ == name@.subrange(start as int, end as int),
                forall|k: int| start <= k < end ==> strings::alphanumeric(#[trigger] name@[k]),
                !inside ==> end == name@.len() || !strings::alphanumeric(name@[end as int]),
            decreases name@.len() - end, (if inside { 1int } else { 0int }),
        {
            if end == name.len() || !strings::is_alphanumeric(name[end]) {
                inside = false;
            } else {
                assert(name@.subrange(start as int, end + 1) == name@.subrange(
                    start as int,
                    end as int,
                ).push(name@[end as int]));
                word.push(name[end]);
                end += 1;
            }
        }
        assert(is_word_at(name@, start as int, end as int));
        if is_one_of(word.as_str(), words) {
            return true;
        }
        assert forall|i: int, j: int| #[trigger]
            is_word_at(name@, i, j) && i <= end implies !texts.contains(name@.subrange(i, j)) by {
            if i >= start {
                if i == start {
                    if j < end {
                        assert(strings::alphanumeric(name@[j]));
                    } else if j > end {
                        assert(strings::alphanumeric(name@[end as int]));
                    }
                    assert(j == end);
                } else {
                    assert(strings::alphanumeric(name@[i - 1]));
                }
            }
        }
        if end == name.len() {
            return false;
        }
        start = end + 1;
    }
}

/// The kind of a device whose name in lower case is `lower`.
pub fn kind_of_lowercase(lower: &str) -> (kind: DeviceKind)
    ensures
        kind == kind_of(lower@),
{
    let name = strings::chars_of(lower);
    let mouse = strings::chars_of("mouse");
    let keyboard = strings::chars_of("keyboard");
    let headset_categories: [&str; 5] = ["headset", "headphone", "earphone", "earbud", "buds"];
    let controller_categories: [&str; 2] = ["controller", "gamepad"];
    let headset_words: [&str; 7] = [
        "ear",
        "buds",
        "earbuds",
        "airpods",
        "headphone",
        "headphones",
        "earphone",
    ];
    let mouse_models: [&str; 10] = [
        "aerox",
        "rival",
        "viper",
        "deathadder",
        "basilisk",
        "mx anywhere",
        "mx master",
        "g pro",
        "m705",
        "m750",
    ];
    let keyboard_models: [&str; 9] = [
        "apex",
        "huntsman",
        "k70",
        "k95",
        "g915",
        "air75",
        "air96",
        "nuphy",
        "keychron",
    ];
    let headset_models: [&str; 6] = ["hitune", "arctis", "wh-", "wf-", "momentum", "qc"];
    let controller_models: [&str; 5] = ["dualsense", "dualshock", "xbox", "joycon", "8bitdo"];
    assert(word_texts(headset_categories@) =~= self::headset_categories());
    assert(word_texts(controller_categories@) =~= self::controller_categories());
    assert(word_texts(headset_words@) =~= self::headset_words());
    assert(word_texts(mouse_models@) =~= self::mouse_models());
    assert(word_texts(keyboard_models@) =~= self::keyboard_models());
    assert(word_texts(headset_models@) =~= self::headset_models());
    assert(word_texts(controller_models@) =~= self::controller_models());
    if strings::contains(&name, &mouse) {
        DeviceKind::Mouse
    } else if strings::contains(&name, &keyboard) {
        DeviceKind::Keyboard
    } else if any_mentioned(&name, &headset_categories) {
        DeviceKind::Headset
    } else if any_mentioned(&name, &controller_categories) {
        DeviceKind::Controller
    } else if word_stands_alone(&name, &headset_words) {
        DeviceKind::Headset
    } else if any_mentioned(&name, &mouse_models) {
        DeviceKind::Mouse
    } else if any_mentioned(&name, &keyboard_models) {
        DeviceKind::Keyboard
    } else if any_mentioned(&name, &headset_models) {
        DeviceKind::Headset
    } else if any_mentioned(&name, &controller_models) {
        DeviceKind::Controller
    } else {
        DeviceKind::Other
    }
}

/// Guesses the device type from its display name, ignoring case: by a category
/// word anywhere in the name, then by a whole word that names earbuds, then by
/// a product line or model number. In each step the order is mouse, keyboard,
/// headset, controller; the first match wins.
pub fn guess_kind(name: &str) -> (kind: DeviceKind)
    ensures
        kind == kind_of(strings::lowercase(name@)),
{
    let lower = strings::to_lowercase(name);
    kind_of_lowercase(lower.as_str())
}

/// A category word decides the kind, whatever product line stands beside it.
pub proof fn category_beats_product_line(lower: Seq<char>)
    requires
        stated_kind(lower) is Some,
    ensures
        Some(kind_of(lower)) == stated_kind(lower),
{
}

impl DeviceKind {
    /// The canonical spelling of the variant.
    pub open spec fn spelling(self) -> Seq<char> {
        match self {
            DeviceKind::Mouse => "mouse"@,
            DeviceKind::Keyboard => "keyboard"@,
            DeviceKind::Headset => "headset"@,
            DeviceKind::Controller => "controller"@,
            DeviceKind::Other => "other"@,
        }
    }

    /// Canonical string spelling of the variant. Part of the `--json` CLI contract
    /// (the "kind" field) and of stored inventory rows — never translate; see `label`.
    pub fn as_str(self) -> (r: &'static str)
        ensures
            r@ == self.spelling(),
    {
        match self {
            DeviceKind::Mouse => "mouse",
            DeviceKind::Keyboard => "keyboard",
            DeviceKind::Headset => "headset",
            DeviceKind::Controller => "controller",
            DeviceKind::Other => "other",
        }
    }

    /// The phrase that names the variant.
    pub open spec fn name_phrase(self) -> Phrase {
        match self {
            DeviceKind::Mouse => Phrase::KindMouse,
            DeviceKind::Keyboard => Phrase::KindKeyboard,
            DeviceKind::Headset => Phrase::KindHeadset,
            DeviceKind::Controller => Phrase::KindController,
            DeviceKind::Other => Phrase::KindOther,
        }
    }

    pub fn label(self, lang: Lang) -> (r: String)
        ensures
            r@ == i18n::wording(self.name_phrase(), lang),
    {
        let name = match self {
            DeviceKind::Mouse => Phrase::KindMouse,
            DeviceKind::Keyboard => Phrase::KindKeyboard,
            DeviceKind::Headset => Phrase::KindHeadset,
            DeviceKind::Controller => Phrase::KindController,
            DeviceKind::Other => Phrase::KindOther,
        };
        i18n::phrase(name, lang).to_owned()
    }
}

/// Returns the freedesktop icon-theme name for a device kind.
pub fn freedesktop_icon_name(kind: DeviceKind) -> (r: &'static str)
    ensures
        r@ == match kind {
            DeviceKind::Mouse => "input-mouse"@,
            DeviceKind::Keyboard => "input-keyboard"@,
            DeviceKind::Headset => "audio-headset"@,
            DeviceKind::Controller => "input-gaming"@,
            DeviceKind::Other => "battery"@,
        },
{
    match kind {
        DeviceKind::Mouse => "input-mouse",
        DeviceKind::Keyboard => "input-keyboard",
        DeviceKind::Headset => "audio-headset",
        DeviceKind::Controller => "input-gaming",
        DeviceKind::Other => "battery",
    }
}

#[derive(Debug, Clone, Copy, PartialEq, Eq, Structural)]
pub enum ChargeState {
    Discharging,
    Charging,
    Full,
}

/// How rigbat reaches a device. Distinguishes otherwise same-named duplicates
/// (e.g. a mouse seen over both sysfs/HID++ and Bluetooth).
#[derive(Debug, Clone, Copy, PartialEq, Eq, Hash, Structural)]
pub enum Transport {
    Sysfs,
    Bluetooth,
    Hidraw,
}

impl Transport {
    /// The canonical spelling of the variant.
    pub open spec fn spelling(self) -> Seq<char> {
        match self {
            Transport::Sysfs => "sysfs"@,
            Transport::Bluetooth => "bluetooth"@,
            Transport::Hidraw => "hidraw"@,
        }
    }

    /// Also shown untranslated in the UI: these are technology names.
    pub fn as_str(self) -> (r: &'static str)
        ensures
            r@ == self.spelling(),
    {
        match self {
            Transport::Sysfs => "sysfs",
            Transport::Bluetooth => "bluetooth",
            Transport::Hidraw => "hidraw",
        }
    }
}

// --- identity ----------------------------------------------------------------

/// What a `DeviceId` says, with texts as their characters.
pub struct DeviceKey {
    pub name: Seq<char>,
    pub transport: Transport,
    pub locator: Option<Seq<char>>,
}

/// The characters of an optional text.
pub open spec fn locator_text(s: Option<String>) -> Option<Seq<char>> {
    match s {
        Some(text) => Some(text@),
        None => None,
    }
}

/// Stable identity of a device: the tuple that distinguishes two entries the
/// project deliberately does not deduplicate (e.g. one mouse seen over both
/// sysfs/HID++ and Bluetooth is shown twice; rigbat does not merge them).
#[derive(Debug, PartialEq, Eq, Hash)]
pub struct DeviceId {
    pub name: String,
    pub transport: Transport,
    pub locator: Option<String>,
}

impl View for DeviceId {
    type V = DeviceKey;

    open spec fn view(&self) -> DeviceKey {
        DeviceKey {
            name: self.name@,
            transport: self.transport,
            locator: locator_text(self.locator),
        }
    }
}

/// Copies an optional text.
pub fn copy_locator(locator: &Option<String>) -> (r: Option<String>)
    ensures
        r == *locator,
{
    match locator {
        Some(text) => Some(text.clone()),
        None => None,
    }
}

/// Whether two optional texts are the same.
pub fn same_locator(a: &Option<String>, b: &Option<String>) -> (r: bool)
    ensures
        r == (locator_text(*a) == locator_text(*b)),
{
    match (a, b) {
        (Some(x), Some(y)) => *x == *y,
        (None, None) => true,
        _ => false,
    }
}

impl Clone for DeviceId {
    fn clone(&self) -> (r: Self)
        ensures
            r == *self,
    {
        DeviceId {
            name: self.name.clone(),
            transport: self.transport,
            locator: copy_locator(&self.locator),
        }
    }
}

impl DeviceId {
    /// Whether both name the same device.
    pub fn same(&self, other: &DeviceId) -> (r: bool)
        ensures
            r == (self@ == other@),
    {
        self.name == other.name && self.transport == other.transport && same_locator(
            &self.locator,
            &other.locator,
        )
    }
}

#[derive(Debug, PartialEq, Eq)]
pub struct DeviceInfo {
    pub name: String,
    pub kind: DeviceKind,
    pub transport: Transport,
    /// Source-specific locator that survives a replug: BlueZ MAC, sysfs
    /// power_supply directory name, or, for hidraw, the device's serial or
    /// USB path, never the `hidrawN` node name, which the kernel reassigns in
    /// enumeration order. None if the source cannot provide one.
    pub locator: Option<String>,
}

impl Clone for DeviceInfo {
    fn clone(&self) -> (r: Self)
        ensures
            r == *self,
    {
        DeviceInfo {
            name: self.name.clone(),
            kind: self.kind,
            transport: self.transport,
            locator: copy_locator(&self.locator),
        }
    }
}

impl DeviceInfo {
    /// The identity of this device.
    pub open spec fn key(self) -> DeviceKey {
        DeviceKey {
            name: self.name@,
            transport: self.transport,
            locator: locator_text(self.locator),
        }
    }

    pub fn id(&self) -> (id: DeviceId)
        ensures
            id == (DeviceId {
                name: self.name,
                transport: self.transport,
                locator: self.locator,
            }),
            id@ == self.key(),
    {
        DeviceId {
            name: self.name.clone(),
            transport: self.transport,
            locator: copy_locator(&self.locator),
        }
    }

    /// Whether this device is the one `id` names.
    pub fn is(&self, id: &DeviceId) -> (r: bool)
        ensures
            r == (self.key() == id@),
    {
        self.name == id.name && self.transport == id.transport && same_locator(
            &self.locator,
            &id.locator,
        )
    }
}

// --- readings and presence ---------------------------------------------------

#[derive(Debug, Clone, Copy, PartialEq, Eq, Structural)]
pub struct BatteryReading {
    /// At most 100.
    pub percent: u8,
    pub state: ChargeState,
    /// `percent` stands in for a level band, so no remaining-time estimate uses it.
    pub coarse: bool,
}

/// A percentage held to at most 100.
pub open spec fn percent_of(raw: u8) -> u8 {
    if raw <= 100 {
        raw
    } else {
        100
    }
}

impl BatteryReading {
    /// Creates a reading, constraining percent to range 0..=100.
    pub fn new(percent: u8, state: ChargeState) -> (r: Self)
        ensures
            r == (BatteryReading { percent: percent_of(percent), state, coarse: false }),
    {
        Self { percent: if percent <= 100 {
            percent
        } else {
            100
        }, state, coarse: false }
    }

    pub fn new_coarse(percent: u8, state: ChargeState) -> (r: Self)
        ensures
            r == (BatteryReading { percent: percent_of(percent), state, coarse: true }),
    {
        let exact = Self::new(percent, state);
        Self { percent: exact.percent, state: exact.state, coarse: true }
    }
}

/// How reachable a device currently is. `last_reading` is retained across all
/// states, so a device that is asleep or switched off still shows the
/// charge it last reported.
#[derive(Debug, Clone, Copy, PartialEq, Eq, Structural)]
pub enum Presence {
    /// Polling succeeds.
    Online,
    /// Still discovered, but the last few polls failed. Wireless peripherals
    /// drop telemetry packets as normal behaviour, so a single failure is not
    /// treated as a state change.
    Unreachable,
    /// Gone from discovery entirely: powered off, or switched to another host.
    Disconnected,
    /// Discovered, but this user may not open it (udev rule missing).
    NoAccess,
}

impl Presence {
    /// The spelling machine-readable output uses.
    pub open spec fn spelling(self) -> Seq<char> {
        match self {
            Presence::Online => "online"@,
            Presence::Unreachable => "unreachable"@,
            Presence::Disconnected => "disconnected"@,
            Presence::NoAccess => "no_access"@,
        }
    }

    /// The spelling machine-readable output uses.
    pub fn as_str(self) -> (r: &'static str)
        ensures
            r@ == self.spelling(),
    {
        match self {
            Presence::Online => "online",
            Presence::Unreachable => "unreachable",
            Presence::Disconnected => "disconnected",
            Presence::NoAccess => "no_access",
        }
    }
}

/// One poll's result, for the one-shot surfaces that keep no running presence.
#[derive(Debug, Clone, Copy, PartialEq, Eq, Structural)]
pub enum PollOutcome {
    Reading(BatteryReading),
    /// The device did not answer.
    Failed,
    /// The device cannot be opened by this user.
    NoAccess,
}

impl PollOutcome {
    pub fn reading(self) -> (r: Option<BatteryReading>)
        ensures
            r == match self {
                PollOutcome::Reading(reading) => Some(reading),
                PollOutcome::Failed | PollOutcome::NoAccess => None,
            },
    {
        match self {
            PollOutcome::Reading(reading) => Some(reading),
            PollOutcome::Failed | PollOutcome::NoAccess => None,
        }
    }

    pub fn presence(self) -> (p: Presence)
        ensures
            p == self.shown_presence(),
    {
        match self {
            PollOutcome::Reading(_) => Presence::Online,
            PollOutcome::Failed => Presence::Unreachable,
            PollOutcome::NoAccess => Presence::NoAccess,
        }
    }

    /// The presence one poll's result amounts to.
    pub open spec fn shown_presence(self) -> Presence {
        match self {
            PollOutcome::Reading(_) => Presence::Online,
            PollOutcome::Failed => Presence::Unreachable,
            PollOutcome::NoAccess => Presence::NoAccess,
        }
    }
}

/// Every tracked device, as the supervisor publishes it to the surfaces.
#[derive(Debug, PartialEq, Eq)]
pub struct TrayState {
    pub devices: Vec<DeviceState>,
}

impl Clone for TrayState {
    fn clone(&self) -> (r: Self)
        ensures
            r.devices@ == self.devices@,
    {
        let mut devices: Vec<DeviceState> = Vec::new();
        let mut i: usize = 0;
        while i < self.devices.len()
            invariant
                i <= self.devices@.len(),
                devices@ == self.devices@.take(i as int),
            decreases self.devices@.len() - i,
        {
            devices.push(self.devices[i].clone());
            i += 1;
        }
        assert(self.devices@.take(i as int) == self.devices@);
        TrayState { devices }
    }
}

/// A device's presence and last-known reading, retained across polling gaps
/// and disconnects.
#[derive(Debug, PartialEq, Eq)]
pub struct DeviceState {
    pub info: DeviceInfo,
    /// Last successful reading. Survives going Unreachable or Disconnected.
    pub last_reading: Option<BatteryReading>,
    /// When `last_reading` was taken. `None` if the device has never answered.
    pub last_seen: Option<BootTime>,
    pub presence: Presence,
    /// Remaining-time estimate derived from this device's recorded
    /// percent-change history.
    pub estimate: Estimate,
}

impl Clone for DeviceState {
    fn clone(&self) -> (r: Self)
        ensures
            r == *self,
    {
        DeviceState {
            info: self.info.clone(),
            last_reading: self.last_reading,
            last_seen: self.last_seen,
            presence: self.presence,
            estimate: self.estimate,
        }
    }
}

impl DeviceState {
    /// Whether the device still has something to say at `now`, given that a
    /// reading is worth showing for `max_age` nanoseconds.
    pub open spec fn informative(self, now: BootTime, max_age: nat) -> bool {
        ||| self.presence == Presence::Online
        ||| self.presence == Presence::NoAccess
        ||| self.last_reading is Some && self.last_seen is Some && time::elapsed(
            now,
            self.last_seen->0,
        ) <= max_age
    }

    /// Whether this device still has something to say on a status bar.
    ///
    /// An `Online` device always does, and a `NoAccess` one: the user has a
    /// setup problem to fix. Any other is showing a memory, and a memory has a
    /// shelf life: without a reading there is nothing to display, and a reading
    /// older than `max_age` is no longer worth a slot.
    ///
    /// The device stays in the roster and keeps being polled either way, so it
    /// returns the moment it answers again. This governs display only.
    pub fn is_currently_informative(&self, now: BootTime, max_age: Duration) -> (r: bool)
        ensures
            r == self.informative(now, max_age@),
    {
        if self.presence == Presence::Online || self.presence == Presence::NoAccess {
            return true;
        }
        match (self.last_reading, self.last_seen) {
            (Some(_), Some(seen)) => now.saturating_duration_since(seen).as_nanos()
                <= max_age.as_nanos(),
            _ => false,
        }
    }
}

/// A device that does not answer any more and shows nothing at one moment
/// shows nothing at any later one: only a new reading brings it back.
pub proof fn memory_only_fades(d: DeviceState, now: BootTime, later: BootTime, max_age: nat)
    requires
        now@ <= later@,
        !d.informative(now, max_age),
    ensures
        !d.informative(later, max_age),
{
}

} // verus!
