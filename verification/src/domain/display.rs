//! What the user can choose about how a device is displayed.

use crate::i18n::{self, Lang, Phrase};
use vstd::prelude::*;

verus! {

#[derive(Debug, Clone, Copy, PartialEq, Eq, Structural)]
pub enum DisplayMode {
    IconOnly,
    PercentOnly,
    PercentInIcon,
}

#[derive(Debug, Clone, Copy, PartialEq, Eq, Structural)]
pub enum TrayMode {
    /// One aggregate icon.
    PrimaryOnly,
    /// One icon per shown device.
    PerDevice,
}

/// The colours inside the system's light or dark scheme.
#[derive(Debug, Clone, Copy, PartialEq, Eq, Structural)]
pub enum Palette {
    Catppuccin,
    Everforest,
    Gnome,
    Nord,
}

impl Default for DisplayMode {
    fn default() -> (r: Self)
        ensures
            r == DisplayMode::IconOnly,
    {
        DisplayMode::IconOnly
    }
}

impl Default for TrayMode {
    fn default() -> (r: Self)
        ensures
            r == TrayMode::PrimaryOnly,
    {
        TrayMode::PrimaryOnly
    }
}

impl Default for Palette {
    fn default() -> (r: Self)
        ensures
            r == Palette::Catppuccin,
    {
        Palette::Catppuccin
    }
}

impl Palette {
    pub const ALL: [Palette; 4] = [
        Palette::Catppuccin,
        Palette::Everforest,
        Palette::Gnome,
        Palette::Nord,
    ];

    /// The phrase that names the palette.
    pub open spec fn name_phrase(self) -> Phrase {
        match self {
            Palette::Catppuccin => Phrase::PaletteCatppuccin,
            Palette::Everforest => Phrase::PaletteEverforest,
            Palette::Gnome => Phrase::PaletteGnome,
            Palette::Nord => Phrase::PaletteNord,
        }
    }

    pub fn label(self, lang: Lang) -> (r: String)
        ensures
            r@ == i18n::wording(self.name_phrase(), lang),
    {
        let name = match self {
            Palette::Catppuccin => Phrase::PaletteCatppuccin,
            Palette::Everforest => Phrase::PaletteEverforest,
            Palette::Gnome => Phrase::PaletteGnome,
            Palette::Nord => Phrase::PaletteNord,
        };
        i18n::phrase(name, lang).to_owned()
    }
}

impl DisplayMode {
    /// All display modes in display order, used to build the Settings menu.
    pub const ALL: [DisplayMode; 3] = [
        DisplayMode::IconOnly,
        DisplayMode::PercentOnly,
        DisplayMode::PercentInIcon,
    ];

    /// The phrase that names the mode.
    pub open spec fn name_phrase(self) -> Phrase {
        match self {
            DisplayMode::IconOnly => Phrase::DisplayIconOnly,
            DisplayMode::PercentOnly => Phrase::DisplayPercentOnly,
            DisplayMode::PercentInIcon => Phrase::DisplayPercentInIcon,
        }
    }

    /// Human-readable label used in the settings window radio group.
    pub fn label(self, lang: Lang) -> (r: String)
        ensures
            r@ == i18n::wording(self.name_phrase(), lang),
    {
        let name = match self {
            DisplayMode::IconOnly => Phrase::DisplayIconOnly,
            DisplayMode::PercentOnly => Phrase::DisplayPercentOnly,
            DisplayMode::PercentInIcon => Phrase::DisplayPercentInIcon,
        };
        i18n::phrase(name, lang).to_owned()
    }
}

/// The display modes are all listed, each once.
pub proof fn all_modes_are_listed(mode: DisplayMode)
    ensures
        DisplayMode::ALL@.contains(mode),
        DisplayMode::ALL@.no_duplicates(),
{
    assert(DisplayMode::ALL@[0] == DisplayMode::IconOnly);
    assert(DisplayMode::ALL@[1] == DisplayMode::PercentOnly);
    assert(DisplayMode::ALL@[2] == DisplayMode::PercentInIcon);
}

} // verus!
