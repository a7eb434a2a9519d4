//! The session's look: its colour scheme, accent and text scale.

use vstd::prelude::*;

verus! {

#[derive(Debug, Clone, Copy, PartialEq, Eq, Structural)]
pub enum ColorScheme {
    Dark,
    Light,
}

/// What the desktop portal says the user prefers.
#[derive(Debug, Clone, Copy, PartialEq, Eq, Structural)]
pub enum ColorPreference {
    NoPreference,
    PreferDark,
    PreferLight,
}

/// The scheme a preference amounts to: light only for who asks for it.
pub fn map_scheme(preference: ColorPreference) -> (scheme: ColorScheme)
    ensures
        scheme == if preference == ColorPreference::PreferLight {
            ColorScheme::Light
        } else {
            ColorScheme::Dark
        },
{
    match preference {
        ColorPreference::PreferLight => ColorScheme::Light,
        _ => ColorScheme::Dark,
    }
}

/// Takes the scheme, and says whether it is another: repeated portal signals
/// must not wake the tray.
pub fn set_scheme(current: &mut ColorScheme, scheme: ColorScheme) -> (changed: bool)
    ensures
        changed == (*old(current) != scheme),
        *final(current) == scheme,
{
    let changed = *current != scheme;
    *current = scheme;
    changed
}

/// An accent colour.
#[derive(Debug, Clone, Copy, PartialEq, Eq, Structural)]
pub struct Accent {
    pub red: u8,
    pub green: u8,
    pub blue: u8,
}

/// What a window draws with: the session's scheme, accent and text scale. The
/// scale is kept as its bit pattern: it is only ever compared and passed on.
#[derive(Debug, Clone, Copy, PartialEq, Eq, Structural)]
pub struct Appearance {
    pub scheme: ColorScheme,
    pub accent: Option<Accent>,
    pub text_scale_bits: u32,
}

/// The bit pattern of a text scale of one.
pub const PLAIN_TEXT_SCALE_BITS: u32 = 0x3f80_0000;

impl Default for Appearance {
    fn default() -> (r: Self)
        ensures
            r == (Appearance {
                scheme: ColorScheme::Dark,
                accent: None,
                text_scale_bits: PLAIN_TEXT_SCALE_BITS,
            }),
    {
        Appearance {
            scheme: ColorScheme::Dark,
            accent: None,
            text_scale_bits: PLAIN_TEXT_SCALE_BITS,
        }
    }
}

/// Which scheme a window is asked to have.
#[derive(Debug, Clone, Copy, PartialEq, Eq, Structural)]
pub enum WindowTheme {
    /// The session's own.
    System,
    Dark,
    Light,
}

impl Appearance {
    /// The look under a theme: a forced scheme wins over the session's, and
    /// nothing else changes.
    pub fn with_theme(self, theme: WindowTheme) -> (r: Appearance)
        ensures
            r == (Appearance {
                scheme: match theme {
                    WindowTheme::System => self.scheme,
                    WindowTheme::Dark => ColorScheme::Dark,
                    WindowTheme::Light => ColorScheme::Light,
                },
                ..self
            }),
    {
        let scheme = match theme {
            WindowTheme::System => self.scheme,
            WindowTheme::Dark => ColorScheme::Dark,
            WindowTheme::Light => ColorScheme::Light,
        };
        Appearance { scheme, ..self }
    }
}

/// What the portal signals.
#[derive(Debug, Clone, Copy, PartialEq, Eq, Structural)]
pub enum Change {
    Scheme(ColorScheme),
    Accent(Option<Accent>),
    TextScale(u32),
}

/// The look once a change is taken.
pub open spec fn changed_to(a: Appearance, change: Change) -> Appearance {
    match change {
        Change::Scheme(scheme) => Appearance { scheme, ..a },
        Change::Accent(accent) => Appearance { accent, ..a },
        Change::TextScale(text_scale_bits) => Appearance { text_scale_bits, ..a },
    }
}

fn same_accent(a: Option<Accent>, b: Option<Accent>) -> (r: bool)
    ensures
        r == (a == b),
{
    match (a, b) {
        (Some(x), Some(y)) => x == y,
        (None, None) => true,
        _ => false,
    }
}

/// Takes a change, and says whether it altered the look.
pub fn apply_change(appearance: &mut Appearance, change: Change) -> (altered: bool)
    ensures
        *final(appearance) == changed_to(*old(appearance), change),
        altered == (*final(appearance) != *old(appearance)),
{
    match change {
        Change::Scheme(scheme) => {
            let altered = appearance.scheme != scheme;
            appearance.scheme = scheme;
            altered
        },
        Change::Accent(accent) => {
            let altered = !same_accent(appearance.accent, accent);
            appearance.accent = accent;
            altered
        },
        Change::TextScale(bits) => {
            let altered = appearance.text_scale_bits != bits;
            appearance.text_scale_bits = bits;
            altered
        },
    }
}

/// A repeated signal is not a change.
pub proof fn a_repeated_signal_changes_nothing(a: Appearance, change: Change)
    ensures
        changed_to(changed_to(a, change), change) == changed_to(a, change),
{
}

} // verus!
