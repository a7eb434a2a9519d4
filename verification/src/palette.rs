//! Colour tables for each `Palette`, and the rule that keeps them readable.

use crate::appearance::ColorScheme;
use crate::domain::display::Palette;
use vstd::prelude::*;

verus! {

pub type Rgb = [u8; 3];

/// Opacity, in percent, of a reading that is not live, and of an offline icon, on
/// every surface. Not that of a disabled control: a retained reading is still read.
pub const DIM_PERCENT: u8 = 70;

/// How many steps a colour takes toward black or white.
pub const STEPS: u32 = 255;

/// One palette in one scheme, as its authors publish it.
#[derive(Debug, Clone, Copy, PartialEq, Eq)]
pub struct Swatches {
    pub bg: Rgb,
    pub fg: Rgb,
    pub charging: Rgb,
    pub low: Rgb,
    pub warn: Rgb,
    pub track: Rgb,
}

/// The channels of a colour written `0xRRGGBB`.
pub open spec fn channels(hex: u32) -> Seq<u8> {
    seq![
        ((hex as int / 65536) % 256) as u8,
        ((hex as int / 256) % 256) as u8,
        (hex as int % 256) as u8,
    ]
}

fn rgb(hex: u32) -> (c: Rgb)
    ensures
        c@ == channels(hex),
{
    let c: Rgb = [((hex / 65536) % 256) as u8, ((hex / 256) % 256) as u8, (hex % 256) as u8];
    assert(c@ =~= channels(hex));
    c
}

/// The colours of a palette in a scheme, each written `0xRRGGBB`: background,
/// foreground, charging, low, warning, track.
pub open spec fn published(palette: Palette, scheme: ColorScheme) -> (u32, u32, u32, u32, u32, u32) {
    match (palette, scheme) {
        (Palette::Catppuccin, ColorScheme::Light) => (
            0xeff1f5,
            0x4c4f69,
            0x40a02b,
            0xd20f39,
            0xdf8e1d,
            0xccd0da,
        ),
        (Palette::Catppuccin, ColorScheme::Dark) => (
            0x1e1e2e,
            0xcdd6f4,
            0xa6e3a1,
            0xf38ba8,
            0xf9e2af,
            0x45475a,
        ),
        (Palette::Everforest, ColorScheme::Light) => (
            0xfdf6e3,
            0x5c6a72,
            0x8da101,
            0xf85552,
            0xdfa000,
            0xe6e2cc,
        ),
        (Palette::Everforest, ColorScheme::Dark) => (
            0x2d353b,
            0xd3c6aa,
            0xa7c080,
            0xe67e80,
            0xdbbc7f,
            0x475258,
        ),
        (Palette::Gnome, ColorScheme::Light) => (
            0xfafafb,
            0x2e3436,
            0x26a269,
            0xc01c28,
            0xe5a50a,
            0xdeddda,
        ),
        (Palette::Gnome, ColorScheme::Dark) => (
            0x222226,
            0xffffff,
            0x33d17a,
            0xf66151,
            0xf6d32d,
            0x3d3846,
        ),
        (Palette::Nord, ColorScheme::Light) => (
            0xeceff4,
            0x3b4252,
            0x456035,
            0xbf616a,
            0xd08770,
            0xd8dee9,
        ),
        (Palette::Nord, ColorScheme::Dark) => (
            0x2e3440,
            0xd8dee9,
            0xa3be8c,
            0xbf616a,
            0xebcb8b,
            0x434c5e,
        ),
    }
}

/// Whether the swatches are these colours.
pub open spec fn are_swatches(s: Swatches, hex: (u32, u32, u32, u32, u32, u32)) -> bool {
    &&& s.bg@ == channels(hex.0)
    &&& s.fg@ == channels(hex.1)
    &&& s.charging@ == channels(hex.2)
    &&& s.low@ == channels(hex.3)
    &&& s.warn@ == channels(hex.4)
    &&& s.track@ == channels(hex.5)
}

fn swatches_of(bg: u32, fg: u32, charging: u32, low: u32, warn: u32, track: u32) -> (s: Swatches)
    ensures
        are_swatches(s, (bg, fg, charging, low, warn, track)),
{
    Swatches {
        bg: rgb(bg),
        fg: rgb(fg),
        charging: rgb(charging),
        low: rgb(low),
        warn: rgb(warn),
        track: rgb(track),
    }
}

/// The colours of a palette in a scheme.
pub fn swatches(palette: Palette, scheme: ColorScheme) -> (s: Swatches)
    ensures
        are_swatches(s, published(palette, scheme)),
{
    match (palette, scheme) {
        (Palette::Catppuccin, ColorScheme::Light) => swatches_of(
            0xeff1f5,
            0x4c4f69,
            0x40a02b,
            0xd20f39,
            0xdf8e1d,
            0xccd0da,
        ),
        (Palette::Catppuccin, ColorScheme::Dark) => swatches_of(
            0x1e1e2e,
            0xcdd6f4,
            0xa6e3a1,
            0xf38ba8,
            0xf9e2af,
            0x45475a,
        ),
        (Palette::Everforest, ColorScheme::Light) => swatches_of(
            0xfdf6e3,
            0x5c6a72,
            0x8da101,
            0xf85552,
            0xdfa000,
            0xe6e2cc,
        ),
        (Palette::Everforest, ColorScheme::Dark) => swatches_of(
            0x2d353b,
            0xd3c6aa,
            0xa7c080,
            0xe67e80,
            0xdbbc7f,
            0x475258,
        ),
        (Palette::Gnome, ColorScheme::Light) => swatches_of(
            0xfafafb,
            0x2e3436,
            0x26a269,
            0xc01c28,
            0xe5a50a,
            0xdeddda,
        ),
        (Palette::Gnome, ColorScheme::Dark) => swatches_of(
            0x222226,
            0xffffff,
            0x33d17a,
            0xf66151,
            0xf6d32d,
            0x3d3846,
        ),
        (Palette::Nord, ColorScheme::Light) => swatches_of(
            0xeceff4,
            0x3b4252,
            0x456035,
            0xbf616a,
            0xd08770,
            0xd8dee9,
        ),
        (Palette::Nord, ColorScheme::Dark) => swatches_of(
            0x2e3440,
            0xd8dee9,
            0xa3be8c,
            0xbf616a,
            0xebcb8b,
            0x434c5e,
        ),
    }
}

// --- contrast ----------------------------------------------------------------

/// A channel `part` of `whole` steps of the way, rounded to the nearest.
pub open spec fn mixed_channel(from: u8, to: u8, part: int, whole: int) -> u8 {
    ((2 * (from * (whole - part) + to * part) + whole) / (2 * whole)) as u8
}

/// A colour `part` of `whole` steps of the way to another.
pub open spec fn mixed(from: Seq<u8>, to: Seq<u8>, part: int, whole: int) -> Seq<u8> {
    seq![
        mixed_channel(from[0], to[0], part, whole),
        mixed_channel(from[1], to[1], part, whole),
        mixed_channel(from[2], to[2], part, whole),
    ]
}

/// The nearest whole number lies between the channels.
proof fn channels_lie_between(from: int, to: int, part: int, whole: int)
    requires
        0 <= from <= 255,
        0 <= to <= 255,
        0 <= part <= whole,
        1 <= whole,
    ensures
        ({
            let sum = from * (whole - part) + to * part;
            let r = (2 * sum + whole) / (2 * whole);
            &&& 0 <= sum <= 255 * whole
            &&& from <= to ==> from <= r <= to
            &&& to <= from ==> to <= r <= from
            &&& part == 0 ==> r == from
            &&& part == whole ==> r == to
        }),
{
    let sum = from * (whole - part) + to * part;
    let r = (2 * sum + whole) / (2 * whole);
    let low = if from <= to {
        from
    } else {
        to
    };
    let high = if from <= to {
        to
    } else {
        from
    };
    assert(low * whole <= sum <= high * whole) by (nonlinear_arith)
        requires
            sum == from * (whole - part) + to * part,
            0 <= part <= whole,
            low <= from <= high,
            low <= to <= high,
    ;
    assert(0 <= low * whole && high * whole <= 255 * whole) by (nonlinear_arith)
        requires
            0 <= low,
            high <= 255,
            1 <= whole,
    ;
    assert(low <= r <= high) by (nonlinear_arith)
        requires
            r == (2 * sum + whole) / (2 * whole),
            low * whole <= sum <= high * whole,
            1 <= whole,
    ;
    if part == 0 {
        assert(r == from) by (nonlinear_arith)
            requires
                r == (2 * sum + whole) / (2 * whole),
                sum == from * (whole - 0) + to * 0,
                1 <= whole,
        ;
    }
    if part == whole {
        assert(r == to) by (nonlinear_arith)
            requires
                r == (2 * sum + whole) / (2 * whole),
                sum == from * (whole - whole) + to * whole,
                1 <= whole,
        ;
    }
}

fn mix_channel(from: u8, to: u8, part: u32, whole: u32) -> (c: u8)
    requires
        part <= whole,
        1 <= whole <= 255,
    ensures
        c == mixed_channel(from, to, part as int, whole as int),
{
    proof {
        channels_lie_between(from as int, to as int, part as int, whole as int);
        assert(from * (whole - part) <= 65025 && to * part <= 65025) by (nonlinear_arith)
            requires
                0 <= from <= 255,
                0 <= to <= 255,
                0 <= part <= whole <= 255,
        ;
        assert(0 <= from * (whole - part) && 0 <= to * part) by (nonlinear_arith)
            requires
                0 <= from,
                0 <= to,
                0 <= part <= whole,
        ;
    }
    let sum: u32 = from as u32 * (whole - part) + to as u32 * part;
    ((2 * sum + whole) / (2 * whole)) as u8
}

/// The colour `part` of `whole` steps of the way from one to the other.
pub fn mix(from: Rgb, to: Rgb, part: u32, whole: u32) -> (c: Rgb)
    requires
        part <= whole,
        1 <= whole <= 255,
    ensures
        c@ == mixed(from@, to@, part as int, whole as int),
{
    let c: Rgb = [
        mix_channel(from[0], to[0], part, whole),
        mix_channel(from[1], to[1], part, whole),
        mix_channel(from[2], to[2], part, whole),
    ];
    assert(c@ =~= mixed(from@, to@, part as int, whole as int));
    c
}

/// `color` painted at an opacity in percent over `surface`.
pub fn over(color: Rgb, surface: Rgb, opacity: u32) -> (c: Rgb)
    requires
        opacity <= 100,
    ensures
        c@ == mixed(surface@, color@, opacity as int, 100),
{
    mix(surface, color, opacity, 100)
}

/// What `color` looks like `step` steps toward `target`, painted at an opacity in
/// percent over `surface`.
pub open spec fn painted(
    color: Seq<u8>,
    target: Seq<u8>,
    step: int,
    surface: Seq<u8>,
    opacity: int,
) -> Seq<u8> {
    mixed(surface, mixed(color, target, step, STEPS as int), opacity, 100)
}

/// Whether `reaches` can have answered `yes` for a colour on a surface.
pub open spec fn judged<F: Fn(Rgb, Rgb) -> bool>(
    reaches: F,
    color: Seq<u8>,
    surface: Seq<u8>,
    yes: bool,
) -> bool {
    exists|c: Rgb, s: Rgb|
        c@ == color && s@ == surface && #[trigger] reaches.ensures((c, s), yes)
}

/// Whether the first `steps` steps toward `target` all fall short.
pub open spec fn fall_short<F: Fn(Rgb, Rgb) -> bool>(
    reaches: F,
    color: Seq<u8>,
    target: Seq<u8>,
    steps: int,
    surface: Seq<u8>,
    opacity: int,
) -> bool {
    forall|k: int|
        0 <= k < steps ==> judged(
            reaches,
            #[trigger] painted(color, target, k, surface, opacity),
            surface,
            false,
        )
}

/// Whether `c` is the first colour from `color` on its way to `target` that
/// reaches the contrast, or `target` if none does.
pub open spec fn is_readable<F: Fn(Rgb, Rgb) -> bool>(
    reaches: F,
    color: Seq<u8>,
    target: Seq<u8>,
    surface: Seq<u8>,
    opacity: int,
    c: Seq<u8>,
) -> bool {
    ||| exists|step: int|
        {
            &&& 0 <= step <= STEPS
            &&& c == mixed(color, target, step, STEPS as int)
            &&& judged(
                reaches,
                #[trigger] painted(color, target, step, surface, opacity),
                surface,
                true,
            )
            &&& fall_short(reaches, color, target, step, surface, opacity)
        }
    ||| c == target && fall_short(reaches, color, target, STEPS + 1, surface, opacity)
}

/// `color` darkened or lightened along its own hue, toward `target`, until
/// painted at `opacity` over `surface` it reaches the contrast `reaches` asks
/// for; as is if it already does.
pub fn readable<F: Fn(Rgb, Rgb) -> bool>(
    color: Rgb,
    target: Rgb,
    surface: Rgb,
    opacity: u32,
    reaches: &F,
) -> (c: Rgb)
    requires
        opacity <= 100,
        forall|c: Rgb, s: Rgb| #[trigger] reaches.requires((c, s)),
    ensures
        is_readable(*reaches, color@, target@, surface@, opacity as int, c@),
{
    let mut step: u32 = 0;
    while step <= STEPS
        invariant
            opacity <= 100,
            forall|c: Rgb, s: Rgb| #[trigger] reaches.requires((c, s)),
            step <= STEPS + 1,
            fall_short(*reaches, color@, target@, step as int, surface@, opacity as int),
        decreases STEPS + 1 - step,
    {
        let shade = mix(color, target, step, STEPS);
        let seen = over(shade, surface, opacity);
        let enough = (*reaches)(seen, surface);
        assert(seen@ == painted(color@, target@, step as int, surface@, opacity as int));
        assert(judged(*reaches, seen@, surface@, enough));
        if enough {
            return shade;
        }
        step += 1;
    }
    target
}

// --- the windows -------------------------------------------------------------

/// A palette's status colours for a window, readable where the window paints them.
#[derive(Debug, Clone, Copy, PartialEq, Eq)]
pub struct StatusColors {
    /// An ordinary reading's bar.
    pub normal: Rgb,
    pub charging: Rgb,
    /// Text and bar.
    pub low: Rgb,
    /// Text.
    pub warn: Rgb,
    pub track: Rgb,
}

/// Whether `c` is what becomes of `color` once it is made readable on one
/// surface after the other. Each surface comes with the colour to move toward.
pub open spec fn is_readable_on_all<F: Fn(Rgb, Rgb) -> bool>(
    reaches: F,
    color: Seq<u8>,
    surfaces: Seq<(Rgb, Rgb)>,
    c: Seq<u8>,
) -> bool
    decreases surfaces.len(),
{
    if surfaces.len() == 0 {
        c == color
    } else {
        let (surface, target) = surfaces.last();
        exists|before: Rgb|
            is_readable_on_all(reaches, color, surfaces.drop_last(), before@)
                && #[trigger] is_readable(reaches, before@, target@, surface@, 100, c)
    }
}

fn readable_on_all<F: Fn(Rgb, Rgb) -> bool>(
    color: Rgb,
    surfaces: &[(Rgb, Rgb)],
    reaches: &F,
) -> (c: Rgb)
    requires
        forall|c: Rgb, s: Rgb| #[trigger] reaches.requires((c, s)),
    ensures
        is_readable_on_all(*reaches, color@, surfaces@, c@),
{
    let mut c = color;
    let mut i: usize = 0;
    while i < surfaces.len()
        invariant
            forall|c: Rgb, s: Rgb| #[trigger] reaches.requires((c, s)),
            i <= surfaces@.len(),
            is_readable_on_all(*reaches, color@, surfaces@.take(i as int), c@),
        decreases surfaces@.len() - i,
    {
        let (surface, target) = surfaces[i];
        let ghost before = c;
        c = readable(c, target, surface, 100, reaches);
        proof {
            let some = surfaces@.take(i + 1);
            assert(some.drop_last() == surfaces@.take(i as int));
            assert(some.last() == surfaces@[i as int]);
            assert(is_readable(*reaches, before@, target@, surface@, 100, c@));
        }
        i += 1;
    }
    assert(surfaces@.take(i as int) == surfaces@);
    c
}

/// The status colours of a window. A text role reaches the contrast
/// `text_reaches` asks for on every surface text is painted on, one after the
/// other; a bar reaches that of `graphic_reaches` on the panel, dimmed included.
/// Each surface comes with the colour to move toward.
pub fn status_colors<T: Fn(Rgb, Rgb) -> bool, G: Fn(Rgb, Rgb) -> bool>(
    palette: Palette,
    scheme: ColorScheme,
    panel: Rgb,
    panel_target: Rgb,
    surfaces: &[(Rgb, Rgb)],
    text_reaches: T,
    graphic_reaches: G,
) -> (r: StatusColors)
    requires
        forall|c: Rgb, s: Rgb| #[trigger] text_reaches.requires((c, s)),
        forall|c: Rgb, s: Rgb| #[trigger] graphic_reaches.requires((c, s)),
    ensures
        ({
            let (bg, fg, charging, low, warn, track) = published(palette, scheme);
            let dim = DIM_PERCENT as int;
            &&& is_readable(
                graphic_reaches,
                channels(fg),
                panel_target@,
                panel@,
                dim,
                r.normal@,
            )
            &&& is_readable(
                graphic_reaches,
                channels(charging),
                panel_target@,
                panel@,
                dim,
                r.charging@,
            )
            &&& is_readable_on_all(text_reaches, channels(low), surfaces@, r.low@)
            &&& is_readable_on_all(text_reaches, channels(warn), surfaces@, r.warn@)
            &&& r.track@ == channels(track)
        }),
{
    let s = swatches(palette, scheme);
    let dim: u32 = DIM_PERCENT as u32;
    StatusColors {
        normal: readable(s.fg, panel_target, panel, dim, &graphic_reaches),
        charging: readable(s.charging, panel_target, panel, dim, &graphic_reaches),
        low: readable_on_all(s.low, surfaces, &text_reaches),
        warn: readable_on_all(s.warn, surfaces, &text_reaches),
        track: s.track,
    }
}

/// A colour stays as it is where it need not move, and ends at its target; on
/// the way no channel leaves the range between the two.
pub proof fn shades_lead_to_the_target(color: Seq<u8>, target: Seq<u8>, step: int, i: int)
    requires
        color.len() == 3,
        target.len() == 3,
        0 <= step <= STEPS,
        0 <= i < 3,
    ensures
        mixed(color, target, 0, STEPS as int) == color,
        mixed(color, target, STEPS as int, STEPS as int) == target,
        color[i] <= target[i] ==> color[i] <= mixed(color, target, step, STEPS as int)[i]
            <= target[i],
        target[i] <= color[i] ==> target[i] <= mixed(color, target, step, STEPS as int)[i]
            <= color[i],
{
    let whole = STEPS as int;
    assert forall|k: int, part: int| 0 <= k < 3 && 0 <= part <= whole implies ({
        let c = #[trigger] mixed_channel(color[k], target[k], part, whole);
        &&& color[k] <= target[k] ==> color[k] <= c <= target[k]
        &&& target[k] <= color[k] ==> target[k] <= c <= color[k]
        &&& part == 0 ==> c == color[k]
        &&& part == whole ==> c == target[k]
    }) by {
        channels_lie_between(color[k] as int, target[k] as int, part, whole);
    }
    assert(mixed(color, target, 0, whole) =~= color);
    assert(mixed(color, target, whole, whole) =~= target);
}

/// No two palettes share a background in either scheme.
pub proof fn palettes_differ(a: Palette, b: Palette, scheme: ColorScheme)
    requires
        a != b,
    ensures
        channels(published(a, scheme).0) != channels(published(b, scheme).0),
{
    let x = published(a, scheme).0;
    let y = published(b, scheme).0;
    assert(channels(x)[0] == ((x as int / 65536) % 256) as u8);
    assert(channels(y)[0] == ((y as int / 65536) % 256) as u8);
}

} // verus!
