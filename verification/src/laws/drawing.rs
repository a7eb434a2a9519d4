//! How icons are drawn: their digits, silhouettes, places, colours and pixels.

use crate::appearance::{self, Appearance, Change, ColorScheme};
use crate::domain::display::{DisplayMode, Palette};
use crate::domain::types::DeviceKind;
use crate::icon::cache::{self, Key};
use crate::icon::{self, Area, Bitmap, Mark, Picture, Role, Theme};
use crate::palette::{self, Rgb};
use vstd::prelude::*;

verus! {

// --- digits and silhouettes --------------------------------------------------

/// The digits drawn of a percentage make up its value, each a single one, and
/// none leads with a zero but nothing itself.
pub proof fn the_digits_make_up_the_value(value: u8)
    requires
        value <= 100,
    ensures
        ({
            let d = icon::digits(value);
            &&& 1 <= d.len() <= 3
            &&& forall|i: int| 0 <= i < d.len() ==> (#[trigger] d[i]) < 10
            &&& d.len() == 1 ==> value == d[0]
            &&& d.len() == 2 ==> value == 10 * d[0] + d[1]
            &&& d.len() == 3 ==> value == 100 * d[0] + 10 * d[1] + d[2]
            &&& d[0] == 0 ==> value == 0
        }),
{
}

/// A digit's row is drawn from the left: the first of its three columns is the
/// bit that counts four, the last the one that counts one.
pub proof fn digits_are_drawn_from_the_left(d: int, row: int)
    requires
        0 <= d < 10,
        0 <= row < 5,
    ensures
        ({
            let bits = icon::DIGITS@[d]@[row];
            &&& icon::digit_lights(d, 0, row) == (bits / 4 % 2 == 1)
            &&& icon::digit_lights(d, 1, row) == (bits / 2 % 2 == 1)
            &&& icon::digit_lights(d, 2, row) == (bits % 2 == 1)
        }),
{
    let bits = icon::DIGITS@[d]@[row];
    assert((bits & (0b100u8 >> 0u32) != 0) == (bits / 4 % 2 == 1)) by (bit_vector);
    assert((bits & (0b100u8 >> 1u32) != 0) == (bits / 2 % 2 == 1)) by (bit_vector);
    assert((bits & (0b100u8 >> 2u32) != 0) == (bits % 2 == 1)) by (bit_vector);
}

/// A silhouette's row is drawn from the left as well: its last column is the bit
/// that counts one, each further left the next higher.
pub proof fn silhouettes_are_drawn_from_the_left(b: Bitmap, row: int, col: int)
    requires
        b.cols <= 8,
        0 <= row < b.rows@.len(),
        0 <= col < b.cols,
    ensures
        b.lit(col, row) == ((b.rows@[row] >> ((b.cols - 1 - col) as u8)) % 2 == 1),
{
    let bits = b.rows@[row];
    let place = (b.cols - 1 - col) as u32;
    let small = (b.cols - 1 - col) as u8;
    assert((bits & (1u8 << place) != 0) == ((bits >> small) % 2 == 1)) by (bit_vector)
        requires
            place < 8,
            small == place,
    ;
}

// --- places ------------------------------------------------------------------

/// The kind's silhouette stands in the lower right corner, a third of the canvas
/// large, its margin away from both edges.
pub proof fn the_silhouette_stands_in_the_corner(size: int)
    requires
        16 <= size,
    ensures
        -3 <= 2 * (3 * icon::glyph_side(size) - size) <= 3 || icon::glyph_side(size) == 6,
        icon::glyph_at(size) + icon::glyph_side(size) == size - icon::margin_of(size),
        -22 <= 2 * (22 * icon::margin_of(size) - size) <= 22 || icon::margin_of(size) == 1,
{
    icon::the_glyph_stays_on_the_canvas(size);
}

/// The mark is in the middle from top to bottom where it stands in the battery,
/// in the lower left corner where only digits are drawn, and at the top of the
/// battery above its digits.
pub proof fn the_mark_has_its_place(size: int, mode: DisplayMode, mark: Mark, glyph: bool)
    requires
        20 <= size <= icon::LARGEST_MARKED_SIDE,
    ensures
        ({
            let area = icon::mark_box(size, mode, mark, glyph);
            &&& mode == DisplayMode::IconOnly ==> -1 <= 2 * area.y + area.h - size <= 1
            &&& mode == DisplayMode::PercentOnly ==> area.x == icon::margin_of(size) && area.y
                + area.h == size - icon::margin_of(size)
            &&& mode == DisplayMode::PercentInIcon ==> area.y == size / 20
        }),
{
    let area = icon::mark_box(size, mode, mark, glyph);
    let cell = icon::mark_cell(size, mode);
    assert(area.h == 7 * cell);
    if mode == DisplayMode::IconOnly {
        assert(7 * cell <= size);
        let free = size - 7 * cell;
        assert(icon::nearest(free, 2) == (2 * free + 2) / 4);
    }
}

// --- pixels ------------------------------------------------------------------

/// Every whole pixel keeps its colours and its alpha, which comes first.
pub proof fn every_pixel_is_kept(rgba: Seq<u8>, k: int)
    requires
        0 <= k,
        4 * k + 4 <= rgba.len(),
    ensures
        icon::argb(rgba).len() == rgba.len() - rgba.len() % 4,
        icon::argb(rgba)[4 * k] == rgba[4 * k + 3],
        icon::argb(rgba)[4 * k + 1] == rgba[4 * k],
        icon::argb(rgba)[4 * k + 2] == rgba[4 * k + 1],
        icon::argb(rgba)[4 * k + 3] == rgba[4 * k + 2],
{
}

// --- colours -----------------------------------------------------------------

/// Each role is drawn in the theme's colour for it.
pub proof fn every_role_has_its_colour(theme: Theme)
    ensures
        theme.role_color(Role::Normal) == theme.normal@,
        theme.role_color(Role::Low) == theme.low@,
        theme.role_color(Role::Charging) == theme.charging@,
        theme.role_color(Role::Offline) == theme.offline@,
{
}

/// A dimmed colour is the same colour at seventy percent of its opacity, to the
/// nearest.
pub proof fn a_dimmed_colour_is_fainter(c: Seq<u8>)
    requires
        c.len() == 4,
    ensures
        ({
            let d = icon::dimmed_color(c);
            &&& d.len() == 4
            &&& d[0] == c[0] && d[1] == c[1] && d[2] == c[2]
            &&& -50 <= 100 * d[3] - 70 * c[3] <= 50
        }),
{
}

/// A colour written in six hexadecimal digits has those as its channels.
pub proof fn a_colour_is_its_six_digits(hex: u32)
    requires
        hex < 0x100_0000,
    ensures
        ({
            let c = palette::channels(hex);
            &&& c.len() == 3
            &&& 65536 * c[0] + 256 * c[1] + c[2] == hex
        }),
{
}

/// A channel part of the way to another is the nearest whole number to that part
/// of it.
pub proof fn a_mixed_channel_is_the_nearest(from: u8, to: u8, part: int, whole: int)
    requires
        0 <= part <= whole,
        1 <= whole,
    ensures
        -whole <= 2 * (palette::mixed_channel(from, to, part, whole) * whole - (from * (whole - part)
            + to * part)) <= whole,
{
    let sum = from * (whole - part) + to * part;
    let r = (2 * sum + whole) / (2 * whole);
    assert(0 <= sum <= 255 * whole) by (nonlinear_arith)
        requires
            sum == from * (whole - part) + to * part,
            0 <= part <= whole,
            0 <= from <= 255,
            0 <= to <= 255,
    ;
    assert(r * (2 * whole) <= 2 * sum + whole < r * (2 * whole) + 2 * whole) by (nonlinear_arith)
        requires
            r == (2 * sum + whole) / (2 * whole),
            1 <= whole,
    ;
    assert(r * (2 * whole) == 2 * (r * whole)) by (nonlinear_arith);
    assert(0 <= r <= 255) by (nonlinear_arith)
        requires
            r == (2 * sum + whole) / (2 * whole),
            0 <= sum <= 255 * whole,
            1 <= whole,
    ;
    assert(palette::mixed_channel(from, to, part, whole) == r);
}

/// A colour that reads well as it is stays as it is.
pub proof fn a_readable_colour_is_left_alone<F: Fn(Rgb, Rgb) -> bool>(
    reaches: F,
    color: Seq<u8>,
    target: Seq<u8>,
    surface: Seq<u8>,
    opacity: int,
    c: Seq<u8>,
)
    requires
        color.len() == 3,
        target.len() == 3,
        palette::is_readable(reaches, color, target, surface, opacity, c),
        !palette::judged(
            reaches,
            palette::mixed(surface, color, opacity, 100),
            surface,
            false,
        ),
    ensures
        c == color,
{
    palette::shades_lead_to_the_target(color, target, 0, 0);
    assert(palette::painted(color, target, 0, surface, opacity) == palette::mixed(
        surface,
        color,
        opacity,
        100,
    ));
}

/// The colour that is chosen reads well, or it is the target itself.
pub proof fn a_chosen_colour_reads_well<F: Fn(Rgb, Rgb) -> bool>(
    reaches: F,
    color: Seq<u8>,
    target: Seq<u8>,
    surface: Seq<u8>,
    opacity: int,
    c: Seq<u8>,
)
    requires
        palette::is_readable(reaches, color, target, surface, opacity, c),
    ensures
        c == target || palette::judged(
            reaches,
            palette::mixed(surface, c, opacity, 100),
            surface,
            true,
        ),
{
}

/// The panel that icons are made readable on is dark or light as the session is,
/// and their colours go to the other end.
pub proof fn icons_stand_out_from_the_panel(scheme: ColorScheme, i: int)
    requires
        0 <= i < 3,
    ensures
        scheme == ColorScheme::Dark ==> icon::nominal_panel(scheme)[i] < 64
            && icon::away_from_panel(scheme)[i] == 255,
        scheme == ColorScheme::Light ==> icon::nominal_panel(scheme)[i] > 192
            && icon::away_from_panel(scheme)[i] == 0,
{
}

/// A change of the session's look is taken, and changes nothing else.
pub proof fn a_change_is_taken(a: Appearance, scheme: ColorScheme, bits: u32)
    ensures
        ({
            let b = appearance::changed_to(a, Change::Scheme(scheme));
            b.scheme == scheme && b.accent == a.accent && b.text_scale_bits == a.text_scale_bits
        }),
        ({
            let b = appearance::changed_to(a, Change::TextScale(bits));
            b.scheme == a.scheme && b.accent == a.accent && b.text_scale_bits == bits
        }),
        forall|accent| {
            let b = #[trigger] appearance::changed_to(a, Change::Accent(accent));
            b.scheme == a.scheme && b.accent == accent && b.text_scale_bits == a.text_scale_bits
        },
{
}

// --- the cache ---------------------------------------------------------------

/// What is held is found: the icons of the first entry of its key.
pub proof fn what_is_held_is_found(held: Seq<(Key, Seq<Picture>)>, i: int)
    requires
        0 <= i < held.len(),
        forall|k: int| 0 <= k < i ==> (#[trigger] held[k]).0 != held[i].0,
    ensures
        cache::held_icons(held, held[i].0) == held[i].1,
    decreases held.len(),
{
    if i > 0 {
        let rest = held.drop_first();
        assert(held[0].0 != held[i].0);
        assert(rest[i - 1] == held[i]);
        assert forall|k: int| 0 <= k < i - 1 implies (#[trigger] rest[k]).0 != rest[i - 1].0 by {
            assert(held[k + 1].0 != held[i].0);
        }
        what_is_held_is_found(rest, i - 1);
    }
}

/// What is wanted is kept, and nothing else.
pub proof fn what_is_wanted_is_kept(
    held: Seq<(Key, Seq<Picture>)>,
    flags: Seq<bool>,
    entry: (Key, Seq<Picture>),
)
    requires
        held.len() == flags.len(),
    ensures
        cache::kept(held, flags).contains(entry) <==> exists|i: int|
            0 <= i < held.len() && flags[i] && #[trigger] held[i] == entry,
{
    wanted_up_to(held, flags, entry);
}

proof fn wanted_up_to(
    held: Seq<(Key, Seq<Picture>)>,
    flags: Seq<bool>,
    entry: (Key, Seq<Picture>),
)
    requires
        held.len() <= flags.len(),
    ensures
        cache::kept(held, flags).contains(entry) <==> exists|i: int|
            0 <= i < held.len() && flags[i] && #[trigger] held[i] == entry,
    decreases held.len(),
{
    if held.len() > 0 {
        let earlier = held.drop_last();
        wanted_up_to(earlier, flags, entry);
        let before = cache::kept(earlier, flags);
        let all = cache::kept(held, flags);
        if all.contains(entry) {
            let k = all.index_of(entry);
            if k < before.len() {
                assert(before[k] == entry);
                let i = choose|i: int|
                    0 <= i < earlier.len() && flags[i] && #[trigger] earlier[i] == entry;
                assert(held[i] == entry);
            } else {
                assert(held[held.len() - 1] == entry);
            }
        }
        if exists|i: int| 0 <= i < held.len() && flags[i] && #[trigger] held[i] == entry {
            let i = choose|i: int| 0 <= i < held.len() && flags[i] && #[trigger] held[i] == entry;
            if i < earlier.len() {
                assert(earlier[i] == entry);
                assert(all[before.index_of(entry)] == entry);
            } else {
                assert(all[before.len() as int] == entry);
            }
        }
    }
}

/// Cells beside one another touch: each begins where the one before it ends, the
/// first where the box begins and the last where it ends, across and down.
pub proof fn cells_touch(b: Bitmap, area: Area, col: u32, row: u32)
    requires
        col < b.cols,
        row < b.rows@.len(),
        b.cols < u32::MAX,
        b.rows@.len() < u32::MAX,
        0 <= area.w,
        0 <= area.h,
        area.x + area.w <= i32::MAX,
        area.y + area.h <= i32::MAX,
    ensures
        ({
            let this = icon::cell_box(b, area, (col, row));
            let right = icon::cell_box(b, area, ((col + 1) as u32, row));
            let below = icon::cell_box(b, area, (col, (row + 1) as u32));
            &&& col == 0 ==> this.x == area.x
            &&& col + 1 < b.cols ==> this.x + this.w == right.x
            &&& col + 1 == b.cols ==> this.x + this.w == area.x + area.w
            &&& row == 0 ==> this.y == area.y
            &&& row + 1 < b.rows@.len() ==> this.y + this.h == below.y
            &&& row + 1 == b.rows@.len() ==> this.y + this.h == area.y + area.h
            &&& this.w >= 0 && this.h >= 0
        }),
{
    let n = b.cols as int;
    let m = b.rows@.len() as int;
    let x = area.x as int;
    let y = area.y as int;
    let w = area.w as int;
    let h = area.h as int;
    icon::cells_tile_their_box(x, w, n, col as int);
    icon::cells_tile_their_box(y, h, m, row as int);
    edges_stay_inside(x, w, n, col as int);
    edges_stay_inside(x, w, n, col + 1);
    edges_stay_inside(y, h, m, row as int);
    edges_stay_inside(y, h, m, row + 1);
    assert(w / n >= 0) by (nonlinear_arith)
        requires
            w >= 0,
            n >= 1,
    ;
    assert(h / m >= 0) by (nonlinear_arith)
        requires
            h >= 0,
            m >= 1,
    ;
}

proof fn edges_stay_inside(origin: int, span: int, n: int, i: int)
    requires
        0 <= span,
        1 <= n,
        0 <= i <= n,
    ensures
        origin <= icon::edge_at(origin, span, n, i) <= origin + span,
{
    let a = span * i;
    assert(0 <= a <= span * n) by (nonlinear_arith)
        requires
            a == span * i,
            0 <= span,
            0 <= i <= n,
    ;
    assert(0 <= (2 * a + n) / (2 * n) <= span) by (nonlinear_arith)
        requires
            0 <= a <= span * n,
            1 <= n,
            0 <= span,
    ;
}

/// A cell of the mark is as many whole pixels as fit into seven parts in a hundred
/// and ten of the canvas, or into a twenty-second beside digits. The mark is in the
/// middle of the battery from left to right, or between its left wall and the
/// silhouette.
pub proof fn the_mark_is_in_the_middle(size: int, mode: DisplayMode, mark: Mark, glyph: bool)
    requires
        22 <= size <= icon::LARGEST_MARKED_SIDE,
    ensures
        ({
            let area = icon::mark_box(size, mode, mark, glyph);
            let cell = area.h / 7;
            let twice = if mode == DisplayMode::IconOnly && glyph {
                10 * size + 100 * (icon::glyph_at(size) - 1)
            } else {
                88 * size
            };
            &&& area.h == 7 * cell
            &&& area.w == match mark {
                Mark::Bolt => 5 * cell,
                Mark::Warning => 7 * cell,
            }
            &&& mode == DisplayMode::IconOnly ==> 110 * cell <= 7 * size < 110 * (cell + 1)
            &&& mode != DisplayMode::IconOnly ==> 22 * cell <= size < 22 * (cell + 1)
            &&& mode != DisplayMode::PercentOnly ==> -100 <= 200 * area.x + 100 * area.w - twice
                <= 100
        }),
{
    let cell = icon::mark_cell(size, mode);
    let width = icon::mark_width(mark, cell);
    let off = icon::mark_centre(size, mode, glyph) - 100 * width;
    assert(icon::nearest(off, 200) == (2 * off + 200) / 400);
    assert(icon::nearest(-off, 200) == (-2 * off + 200) / 400);
}

/// A colour made readable on the panel is opaque, and is the palette's own where
/// that reads well there.
pub proof fn an_icon_colour_is_opaque<F: Fn(Rgb, Rgb) -> bool>(
    reaches: F,
    hex: u32,
    scheme: ColorScheme,
    opacity: int,
    c: Seq<u8>,
)
    requires
        icon::is_graphic(reaches, hex, scheme, opacity, c),
        !palette::judged(
            reaches,
            palette::mixed(
                icon::nominal_panel(scheme),
                palette::channels(hex),
                opacity,
                100,
            ),
            icon::nominal_panel(scheme),
            false,
        ),
    ensures
        c == palette::channels(hex).push(255),
{
    let rgb = choose|rgb: Seq<u8>|
        c == icon::opaque(rgb) && #[trigger] palette::is_readable(
            reaches,
            palette::channels(hex),
            icon::away_from_panel(scheme),
            icon::nominal_panel(scheme),
            opacity,
            rgb,
        );
    a_readable_colour_is_left_alone(
        reaches,
        palette::channels(hex),
        icon::away_from_panel(scheme),
        icon::nominal_panel(scheme),
        opacity,
        rgb,
    );
}

/// Every palette writes light on dark in the dark scheme and dark on light in the
/// light one, and its track lies between the two, in every channel.
pub proof fn palettes_follow_the_scheme(p: Palette, scheme: ColorScheme)
    ensures
        ({
            let all = palette::published(p, scheme);
            let bg = palette::channels(all.0);
            let fg = palette::channels(all.1);
            let track = palette::channels(all.5);
            &&& scheme == ColorScheme::Dark ==> bg[0] < track[0] < fg[0] && bg[1] < track[1] < fg[1]
                && bg[2] < track[2] < fg[2]
            &&& scheme == ColorScheme::Light ==> fg[0] < track[0] < bg[0] && fg[1] < track[1]
                < bg[1] && fg[2] < track[2] < bg[2]
        }),
{
}

/// In every palette what charges is greener than red, what is low redder than
/// green, and the warning lies in between: more red than blue and more green than
/// blue.
pub proof fn colours_mean_what_they_are(p: Palette, scheme: ColorScheme)
    ensures
        ({
            let all = palette::published(p, scheme);
            let charging = palette::channels(all.2);
            let low = palette::channels(all.3);
            let warn = palette::channels(all.4);
            &&& charging[1] > charging[0] && charging[1] > charging[2]
            &&& low[0] > low[1] && low[0] > low[2]
            &&& warn[0] > warn[2] && warn[1] > warn[2]
        }),
{
}

/// Each silhouette is seven rows high and is told by its outline: a mouse by the
/// gap between its two buttons, a keyboard by its wide rows of keys with nothing
/// above, a headset by its band above two cups, a controller by its two grips at
/// the bottom, and a battery by its contact on the right.
pub proof fn silhouettes_are_told_apart(kind: DeviceKind)
    ensures
        ({
            let rows = icon::glyph_rows(kind);
            &&& rows.len() == 7
            &&& (rows[0] == 0b0110110) == (kind == DeviceKind::Mouse)
            &&& (rows[2] == 0b1010101) == (kind == DeviceKind::Keyboard)
            &&& (rows[0] == 0b0011100 && rows[6] == 0b1100011) == (kind == DeviceKind::Headset)
            &&& (rows[6] == 0b1000001) == (kind == DeviceKind::Controller)
            &&& (rows[2] == 0b1110011) == (kind == DeviceKind::Other)
        }),
{
}

/// The bolt leans from the upper right to the lower left, five columns wide; the
/// warning is a triangle that ends in a full row of seven.
pub proof fn marks_have_their_shape(mark: Mark)
    ensures
        ({
            let (cols, rows) = icon::mark_rows(mark);
            &&& rows.len() == 7
            &&& mark == Mark::Bolt ==> cols == 5 && rows[0] == 0b00011 && rows[3] == 0b11111
                && rows[6] == 0b11000
            &&& mark == Mark::Warning ==> cols == 7 && rows[0] == 0b0001000 && rows[6] == 0b1111111
        }),
{
}

} // verus!
