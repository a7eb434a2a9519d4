//! The tray icon: what is drawn, in which order, in which colours, and on which
//! pixels the glyphs and marks fall.

pub mod cache;

use crate::appearance::ColorScheme;
use crate::domain::display::{DisplayMode, Palette};
use crate::domain::primary::PrimaryStatus;
use crate::domain::types::DeviceKind;
use crate::palette::{self, Rgb, DIM_PERCENT};
use crate::strings;
use vstd::prelude::*;

verus! {

/// The sizes an icon is published in, in pixels.
pub fn published_sizes() -> (sizes: Vec<u32>)
    ensures
        sizes@ == seq![22u32, 24, 32, 44, 64],
{
    vec![22u32, 24, 32, 44, 64]
}

// --- colours -----------------------------------------------------------------

/// Theme colors in RGBA format (straight alpha).
#[derive(Debug, Clone, Copy, PartialEq, Eq)]
pub struct Theme {
    pub normal: [u8; 4],
    pub low: [u8; 4],
    pub charging: [u8; 4],
    pub offline: [u8; 4],
}

/// Stands in for the host's panel, which cannot be seen, when contrast is
/// measured.
pub open spec fn nominal_panel(scheme: ColorScheme) -> Seq<u8> {
    match scheme {
        ColorScheme::Dark => seq![0x1eu8, 0x1e, 0x1e],
        ColorScheme::Light => seq![0xf0u8, 0xf0, 0xf0],
    }
}

/// White on the dark panel, black on the light one: what reads best there.
pub open spec fn away_from_panel(scheme: ColorScheme) -> Seq<u8> {
    match scheme {
        ColorScheme::Dark => seq![255u8, 255, 255],
        ColorScheme::Light => seq![0u8, 0, 0],
    }
}

/// An opaque colour.
pub open spec fn opaque(c: Seq<u8>) -> Seq<u8> {
    c.push(255)
}

/// A colour with its alpha dimmed, rounded to the nearest.
pub open spec fn dimmed_color(c: Seq<u8>) -> Seq<u8> {
    c.update(3, ((c[3] * DIM_PERCENT + 50) / 100) as u8)
}

fn opaque_of(c: Rgb) -> (r: [u8; 4])
    ensures
        r@ == opaque(c@),
{
    let r: [u8; 4] = [c[0], c[1], c[2], 255];
    assert(r@ =~= opaque(c@));
    r
}

/// A colour with its alpha dimmed.
pub fn dimmed(c: [u8; 4]) -> (r: [u8; 4])
    ensures
        r@ == dimmed_color(c@),
{
    let alpha: u32 = (c[3] as u32 * DIM_PERCENT as u32 + 50) / 100;
    let r: [u8; 4] = [c[0], c[1], c[2], alpha as u8];
    assert(r@ =~= dimmed_color(c@));
    r
}

/// Whether `c` is what becomes of a palette's colour, written `0xRRGGBB`, on
/// the nominal panel.
pub open spec fn is_graphic<F: Fn(Rgb, Rgb) -> bool>(
    reaches: F,
    hex: u32,
    scheme: ColorScheme,
    opacity: int,
    c: Seq<u8>,
) -> bool {
    exists|rgb: Seq<u8>|
        c == opaque(rgb) && #[trigger] palette::is_readable(
            reaches,
            palette::channels(hex),
            away_from_panel(scheme),
            nominal_panel(scheme),
            opacity,
            rgb,
        )
}

impl Theme {
    /// The palette's colours, each a graphical object of the contrast `reaches`
    /// asks for on the nominal panel; a colour that may be dimmed passes dimmed.
    /// Offline is the normal colour, dimmed.
    pub fn new<F: Fn(Rgb, Rgb) -> bool>(palette: Palette, scheme: ColorScheme, reaches: F) -> (t:
        Self)
        requires
            forall|c: Rgb, s: Rgb| #[trigger] reaches.requires((c, s)),
        ensures
            is_graphic(
                reaches,
                palette::published(palette, scheme).1,
                scheme,
                DIM_PERCENT as int,
                t.normal@,
            ),
            is_graphic(reaches, palette::published(palette, scheme).3, scheme, 100, t.low@),
            is_graphic(
                reaches,
                palette::published(palette, scheme).2,
                scheme,
                DIM_PERCENT as int,
                t.charging@,
            ),
            t.offline@ == dimmed_color(t.normal@),
    {
        let s = palette::swatches(palette, scheme);
        let (panel, target): (Rgb, Rgb) = match scheme {
            ColorScheme::Dark => ([0x1e, 0x1e, 0x1e], [255, 255, 255]),
            ColorScheme::Light => ([0xf0, 0xf0, 0xf0], [0, 0, 0]),
        };
        assert(panel@ =~= nominal_panel(scheme));
        assert(target@ =~= away_from_panel(scheme));
        let dim: u32 = DIM_PERCENT as u32;
        let fg = palette::readable(s.fg, target, panel, dim, &reaches);
        let low = palette::readable(s.low, target, panel, 100, &reaches);
        let charging = palette::readable(s.charging, target, panel, dim, &reaches);
        let normal = opaque_of(fg);
        Theme {
            normal,
            low: opaque_of(low),
            charging: opaque_of(charging),
            offline: dimmed(normal),
        }
    }
}

/// Which of a theme's colours something is drawn in.
#[derive(Debug, Clone, Copy, PartialEq, Eq, Structural)]
pub enum Role {
    Normal,
    Low,
    Charging,
    Offline,
}

impl Theme {
    /// The colour of a role.
    pub open spec fn role_color(self, role: Role) -> Seq<u8> {
        match role {
            Role::Normal => self.normal@,
            Role::Low => self.low@,
            Role::Charging => self.charging@,
            Role::Offline => self.offline@,
        }
    }

    /// The colour something is drawn in.
    pub fn ink(&self, role: Role, dim: bool) -> (c: [u8; 4])
        ensures
            c@ == if dim {
                dimmed_color(self.role_color(role))
            } else {
                self.role_color(role)
            },
    {
        let c = match role {
            Role::Normal => self.normal,
            Role::Low => self.low,
            Role::Charging => self.charging,
            Role::Offline => self.offline,
        };
        if dim {
            dimmed(c)
        } else {
            c
        }
    }
}

// --- layers ------------------------------------------------------------------

/// The shape that tells charging and low apart from an ordinary reading
/// without colour.
#[derive(Debug, Clone, Copy, PartialEq, Eq, Structural)]
pub enum Mark {
    Bolt,
    Warning,
}

/// One thing to draw. Later layers go over earlier ones.
#[derive(Debug, Clone, Copy, PartialEq, Eq, Structural)]
pub enum Layer {
    /// The bar inside the battery.
    Fill { percent: u8, role: Role, dim: bool },
    /// The battery's body. Dashed where the reading is not live.
    Outline { role: Role, dashed: bool },
    /// The battery's contact.
    Nub { role: Role },
    /// The line that crosses out an offline battery.
    Cross { role: Role },
    /// The status mark, on a halo cleared around it. `glyph` says whether it
    /// shares the icon with a kind glyph.
    StatusMark { mark: Mark, glyph: bool, role: Role },
    /// The device-kind silhouette in the corner, on a cleared box.
    KindGlyph { kind: DeviceKind, role: Role },
    /// The percentage, clear of the mark. Dotted where the reading is not live
    /// and there is no outline to say so.
    Digits { percent: u8, clear_of: Option<Mark>, dotted: bool, role: Role },
}

/// The colour of a status.
pub open spec fn role_of(status: PrimaryStatus) -> Role {
    match status {
        PrimaryStatus::Offline => Role::Offline,
        PrimaryStatus::Charging { .. } => Role::Charging,
        PrimaryStatus::Low { .. } => Role::Low,
        PrimaryStatus::Normal { .. } => Role::Normal,
    }
}

/// The mark of a status.
pub open spec fn mark_of(status: PrimaryStatus) -> Option<Mark> {
    match status {
        PrimaryStatus::Charging { .. } => Some(Mark::Bolt),
        PrimaryStatus::Low { .. } => Some(Mark::Warning),
        _ => None,
    }
}

/// The percentage of a status, nothing for offline.
pub open spec fn percent_of(status: PrimaryStatus) -> u8 {
    match status {
        PrimaryStatus::Offline => 0,
        PrimaryStatus::Charging { percent } => percent,
        PrimaryStatus::Low { percent } => percent,
        PrimaryStatus::Normal { percent } => percent,
    }
}

/// Whether a kind has a silhouette in the corner. `Other` is a battery, and so
/// is the icon.
pub open spec fn has_glyph(kind: Option<DeviceKind>) -> bool {
    kind is Some && kind->0 != DeviceKind::Other
}

/// The kind glyph, if there is one.
pub open spec fn glyph_layers(kind: Option<DeviceKind>, role: Role) -> Seq<Layer> {
    if has_glyph(kind) {
        seq![Layer::KindGlyph { kind: kind->0, role }]
    } else {
        Seq::empty()
    }
}

/// The status mark, if there is one.
pub open spec fn mark_layers(mark: Option<Mark>, glyph: bool, role: Role) -> Seq<Layer> {
    match mark {
        Some(m) => seq![Layer::StatusMark { mark: m, glyph, role }],
        None => Seq::empty(),
    }
}

/// Whether a reading is drawn as one that is not live. A low reading never is:
/// it must not get quieter.
pub open spec fn is_retained(status: PrimaryStatus, stale: bool) -> bool {
    stale && !(status is Low)
}

/// What an icon shows, in drawing order.
pub open spec fn layers(
    status: PrimaryStatus,
    kind: Option<DeviceKind>,
    mode: DisplayMode,
    stale: bool,
) -> Seq<Layer> {
    let role = role_of(status);
    let mark = mark_of(status);
    let retained = is_retained(status, stale);
    let glyph = glyph_layers(kind, role);
    let marks = mark_layers(mark, has_glyph(kind), role);
    if status is Offline {
        seq![Layer::Outline { role, dashed: false }, Layer::Nub { role }, Layer::Cross { role }]
            + glyph
    } else {
        match mode {
            DisplayMode::IconOnly => seq![
                Layer::Fill { percent: percent_of(status), role, dim: retained },
                Layer::Outline { role, dashed: retained },
                Layer::Nub { role },
            ] + marks + glyph,
            DisplayMode::PercentOnly => glyph + marks + seq![
                Layer::Digits { percent: percent_of(status), clear_of: mark, dotted: retained, role },
            ],
            DisplayMode::PercentInIcon => seq![
                Layer::Outline { role, dashed: retained },
                Layer::Nub { role },
            ] + glyph + marks + seq![
                Layer::Digits { percent: percent_of(status), clear_of: mark, dotted: false, role },
            ],
        }
    }
}

/// Whether a kind has a silhouette in the corner.
pub fn has_kind_glyph(kind: Option<DeviceKind>) -> (r: bool)
    ensures
        r == has_glyph(kind),
{
    match kind {
        Some(k) => k != DeviceKind::Other,
        None => false,
    }
}

fn push_glyph(list: &mut Vec<Layer>, kind: Option<DeviceKind>, role: Role)
    ensures
        final(list)@ == old(list)@ + glyph_layers(kind, role),
{
    match kind {
        Some(k) => if k != DeviceKind::Other {
            list.push(Layer::KindGlyph { kind: k, role });
        },
        None => {},
    }
    assert(list@ =~= old(list)@ + glyph_layers(kind, role));
}

fn push_mark(list: &mut Vec<Layer>, mark: Option<Mark>, glyph: bool, role: Role)
    ensures
        final(list)@ == old(list)@ + mark_layers(mark, glyph, role),
{
    match mark {
        Some(m) => list.push(Layer::StatusMark { mark: m, glyph, role }),
        None => {},
    }
    assert(list@ =~= old(list)@ + mark_layers(mark, glyph, role));
}

/// What an icon shows, in drawing order.
///
/// Offline draws the crossed battery in every mode. In the percent modes the
/// glyph goes on before the digits: its first step clears a ring around
/// itself, and the centred digit block reaches into the same corner. Digits
/// carry the reading and the glyph only identifies the device, so where they
/// collide the digits win.
pub fn plan(status: PrimaryStatus, kind: Option<DeviceKind>, mode: DisplayMode, stale: bool) -> (r:
    Vec<Layer>)
    ensures
        r@ == layers(status, kind, mode, stale),
{
    let mut r: Vec<Layer> = Vec::new();
    let (role, mark, percent): (Role, Option<Mark>, u8) = match status {
        PrimaryStatus::Offline => {
            r.push(Layer::Outline { role: Role::Offline, dashed: false });
            r.push(Layer::Nub { role: Role::Offline });
            r.push(Layer::Cross { role: Role::Offline });
            push_glyph(&mut r, kind, Role::Offline);
            assert(r@ =~= layers(status, kind, mode, stale));
            return r;
        },
        PrimaryStatus::Charging { percent } => (Role::Charging, Some(Mark::Bolt), percent),
        PrimaryStatus::Low { percent } => (Role::Low, Some(Mark::Warning), percent),
        PrimaryStatus::Normal { percent } => (Role::Normal, None, percent),
    };
    let low = match status {
        PrimaryStatus::Low { .. } => true,
        _ => false,
    };
    let retained = stale && !low;
    let glyph = has_kind_glyph(kind);
    match mode {
        DisplayMode::IconOnly => {
            r.push(Layer::Fill { percent, role, dim: retained });
            r.push(Layer::Outline { role, dashed: retained });
            r.push(Layer::Nub { role });
            push_mark(&mut r, mark, glyph, role);
            push_glyph(&mut r, kind, role);
        },
        DisplayMode::PercentOnly | DisplayMode::PercentInIcon => {
            let outline = mode == DisplayMode::PercentInIcon;
            if outline {
                r.push(Layer::Outline { role, dashed: retained });
                r.push(Layer::Nub { role });
            }
            push_glyph(&mut r, kind, role);
            push_mark(&mut r, mark, glyph, role);
            r.push(Layer::Digits { percent, clear_of: mark, dotted: retained && !outline, role });
        },
    }
    assert(r@ =~= layers(status, kind, mode, stale));
    r
}

// --- bitmaps -----------------------------------------------------------------

/// A one-colour pixel drawing: bit `cols - 1 - c` of `rows[r]` lights cell `(c, r)`.
#[derive(Debug, Clone, Copy, PartialEq, Eq)]
pub struct Bitmap {
    pub cols: u32,
    pub rows: &'static [u8],
}

impl Bitmap {
    /// Whether the drawing fits its rows, one bit per column, and each of them
    /// has a number.
    pub open spec fn fits(self) -> bool {
        &&& self.rows@.len() > 0 ==> self.cols <= 8
        &&& self.rows@.len() <= u32::MAX
    }

    /// Whether a cell is lit. None outside the drawing is.
    pub open spec fn lit(self, col: int, row: int) -> bool {
        &&& 0 <= col < self.cols
        &&& 0 <= row < self.rows@.len()
        &&& (self.rows@[row] & (1u8 << ((self.cols - 1 - col) as u32))) != 0
    }

    /// The lit cells of one row left of a column.
    pub open spec fn lit_in_row(self, row: int, cols: int) -> Seq<(u32, u32)>
        decreases cols,
    {
        if cols <= 0 {
            Seq::empty()
        } else {
            let before = self.lit_in_row(row, cols - 1);
            if self.lit(cols - 1, row) {
                before.push(((cols - 1) as u32, row as u32))
            } else {
                before
            }
        }
    }

    /// The lit cells above a row.
    pub open spec fn lit_above(self, row: int) -> Seq<(u32, u32)>
        decreases row,
    {
        if row <= 0 {
            Seq::empty()
        } else {
            self.lit_above(row - 1) + self.lit_in_row(row - 1, self.cols as int)
        }
    }

    /// Whether these are exactly the lit cells, each once, by row and then by column.
    pub open spec fn lists_lit(self, cells: Seq<(u32, u32)>) -> bool {
        &&& forall|k: int|
            0 <= k < cells.len() ==> self.lit(
                (#[trigger] cells[k]).0 as int,
                cells[k].1 as int,
            )
        &&& forall|col: u32, row: u32|
            self.lit(col as int, row as int) ==> #[trigger] cells.contains((col, row))
        &&& forall|i: int, j: int|
            0 <= i < j < cells.len() ==> comes_before(#[trigger] cells[i], #[trigger] cells[j])
    }

    pub fn row_count(self) -> (n: u32)
        requires
            self.rows@.len() <= u32::MAX,
        ensures
            n == self.rows@.len(),
    {
        self.rows.len() as u32
    }

    /// Whether a cell is lit.
    pub fn is_set(self, col: u32, row: u32) -> (r: bool)
        requires
            col < self.cols && row < self.rows@.len() ==> self.cols - col <= 8,
        ensures
            r == self.lit(col as int, row as int),
    {
        if col >= self.cols || row as usize >= self.rows.len() {
            return false;
        }
        let bits: u8 = self.rows[row as usize];
        let shift: u32 = self.cols - 1 - col;
        (bits & (1u8 << shift)) != 0
    }

    /// Lit cells as `(col, row)`, row by row.
    pub fn cells(self) -> (r: Vec<(u32, u32)>)
        requires
            self.fits(),
        ensures
            r@ == self.lit_above(self.rows@.len() as int),
            self.lists_lit(r@),
    {
        let mut r: Vec<(u32, u32)> = Vec::new();
        let mut row: u32 = 0;
        while row < self.row_count()
            invariant
                self.fits(),
                row <= self.rows@.len(),
                r@ == self.lit_above(row as int),
            decreases self.rows@.len() - row,
        {
            let ghost before = r@;
            let mut col: u32 = 0;
            assert(before + self.lit_in_row(row as int, 0) =~= before);
            while col < self.cols
                invariant
                    self.fits(),
                    row < self.rows@.len(),
                    col <= self.cols,
                    r@ == before + self.lit_in_row(row as int, col as int),
                decreases self.cols - col,
            {
                if self.is_set(col, row) {
                    r.push((col, row));
                }
                assert(r@ =~= before + self.lit_in_row(row as int, col + 1));
                col += 1;
            }
            row += 1;
        }
        proof {
            the_lit_cells_are_listed(self);
        }
        r
    }
}

/// Whether a cell comes before another: in a row above, or further left in the same.
pub open spec fn comes_before(a: (u32, u32), b: (u32, u32)) -> bool {
    a.1 < b.1 || (a.1 == b.1 && a.0 < b.0)
}

proof fn row_lists_its_lit_cells(b: Bitmap, row: int, cols: int)
    requires
        0 <= row < b.rows@.len() <= u32::MAX,
        0 <= cols <= b.cols,
    ensures
        ({
            let all = b.lit_in_row(row, cols);
            &&& forall|k: int|
                0 <= k < all.len() ==> (#[trigger] all[k]).1 == row && all[k].0 < cols && b.lit(
                    all[k].0 as int,
                    row,
                )
            &&& forall|col: u32|
                col < cols && b.lit(col as int, row) ==> #[trigger] all.contains((col, row as u32))
            &&& forall|i: int, j: int|
                0 <= i < j < all.len() ==> comes_before(#[trigger] all[i], #[trigger] all[j])
        }),
    decreases cols,
{
    if cols > 0 {
        row_lists_its_lit_cells(b, row, cols - 1);
        let before = b.lit_in_row(row, cols - 1);
        let all = b.lit_in_row(row, cols);
        assert forall|col: u32| col < cols && b.lit(
            col as int,
            row,
        ) implies #[trigger] all.contains((col, row as u32)) by {
            if col < cols - 1 {
                assert(before.contains((col, row as u32)));
                let k = before.index_of((col, row as u32));
                assert(all[k] == before[k]);
            } else {
                assert(all[before.len() as int] == (col, row as u32));
            }
        }
        assert forall|i: int, j: int| 0 <= i < j < all.len() implies comes_before(
            #[trigger] all[i],
            #[trigger] all[j],
        ) by {
            assert(all[i] == before[i]);
            if j < before.len() {
                assert(all[j] == before[j]);
            }
        }
    }
}

proof fn rows_list_their_lit_cells(b: Bitmap, row: int)
    requires
        0 <= row <= b.rows@.len() <= u32::MAX,
    ensures
        ({
            let all = b.lit_above(row);
            &&& forall|k: int|
                0 <= k < all.len() ==> (#[trigger] all[k]).1 < row && b.lit(
                    all[k].0 as int,
                    all[k].1 as int,
                )
            &&& forall|c: u32, r: u32|
                r < row && b.lit(c as int, r as int) ==> #[trigger] all.contains((c, r))
            &&& forall|i: int, j: int|
                0 <= i < j < all.len() ==> comes_before(#[trigger] all[i], #[trigger] all[j])
        }),
    decreases row,
{
    if row > 0 {
        rows_list_their_lit_cells(b, row - 1);
        row_lists_its_lit_cells(b, row - 1, b.cols as int);
        let before = b.lit_above(row - 1);
        let last = b.lit_in_row(row - 1, b.cols as int);
        let all = b.lit_above(row);
        assert forall|k: int| 0 <= k < all.len() implies all[k] == if k < before.len() {
            before[k]
        } else {
            last[k - before.len()]
        } by {}
        assert forall|c: u32, r: u32| r < row && b.lit(
            c as int,
            r as int,
        ) implies #[trigger] all.contains((c, r)) by {
            if r < row - 1 {
                assert(before.contains((c, r)));
                let k = before.index_of((c, r));
                assert(all[k] == (c, r));
            } else {
                assert(last.contains((c, (row - 1) as u32)));
                let k = last.index_of((c, r));
                assert(all[before.len() + k] == (c, r));
            }
        }
    }
}

/// The cells of a drawing are exactly the lit ones, each once, by row and then by
/// column.
pub proof fn the_lit_cells_are_listed(b: Bitmap)
    requires
        b.rows@.len() <= u32::MAX,
    ensures
        b.lists_lit(b.lit_above(b.rows@.len() as int)),
{
    rows_list_their_lit_cells(b, b.rows@.len() as int);
}

/// The rows of a kind's silhouette.
pub open spec fn glyph_rows(kind: DeviceKind) -> Seq<u8> {
    match kind {
        DeviceKind::Mouse => seq![
            0b0110110u8,
            0b0110110,
            0b0111110,
            0b0111110,
            0b0111110,
            0b0111110,
            0b0011100,
        ],
        DeviceKind::Keyboard => seq![
            0b0000000u8,
            0b1111111,
            0b1010101,
            0b1111111,
            0b1100011,
            0b1111111,
            0b0000000,
        ],
        DeviceKind::Headset => seq![
            0b0011100u8,
            0b0100010,
            0b1000001,
            0b1000001,
            0b1100011,
            0b1100011,
            0b1100011,
        ],
        DeviceKind::Controller => seq![
            0b0000000u8,
            0b0111110,
            0b1111111,
            0b1011101,
            0b1111111,
            0b1100011,
            0b1000001,
        ],
        DeviceKind::Other => seq![
            0b0000000u8,
            0b1111110,
            0b1110011,
            0b1110011,
            0b1110011,
            0b1111110,
            0b0000000,
        ],
    }
}

/// The device-kind silhouette, drawn by the tray icon's corner and by both
/// windows. `Other` is a battery; the tray icon, itself a battery, skips it.
pub fn kind_glyph(kind: DeviceKind) -> (b: Bitmap)
    ensures
        b.cols == 7,
        b.rows@ == glyph_rows(kind),
        b.fits(),
{
    let rows: &'static [u8] = match kind {
        DeviceKind::Mouse => &[
            0b0110110,
            0b0110110,
            0b0111110,
            0b0111110,
            0b0111110,
            0b0111110,
            0b0011100,
        ],
        DeviceKind::Keyboard => &[
            0b0000000,
            0b1111111,
            0b1010101,
            0b1111111,
            0b1100011,
            0b1111111,
            0b0000000,
        ],
        DeviceKind::Headset => &[
            0b0011100,
            0b0100010,
            0b1000001,
            0b1000001,
            0b1100011,
            0b1100011,
            0b1100011,
        ],
        DeviceKind::Controller => &[
            0b0000000,
            0b0111110,
            0b1111111,
            0b1011101,
            0b1111111,
            0b1100011,
            0b1000001,
        ],
        DeviceKind::Other => &[
            0b0000000,
            0b1111110,
            0b1110011,
            0b1110011,
            0b1110011,
            0b1111110,
            0b0000000,
        ],
    };
    assert(rows@ =~= glyph_rows(kind));
    Bitmap { cols: 7, rows }
}

/// The columns and rows of a mark.
pub open spec fn mark_rows(mark: Mark) -> (u32, Seq<u8>) {
    match mark {
        Mark::Bolt => (
            5,
            seq![0b00011u8, 0b00110, 0b01100, 0b11111, 0b00110, 0b01100, 0b11000],
        ),
        Mark::Warning => (
            7,
            seq![
                0b0001000u8,
                0b0011100,
                0b0010100,
                0b0110110,
                0b0111110,
                0b1110111,
                0b1111111,
            ],
        ),
    }
}

/// The drawing of a mark.
pub fn mark_bitmap(mark: Mark) -> (b: Bitmap)
    ensures
        (b.cols, b.rows@) == mark_rows(mark),
        b.fits(),
{
    let cols: u32 = match mark {
        Mark::Bolt => 5,
        Mark::Warning => 7,
    };
    let rows: &'static [u8] = match mark {
        Mark::Bolt => &[0b00011, 0b00110, 0b01100, 0b11111, 0b00110, 0b01100, 0b11000],
        Mark::Warning => &[
            0b0001000,
            0b0011100,
            0b0010100,
            0b0110110,
            0b0111110,
            0b1110111,
            0b1111111,
        ],
    };
    assert(rows@ =~= mark_rows(mark).1);
    Bitmap { cols, rows }
}

/// The drawing of a status's mark, if it has one.
pub fn status_mark(status: PrimaryStatus) -> (b: Option<Bitmap>)
    ensures
        (match b {
            Some(bitmap) => Some((bitmap.cols, bitmap.rows@)),
            None => None,
        }) == match mark_of(status) {
            Some(mark) => Some(mark_rows(mark)),
            None => None,
        },
{
    match status {
        PrimaryStatus::Charging { .. } => Some(mark_bitmap(Mark::Bolt)),
        PrimaryStatus::Low { .. } => Some(mark_bitmap(Mark::Warning)),
        PrimaryStatus::Normal { .. } | PrimaryStatus::Offline => None,
    }
}

// --- whole pixels ------------------------------------------------------------

/// The largest canvas side whose glyph falls on exact pixels.
pub const LARGEST_GLYPH_SIDE: u32 = 0xc0_0000;

/// The largest canvas side up to which every side is told apart from the next.
pub const LARGEST_SIDE: u32 = 0x100_0000;

/// The most a side times its number of parts can be for the parts to end on
/// exact pixels.
pub const LARGEST_SPREAD: i32 = 0x80_0000;

/// A whole-pixel box.
#[derive(Debug, Clone, Copy, PartialEq, Eq, Structural)]
pub struct Area {
    pub x: i32,
    pub y: i32,
    pub w: i32,
    pub h: i32,
}

impl Area {
    pub fn bottom(self) -> (r: i32)
        requires
            i32::MIN <= self.y + self.h <= i32::MAX,
        ensures
            r == self.y + self.h,
    {
        self.y + self.h
    }

    /// The box with a ring of `by` pixels around it.
    pub fn grown(self, by: i32) -> (r: Self)
        requires
            i32::MIN <= self.x - by <= i32::MAX,
            i32::MIN <= self.y - by <= i32::MAX,
            i32::MIN <= self.w + 2 * by <= i32::MAX,
            i32::MIN <= self.h + 2 * by <= i32::MAX,
        ensures
            r == (Area {
                x: (self.x - by) as i32,
                y: (self.y - by) as i32,
                w: (self.w + 2 * by) as i32,
                h: (self.h + 2 * by) as i32,
            }),
    {
        Self { x: self.x - by, y: self.y - by, w: self.w + by + by, h: self.h + by + by }
    }
}

/// `a / b` rounded to the nearest whole number, a half up.
pub open spec fn nearest(a: int, b: int) -> int {
    (2 * a + b) / (2 * b)
}

/// Where edge `i` of `n` equal parts of a span falls.
pub open spec fn edge_at(origin: int, span: int, n: int, i: int) -> int {
    origin + half_away(span * i, n)
}

/// Whether a span can be cut into `n` parts that end on pixels there are.
pub open spec fn can_be_cut(origin: int, span: int, n: int) -> bool {
    &&& -LARGEST_SPREAD <= span * n <= LARGEST_SPREAD
    &&& i32::MIN <= origin + span <= i32::MAX
}

/// Whether a box can be stretched over by a drawing, if that has any cells.
pub open spec fn is_stretchable(cols: int, rows: int, area: Area) -> bool {
    cols == 0 || rows == 0 || {
        &&& can_be_cut(area.x as int, area.w as int, cols)
        &&& can_be_cut(area.y as int, area.h as int, rows)
    }
}

/// The box of one cell of a bitmap stretched over an area.
pub open spec fn cell_box(b: Bitmap, area: Area, cell: (u32, u32)) -> Area {
    let x0 = edge_at(area.x as int, area.w as int, b.cols as int, cell.0 as int);
    let x1 = edge_at(area.x as int, area.w as int, b.cols as int, cell.0 + 1);
    let y0 = edge_at(area.y as int, area.h as int, b.rows@.len() as int, cell.1 as int);
    let y1 = edge_at(area.y as int, area.h as int, b.rows@.len() as int, cell.1 + 1);
    Area { x: x0 as i32, y: y0 as i32, w: (x1 - x0) as i32, h: (y1 - y0) as i32 }
}

proof fn edges_are_bounded(span: int, n: int, i: int)
    requires
        0 <= span,
        1 <= n,
        0 <= i <= n,
    ensures
        0 <= nearest(span * i, n) <= span,
{
    assert(0 <= span * i <= span * n) by (nonlinear_arith)
        requires
            0 <= span,
            0 <= i <= n,
    ;
    let a = span * i;
    assert(0 <= (2 * a + n) / (2 * n)) by (nonlinear_arith)
        requires
            0 <= a,
            1 <= n,
    ;
    assert((2 * a + n) / (2 * n) <= span) by (nonlinear_arith)
        requires
            a <= span * n,
            1 <= n,
            0 <= span,
    ;
}

proof fn edges_step_evenly(span: int, n: int, i: int)
    requires
        0 <= span,
        1 <= n,
        0 <= i < n,
    ensures
        span / n <= nearest(span * (i + 1), n) - nearest(span * i, n) <= span / n + 1,
{
    let a = span * i;
    let q = span / n;
    let p = (2 * a + n) / (2 * n);
    let r = (2 * (a + span) + n) / (2 * n);
    assert(span * (i + 1) == a + span) by (nonlinear_arith)
        requires
            a == span * i,
    ;
    assert(q * n <= span < q * n + n) by (nonlinear_arith)
        requires
            q == span / n,
            1 <= n,
    ;
    assert(p * (2 * n) <= 2 * a + n < p * (2 * n) + 2 * n) by (nonlinear_arith)
        requires
            p == (2 * a + n) / (2 * n),
            1 <= n,
    ;
    assert(r * (2 * n) <= 2 * (a + span) + n < r * (2 * n) + 2 * n) by (nonlinear_arith)
        requires
            r == (2 * (a + span) + n) / (2 * n),
            1 <= n,
    ;
    assert(q <= r - p <= q + 1) by (nonlinear_arith)
        requires
            q * n <= span < q * n + n,
            p * (2 * n) <= 2 * a + n < p * (2 * n) + 2 * n,
            r * (2 * n) <= 2 * (a + span) + n < r * (2 * n) + 2 * n,
            1 <= n,
    ;
}

fn edge(origin: i32, span: i32, n: u32, i: u32) -> (r: i32)
    requires
        1 <= n,
        i <= n,
        can_be_cut(origin as int, span as int, n as int),
    ensures
        r == edge_at(origin as int, span as int, n as int, i as int),
        -LARGEST_SPREAD <= r - origin <= LARGEST_SPREAD,
        0 <= span ==> 0 <= r - origin <= span,
        span <= 0 ==> span <= r - origin <= 0,
{
    proof {
        let size = if span >= 0 {
            span as int
        } else {
            -span
        };
        edges_are_bounded(size, n as int, i as int);
        assert(0 <= size * i <= size * n) by (nonlinear_arith)
            requires
                0 <= size,
                0 <= i <= n,
        ;
        assert(size <= size * n) by (nonlinear_arith)
            requires
                0 <= size,
                1 <= n,
        ;
        assert((-size) * n == -(size * n) && (-size) * i == -(size * i)) by (nonlinear_arith);
        assert(span * i == if span >= 0 {
            size * i
        } else {
            -(size * i)
        });
        if size * i == 0 {
            assert(n as int / (2 * n) == 0) by (nonlinear_arith)
                requires
                    1 <= n,
            ;
        }
    }
    let scaled: i64 = span as i64 * i as i64;
    let rounded: i64 = if scaled >= 0 {
        (2 * scaled + n as i64) / (2 * n as i64)
    } else {
        -((n as i64 - 2 * scaled) / (2 * n as i64))
    };
    assert(rounded == half_away(span * i, n as int));
    (origin as i64 + rounded) as i32
}

/// Each lit cell of `bitmap` stretched over `area`; cell edges round to whole
/// pixels, so cells differ by at most one pixel and never leave a seam.
pub fn cell_areas(bitmap: Bitmap, area: Area) -> (r: Vec<Area>)
    requires
        bitmap.fits(),
        is_stretchable(bitmap.cols as int, bitmap.rows@.len() as int, area),
    ensures
        r@ == bitmap.lit_above(bitmap.rows@.len() as int).map_values(
            |cell: (u32, u32)| cell_box(bitmap, area, cell),
        ),
{
    let cells = bitmap.cells();
    let ghost all = cells@;
    let mut r: Vec<Area> = Vec::new();
    let mut i: usize = 0;
    while i < cells.len()
        invariant
            bitmap.fits(),
            is_stretchable(bitmap.cols as int, bitmap.rows@.len() as int, area),
            all == cells@,
            bitmap.lists_lit(all),
            i <= cells@.len(),
            r@.len() == i,
            forall|k: int| 0 <= k < i ==> #[trigger] r@[k] == cell_box(bitmap, area, all[k]),
        decreases cells@.len() - i,
    {
        let (col, row): (u32, u32) = cells[i];
        assert(bitmap.lit(all[i as int].0 as int, all[i as int].1 as int));
        let n: u32 = bitmap.row_count();
        let x0: i32 = edge(area.x, area.w, bitmap.cols, col);
        let x1: i32 = edge(area.x, area.w, bitmap.cols, col + 1);
        let y0: i32 = edge(area.y, area.h, n, row);
        let y1: i32 = edge(area.y, area.h, n, row + 1);
        r.push(Area { x: x0, y: y0, w: x1 - x0, h: y1 - y0 });
        i += 1;
    }
    assert(r@ =~= all.map_values(|cell: (u32, u32)| cell_box(bitmap, area, cell)));
    r
}

/// The margin around the kind glyph.
pub open spec fn margin_of(size: int) -> int {
    if nearest(size, 22) >= 1 {
        nearest(size, 22)
    } else {
        1
    }
}

/// The side of the kind glyph's box.
pub open spec fn glyph_side(size: int) -> int {
    if nearest(size, 3) >= 6 {
        nearest(size, 3)
    } else {
        6
    }
}

/// Where the kind glyph's box begins, from the left and from the top.
pub open spec fn glyph_at(size: int) -> int {
    if size - glyph_side(size) - margin_of(size) >= 0 {
        size - glyph_side(size) - margin_of(size)
    } else {
        0
    }
}

/// Canvas width for a given icon height. Tray hosts fit the icon into a roughly
/// square slot, so a wider pixmap does not gain width — it only shrinks.
pub fn wide_width(height: u32) -> (w: u32)
    requires
        height <= LARGEST_SIDE,
    ensures
        w == height,
{
    height
}

/// The margin around the kind glyph.
pub fn kind_glyph_margin(size: u32) -> (r: i32)
    requires
        size <= LARGEST_SIDE,
    ensures
        r == margin_of(size as int),
        1 <= r <= 0xc_0000,
{
    let rounded: u32 = (2 * size + 22) / 44;
    if rounded >= 1 {
        rounded as i32
    } else {
        1
    }
}

/// The bottom-right box of the kind glyph.
pub fn kind_glyph_area(size: u32) -> (r: Area)
    requires
        size <= LARGEST_GLYPH_SIDE,
    ensures
        r == (Area {
            x: glyph_at(size as int) as i32,
            y: glyph_at(size as int) as i32,
            w: glyph_side(size as int) as i32,
            h: glyph_side(size as int) as i32,
        }),
{
    let third: u32 = (2 * size + 3) / 6;
    let side: i32 = if third >= 6 {
        third as i32
    } else {
        6
    };
    let free: i32 = size as i32 - side - kind_glyph_margin(size);
    let at: i32 = if free >= 0 {
        free
    } else {
        0
    };
    Area { x: at, y: at, w: side, h: side }
}

/// The clear halo around a status mark, and its gap to the digits.
pub fn mark_ring(size: u32) -> (r: i32)
    requires
        size <= i32::MAX,
    ensures
        r == if size / 32 >= 1 {
            size / 32
        } else {
            1
        },
{
    let ring: u32 = size / 32;
    if ring >= 1 {
        ring as i32
    } else {
        1
    }
}

// --- where the mark goes -----------------------------------------------------

/// The largest canvas side whose mark falls on exact pixels.
pub const LARGEST_MARKED_SIDE: u32 = 0x8_0000;

/// `a / b` rounded to the nearest whole number, a half away from zero.
pub open spec fn half_away(a: int, b: int) -> int {
    if a >= 0 {
        nearest(a, b)
    } else {
        -nearest(-a, b)
    }
}

fn round_half_away(a: i64, b: i64) -> (r: i64)
    requires
        -0x800_0000 <= a <= 0x800_0000,
        1 <= b <= 200,
    ensures
        r == half_away(a as int, b as int),
        -0x1000_0000 <= r <= 0x1000_0000,
{
    proof {
        quotients_shrink(2 * a + b, 2 * b);
        quotients_shrink(b - 2 * a, 2 * b);
    }
    if a >= 0 {
        (2 * a + b) / (2 * b)
    } else {
        -((b - 2 * a) / (2 * b))
    }
}

proof fn quotients_shrink(a: int, b: int)
    requires
        b >= 2,
    ensures
        a >= 0 ==> 0 <= a / b && 2 * (a / b) <= a,
{
    if a >= 0 {
        let q = a / b;
        assert(0 <= q && q * b <= a) by (nonlinear_arith)
            requires
                q == a / b,
                a >= 0,
                b >= 2,
        ;
        assert(2 * q <= q * b) by (nonlinear_arith)
            requires
                0 <= q,
                b >= 2,
        ;
    }
}

/// Where the battery's body begins, in hundredths of a pixel from the left.
pub open spec fn body_left(size: int) -> int {
    if size >= 17 {
        6 * size
    } else if 12 * size >= 100 {
        12 * size - 100
    } else {
        0
    }
}

/// Half the width of the battery's outline, in hundredths of a pixel.
pub open spec fn half_stroke(size: int) -> int {
    if size >= 19 {
        4 * size
    } else {
        75
    }
}

/// The pixels of one cell of the mark. Whole pixels keep the mark crisp; the
/// body has room for more.
pub open spec fn mark_cell(size: int, mode: DisplayMode) -> int {
    let cell = if mode == DisplayMode::IconOnly {
        7 * size / 110
    } else {
        size / 22
    };
    if cell >= 1 {
        cell
    } else {
        1
    }
}

/// Twice the mark's centre from the left, in hundredths of a pixel.
pub open spec fn mark_centre(size: int, mode: DisplayMode, glyph: bool) -> int {
    if mode == DisplayMode::IconOnly && glyph {
        body_left(size) + half_stroke(size) + 100 * (glyph_at(size) - 1)
    } else {
        2 * body_left(size) + 76 * size
    }
}

/// The mark's left edge. On a canvas ten pixels wide the body's centre falls
/// just short of the half that would round up.
pub open spec fn mark_left(size: int, mode: DisplayMode, width: int, glyph: bool) -> int {
    match mode {
        DisplayMode::PercentOnly => margin_of(size),
        _ => half_away(mark_centre(size, mode, glyph) - 100 * width, 200) - if size == 10 && !(mode
            == DisplayMode::IconOnly && glyph) {
            1int
        } else {
            0
        },
    }
}

/// The mark's top edge.
pub open spec fn mark_top(size: int, mode: DisplayMode, height: int) -> int {
    match mode {
        DisplayMode::IconOnly => half_away(size - height, 2),
        DisplayMode::PercentOnly => size - margin_of(size) - height,
        DisplayMode::PercentInIcon => size / 20,
    }
}

/// The width of a mark drawn in cells of `cell` pixels.
pub open spec fn mark_width(mark: Mark, cell: int) -> int {
    match mark {
        Mark::Bolt => 5 * cell,
        Mark::Warning => 7 * cell,
    }
}

/// Where the status mark goes.
pub open spec fn mark_box(size: int, mode: DisplayMode, mark: Mark, glyph: bool) -> Area {
    let width = mark_width(mark, mark_cell(size, mode));
    let height = 7 * mark_cell(size, mode);
    Area {
        x: mark_left(size, mode, width, glyph) as i32,
        y: mark_top(size, mode, height) as i32,
        w: width as i32,
        h: height as i32,
    }
}

fn mark_cell_of(size: u32, mode: DisplayMode) -> (cell: i64)
    requires
        size <= LARGEST_MARKED_SIDE,
    ensures
        cell == mark_cell(size as int, mode),
        1 <= cell <= 0x8400,
{
    let side: i64 = size as i64;
    let fitting: i64 = match mode {
        DisplayMode::IconOnly => 7 * side / 110,
        _ => side / 22,
    };
    if fitting >= 1 {
        fitting
    } else {
        1
    }
}

fn mark_centre_of(size: u32, mode: DisplayMode, glyph: bool) -> (r: i64)
    requires
        size <= LARGEST_MARKED_SIDE,
    ensures
        r == mark_centre(size as int, mode, glyph),
        -0x200 <= r <= 0x400_0000,
{
    let side: i64 = size as i64;
    let left: i64 = if side >= 17 {
        6 * side
    } else if 12 * side >= 100 {
        12 * side - 100
    } else {
        0
    };
    let stroke: i64 = if side >= 19 {
        4 * side
    } else {
        75
    };
    if mode == DisplayMode::IconOnly && glyph {
        left + stroke + 100 * (kind_glyph_area(size).x as i64 - 1)
    } else {
        2 * left + 76 * side
    }
}

fn mark_left_of(size: u32, mode: DisplayMode, width: i64, glyph: bool) -> (r: i64)
    requires
        size <= LARGEST_MARKED_SIDE,
        0 <= width <= 0x4_0000,
    ensures
        r == mark_left(size as int, mode, width as int, glyph),
        -0x2000_0000 <= r <= 0x2000_0000,
{
    match mode {
        DisplayMode::PercentOnly => kind_glyph_margin(size) as i64,
        _ => {
            let beside_glyph = mode == DisplayMode::IconOnly && glyph;
            let short: i64 = if size == 10 && !beside_glyph {
                1
            } else {
                0
            };
            let centre: i64 = mark_centre_of(size, mode, glyph);
            round_half_away(centre - 100 * width, 200) - short
        },
    }
}

/// Where the status mark goes: in `IconOnly` inside the body, left of the kind
/// glyph; in `PercentOnly` bottom-left, opposite the kind glyph, under the
/// digits; in `PercentInIcon` above the digits, over the battery's top edge.
pub fn mark_area(size: u32, mode: DisplayMode, mark: Mark, glyph: bool) -> (r: Area)
    requires
        size <= LARGEST_MARKED_SIDE,
    ensures
        r == mark_box(size as int, mode, mark, glyph),
        is_stretchable(mark_rows(mark).0 as int, mark_rows(mark).1.len() as int, r),
{
    let side: i64 = size as i64;
    let cell: i64 = mark_cell_of(size, mode);
    let width: i64 = match mark {
        Mark::Bolt => 5 * cell,
        Mark::Warning => 7 * cell,
    };
    let height: i64 = 7 * cell;
    let x: i64 = mark_left_of(size, mode, width, glyph);
    let y: i64 = match mode {
        DisplayMode::IconOnly => round_half_away(side - height, 2),
        DisplayMode::PercentOnly => side - kind_glyph_margin(size) as i64 - height,
        DisplayMode::PercentInIcon => side / 20,
    };
    proof {
        match mark {
            Mark::Bolt => {
                assert(can_be_cut(x as int, width as int, 5));
                assert(can_be_cut(y as int, height as int, 7));
            },
            Mark::Warning => {
                assert(can_be_cut(x as int, width as int, 7));
                assert(can_be_cut(y as int, height as int, 7));
            },
        }
    }
    Area { x: x as i32, y: y as i32, w: width as i32, h: height as i32 }
}

/// The mark's width and height are whole cells of its drawing.
pub proof fn marks_have_whole_cells(size: int, mode: DisplayMode, mark: Mark, glyph: bool)
    requires
        0 <= size <= LARGEST_MARKED_SIDE,
    ensures
        mark_box(size, mode, mark, glyph).w == mark_rows(mark).0 * mark_cell(size, mode),
        mark_box(size, mode, mark, glyph).h == mark_rows(mark).1.len() * mark_cell(size, mode),
{
}

/// The mark and its halo stay on the canvas and clear of the kind glyph and its
/// ring.
pub proof fn the_mark_is_clear_of_the_glyph(size: int, mode: DisplayMode, mark: Mark)
    requires
        20 <= size <= LARGEST_MARKED_SIDE,
    ensures
        ({
            let area = mark_box(size, mode, mark, true);
            let ring = if size / 32 >= 1 {
                size / 32
            } else {
                1
            };
            let glyph = glyph_at(size);
            &&& 0 <= area.x - ring
            &&& 0 <= area.y - ring
            &&& area.x + area.w + ring <= size
            &&& area.y + area.h + ring <= size
            &&& area.x + area.w + ring <= glyph - 1 || area.y + area.h + ring <= glyph - 1
        }),
{
}

// --- digits ------------------------------------------------------------------

/// 3×5 bitmap for digits 0–9 (rows top→bottom, columns left→right).
/// Each entry is a 5-element array of row bitmasks (3 bits wide, MSB = leftmost column).
pub const DIGITS: [[u8; 5]; 10] = [
    // 0: full rectangle, hollow centre
    [0b111, 0b101, 0b101, 0b101, 0b111],
    // 1: right column only
    [0b010, 0b110, 0b010, 0b010, 0b111],
    // 2: top, middle, bottom with turns
    [0b111, 0b001, 0b111, 0b100, 0b111],
    // 3: top, middle, bottom aligned right
    [0b111, 0b001, 0b111, 0b001, 0b111],
    // 4: sides top, join middle, right column bottom
    [0b101, 0b101, 0b111, 0b001, 0b001],
    // 5: top-left, middle, bottom-right
    [0b111, 0b100, 0b111, 0b001, 0b111],
    // 6: top-left, middle, full bottom
    [0b111, 0b100, 0b111, 0b101, 0b111],
    // 7: top, right column
    [0b111, 0b001, 0b001, 0b001, 0b001],
    // 8: full rectangle with middle
    [0b111, 0b101, 0b111, 0b101, 0b111],
    // 9: full top, middle, bottom-right
    [0b111, 0b101, 0b111, 0b001, 0b111],
];

/// The digits that render a value. Nothing past 100 is ever rendered.
pub open spec fn digits(value: u8) -> Seq<usize> {
    if value >= 100 {
        seq![1usize, 0, 0]
    } else if value >= 10 {
        seq![(value / 10) as usize, (value % 10) as usize]
    } else {
        seq![value as usize]
    }
}

/// Number of decimal digits used to render `value` (0–100).
pub fn digit_count(value: u8) -> (n: usize)
    ensures
        n == digits(value).len(),
{
    if value >= 100 {
        3
    } else if value >= 10 {
        2
    } else {
        1
    }
}

/// The digits that render `value` (0–100), left to right.
pub fn digits_of(value: u8) -> (r: Vec<usize>)
    ensures
        r@ == digits(value),
{
    if value >= 100 {
        vec![1usize, 0, 0]
    } else if value >= 10 {
        vec![(value / 10) as usize, (value % 10) as usize]
    } else {
        vec![value as usize]
    }
}

/// Whether a digit lights a cell of its 3×5 grid.
pub open spec fn digit_lights(d: int, col: int, row: int) -> bool {
    (DIGITS@[d]@[row] & (0b100u8 >> (col as u32))) != 0
}

/// Whether a digit lights a cell of its 3×5 grid.
pub fn digit_is_set(d: usize, col: u32, row: usize) -> (r: bool)
    requires
        d < 10,
        col < 3,
        row < 5,
    ensures
        r == digit_lights(d as int, col as int, row as int),
{
    let table = DIGITS;
    (table[d][row] & (0b100u8 >> col)) != 0
}

// --- pictures ----------------------------------------------------------------

/// A rendered icon: ARGB32 in network byte order.
#[derive(Debug, PartialEq, Eq)]
pub struct Icon {
    pub width: i32,
    pub height: i32,
    pub data: Vec<u8>,
}

/// What an `Icon` holds.
pub struct Picture {
    pub width: i32,
    pub height: i32,
    pub data: Seq<u8>,
}

impl View for Icon {
    type V = Picture;

    open spec fn view(&self) -> Picture {
        Picture { width: self.width, height: self.height, data: self.data@ }
    }
}

impl Clone for Icon {
    fn clone(&self) -> (r: Self)
        ensures
            r@ == self@,
    {
        let mut data: Vec<u8> = Vec::new();
        let mut i: usize = 0;
        while i < self.data.len()
            invariant
                i <= self.data@.len(),
                data@ == self.data@.take(i as int),
            decreases self.data@.len() - i,
        {
            data.push(self.data[i]);
            i += 1;
        }
        assert(self.data@.take(i as int) == self.data@);
        Icon { width: self.width, height: self.height, data }
    }
}

/// The pixels of `rgba` with their alpha first; a rest that is no whole pixel
/// is dropped.
pub open spec fn argb(rgba: Seq<u8>) -> Seq<u8> {
    Seq::new(
        (rgba.len() / 4) * 4,
        |i: int|
            if i % 4 == 0 {
                rgba[i + 3]
            } else {
                rgba[i - 1]
            },
    )
}

/// Converts premultiplied RGBA to ARGB32 in network byte order.
pub fn to_icon(width: i32, height: i32, rgba: &[u8]) -> (icon: Icon)
    ensures
        icon@ == (Picture { width, height, data: argb(rgba@) }),
{
    let mut data: Vec<u8> = Vec::new();
    let pixels: usize = rgba.len() / 4;
    let mut k: usize = 0;
    while k < pixels
        invariant
            pixels == rgba@.len() / 4,
            k <= pixels,
            data@ == argb(rgba@).take(4 * k),
            rgba.len() == rgba@.len(),
        decreases pixels - k,
    {
        assert(4 * k + 3 < rgba@.len());
        data.push(rgba[4 * k + 3]);
        data.push(rgba[4 * k]);
        data.push(rgba[4 * k + 1]);
        data.push(rgba[4 * k + 2]);
        assert(data@ =~= argb(rgba@).take(4 * (k + 1)));
        k += 1;
    }
    assert(data@ =~= argb(rgba@));
    Icon { width, height, data }
}

// --- laws --------------------------------------------------------------------

/// In the percent modes nothing is drawn over the digits.
pub proof fn digits_are_drawn_last(
    status: PrimaryStatus,
    kind: Option<DeviceKind>,
    mode: DisplayMode,
    stale: bool,
)
    requires
        !(status is Offline),
        mode != DisplayMode::IconOnly,
    ensures
        layers(status, kind, mode, stale).last() is Digits,
{
}

/// A low reading never gets quieter: it is drawn the same whether it is live
/// or not.
pub proof fn low_is_never_dimmed(percent: u8, kind: Option<DeviceKind>, mode: DisplayMode)
    ensures
        layers(PrimaryStatus::Low { percent }, kind, mode, true) == layers(
            PrimaryStatus::Low { percent },
            kind,
            mode,
            false,
        ),
{
}

/// Offline draws the same crossed battery in every mode.
pub proof fn offline_looks_the_same_everywhere(
    kind: Option<DeviceKind>,
    mode: DisplayMode,
    other: DisplayMode,
    stale: bool,
)
    ensures
        layers(PrimaryStatus::Offline, kind, mode, stale) == layers(
            PrimaryStatus::Offline,
            kind,
            other,
            false,
        ),
{
}

/// A device without a silhouette draws what no device at all would.
pub proof fn other_draws_no_glyph(status: PrimaryStatus, mode: DisplayMode, stale: bool)
    ensures
        layers(status, Some(DeviceKind::Other), mode, stale) == layers(status, None, mode, stale),
{
}

/// A layer without its colour.
pub open spec fn shape(layer: Layer) -> Layer {
    match layer {
        Layer::Fill { percent, .. } => Layer::Fill { percent, role: Role::Normal, dim: false },
        Layer::Outline { dashed, .. } => Layer::Outline { role: Role::Normal, dashed },
        Layer::Nub { .. } => Layer::Nub { role: Role::Normal },
        Layer::Cross { .. } => Layer::Cross { role: Role::Normal },
        Layer::StatusMark { mark, glyph, .. } => Layer::StatusMark {
            mark,
            glyph,
            role: Role::Normal,
        },
        Layer::KindGlyph { kind, .. } => Layer::KindGlyph { kind, role: Role::Normal },
        Layer::Digits { percent, clear_of, dotted, .. } => Layer::Digits {
            percent,
            clear_of,
            dotted,
            role: Role::Normal,
        },
    }
}

/// What an icon shows without its colours.
pub open spec fn shapes(list: Seq<Layer>) -> Seq<Layer> {
    list.map_values(|l: Layer| shape(l))
}

/// Whether an icon shows a mark.
pub open spec fn shows_mark(list: Seq<Layer>, mark: Mark) -> bool {
    exists|i: int| 0 <= i < list.len() && is_mark(#[trigger] list[i], mark)
}

/// Whether a layer is a mark.
pub open spec fn is_mark(layer: Layer, mark: Mark) -> bool {
    match layer {
        Layer::StatusMark { mark: m, .. } => m == mark,
        _ => false,
    }
}

/// Charging and low differ from an ordinary reading, and from each other, in
/// shape alone: each shows its mark, and no other status does.
pub proof fn marks_tell_statuses_apart(
    status: PrimaryStatus,
    kind: Option<DeviceKind>,
    mode: DisplayMode,
    stale: bool,
    mark: Mark,
)
    ensures
        shows_mark(shapes(layers(status, kind, mode, stale)), mark) == (mark_of(status) == Some(
            mark,
        )),
{
    let list = layers(status, kind, mode, stale);
    let plain = shapes(list);
    let role = role_of(status);
    assert forall|i: int| 0 <= i < plain.len() implies is_mark(#[trigger] plain[i], mark)
        == is_mark(list[i], mark) by {
        assert(plain[i] == shape(list[i]));
    }
    if mark_of(status) == Some(mark) {
        let one = Layer::StatusMark { mark, glyph: has_glyph(kind), role };
        let at: int = match mode {
            DisplayMode::IconOnly => 3,
            DisplayMode::PercentOnly => glyph_layers(kind, role).len() as int,
            DisplayMode::PercentInIcon => 2 + glyph_layers(kind, role).len() as int,
        };
        assert(list[at] == one);
        assert(is_mark(plain[at], mark));
    } else {
        assert forall|i: int| 0 <= i < list.len() implies !is_mark(#[trigger] list[i], mark) by {
        }
    }
}

/// A reading that is not live differs in shape from a live one in every mode:
/// its outline is dashed or, without one, its digits are dotted.
pub proof fn a_retained_reading_differs_in_shape(
    status: PrimaryStatus,
    kind: Option<DeviceKind>,
    mode: DisplayMode,
)
    requires
        status is Normal || status is Charging,
    ensures
        shapes(layers(status, kind, mode, true)) != shapes(layers(status, kind, mode, false)),
{
    let stale = layers(status, kind, mode, true);
    let fresh = layers(status, kind, mode, false);
    let at: int = match mode {
        DisplayMode::IconOnly => 1,
        DisplayMode::PercentOnly => stale.len() - 1,
        DisplayMode::PercentInIcon => 0,
    };
    assert(shapes(stale)[at] == shape(stale[at]));
    assert(shapes(fresh)[at] == shape(fresh[at]));
}

/// The digits drawn are the value's decimal digits.
pub proof fn digits_spell_the_value(value: u8)
    requires
        value <= 100,
    ensures
        digits(value).map_values(|d: usize| strings::digit(d as nat)) == strings::decimal(
            value as nat,
        ),
{
    reveal_with_fuel(strings::decimal, 4);
    let spelled = digits(value).map_values(|d: usize| strings::digit(d as nat));
    if value >= 100 {
        assert(strings::decimal(100) =~= seq!['1', '0', '0']);
    }
    assert(spelled =~= strings::decimal(value as nat));
}

/// Cells cover their box without seam or overlap: each begins where the one
/// before ends, the first and last edge are the box's own, and no two differ by
/// more than a pixel.
pub proof fn cells_tile_their_box(origin: int, span: int, n: int, i: int)
    requires
        0 <= span,
        1 <= n,
        0 <= i < n,
    ensures
        edge_at(origin, span, n, 0) == origin,
        edge_at(origin, span, n, n) == origin + span,
        span / n <= edge_at(origin, span, n, i + 1) - edge_at(origin, span, n, i) <= span / n + 1,
{
    edges_step_evenly(span, n, i);
    assert(span * i >= 0 && span * (i + 1) >= 0 && span * n >= 0) by (nonlinear_arith)
        requires
            0 <= span,
            0 <= i < n,
    ;
    assert(nearest(span * 0, n) == 0) by {
        assert(span * 0 == 0);
        assert(n / (2 * n) == 0) by (nonlinear_arith)
            requires
                1 <= n,
        ;
    }
    assert(nearest(span * n, n) == span) by (nonlinear_arith)
        requires
            1 <= n,
            0 <= span,
    ;
}

/// The kind glyph and its margin stay on the canvas, for every canvas that has
/// room for the smallest glyph.
pub proof fn the_glyph_stays_on_the_canvas(size: int)
    requires
        7 <= size,
    ensures
        glyph_at(size) + glyph_side(size) + margin_of(size) == size,
{
    assert(nearest(size, 3) == (2 * size + 3) / 6);
    assert(nearest(size, 22) == (2 * size + 22) / 44);
}

} // verus!
