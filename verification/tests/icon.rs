use std::cell::Cell;
use std::rc::Rc;

use eframe::egui;
use rigbat::appearance::ColorScheme;
use rigbat::domain::display::{DisplayMode, Palette};
use rigbat::domain::primary::PrimaryStatus;
use rigbat::domain::types::DeviceKind;
use rigbat::icon::cache::{IconCache, IconKey, IconRenderer};
use rigbat::icon::{
    cell_areas, digit_count, digit_is_set, digits_of, dimmed, kind_glyph, kind_glyph_area,
    kind_glyph_margin, mark_area, mark_bitmap, mark_ring, plan, published_sizes, status_mark, to_icon, wide_width, Area, Bitmap,
    Icon, Layer, Mark, Role, Theme, DIGITS,
};
use rigbat::palette::{
    mix, over, readable, status_colors, swatches, Rgb, Swatches, DIM_PERCENT,
};

const SCHEMES: [ColorScheme; 2] = [ColorScheme::Light, ColorScheme::Dark];

fn relative_luminance([r, g, b]: Rgb) -> f32 {
    let linear = |v: u8| {
        let s = f32::from(v) / 255.0;
        if s <= 0.04045 {
            s / 12.92
        } else {
            ((s + 0.055) / 1.055).powf(2.4)
        }
    };
    0.2126 * linear(r) + 0.7152 * linear(g) + 0.0722 * linear(b)
}

fn contrast_ratio(a: Rgb, b: Rgb) -> f32 {
    let (la, lb) = (relative_luminance(a), relative_luminance(b));
    (la.max(lb) + 0.05) / (la.min(lb) + 0.05)
}

const TEXT_CONTRAST: f32 = 4.5;
const GRAPHIC_CONTRAST: f32 = 3.0;
const DIM: u32 = DIM_PERCENT as u32;

/// `readable` by WCAG contrast, away from the surface.
fn shaded(color: Rgb, surface: Rgb, min_ratio: f32, opacity: u32) -> Rgb {
    let (black, white) = ([0, 0, 0], [255, 255, 255]);
    let target = if contrast_ratio(surface, black) >= contrast_ratio(surface, white) {
        black
    } else {
        white
    };
    let reaches = |c: Rgb, s: Rgb| contrast_ratio(c, s) >= min_ratio;
    readable(color, target, surface, opacity, &reaches)
}

fn theme(palette: Palette, scheme: ColorScheme) -> Theme {
    Theme::new(palette, scheme, |c: Rgb, s: Rgb| {
        contrast_ratio(c, s) >= GRAPHIC_CONTRAST
    })
}

fn dark() -> Theme {
    theme(Palette::Catppuccin, ColorScheme::Dark)
}

#[test]
fn digit_table_has_ten_entries() {
    assert_eq!(DIGITS.len(), 10);
}

#[test]
fn each_digit_has_five_rows() {
    for (i, d) in DIGITS.iter().enumerate() {
        assert_eq!(d.len(), 5, "digit {i} should have 5 rows");
    }
}

#[test]
fn dark_and_light_themes_differ_by_normal() {
    let light = theme(Palette::Catppuccin, ColorScheme::Light);
    assert_ne!(dark().normal, light.normal);
}

#[test]
fn the_palette_reaches_the_icon_colours() {
    let catppuccin = dark();
    let nord = theme(Palette::Nord, ColorScheme::Dark);
    assert_eq!(catppuccin.low, [0xf3, 0x8b, 0xa8, 255]);
    assert_eq!(nord.low, [0xbf, 0x61, 0x6a, 255]);
    assert_eq!(catppuccin.offline[3], 179);
}

/// A graphical object asks for 3:1. The dimmed fill is the case that has to
/// pass: in `IconOnly` it is the whole reading.
#[test]
fn every_palette_icon_colour_clears_3_to_1_on_the_nominal_panel_dimmed_included() {
    for palette_choice in Palette::ALL {
        for (scheme, panel) in [
            (ColorScheme::Dark, [0x1e, 0x1e, 0x1e]),
            (ColorScheme::Light, [0xf0, 0xf0, 0xf0]),
        ] {
            let theme = theme(palette_choice, scheme);
            for (role, [r, g, b, a], dims) in [
                ("normal", theme.normal, true),
                ("charging", theme.charging, true),
                ("low", theme.low, false),
                ("offline", theme.offline, false),
            ] {
                let alpha = (u32::from(a) * 100 + 127) / 255;
                let opacity = if dims { alpha * DIM / 100 } else { alpha };
                let painted = over([r, g, b], panel, opacity);
                let ratio = contrast_ratio(painted, panel);
                assert!(
                    ratio >= GRAPHIC_CONTRAST,
                    "{palette_choice:?} {scheme:?} {role}: {ratio:.2}:1"
                );
            }
        }
    }
}

/// Hue in degrees, `None` for a colour too grey to have a stable one.
fn hue([r, g, b]: Rgb) -> Option<f32> {
    let (r, g, b) = (f32::from(r), f32::from(g), f32::from(b));
    let (max, min) = (r.max(g).max(b), r.min(g).min(b));
    let chroma = max - min;
    if chroma < 24.0 {
        return None;
    }
    let h = if max == r {
        ((g - b) / chroma).rem_euclid(6.0)
    } else if max == g {
        (b - r) / chroma + 2.0
    } else {
        (r - g) / chroma + 4.0
    };
    Some(h * 60.0)
}

fn roles(s: &Swatches) -> [(&'static str, Rgb); 4] {
    [
        ("fg", s.fg),
        ("charging", s.charging),
        ("low", s.low),
        ("warn", s.warn),
    ]
}

#[test]
fn a_readable_colour_is_left_as_the_table_has_it() {
    let s = swatches(Palette::Gnome, ColorScheme::Light);
    assert!(contrast_ratio(s.fg, s.bg) >= TEXT_CONTRAST);
    assert_eq!(shaded(s.fg, s.bg, TEXT_CONTRAST, 100), s.fg);
}

#[test]
fn every_role_reaches_the_ratio_on_its_own_hue_away_from_the_surface() {
    for palette in Palette::ALL {
        for scheme in SCHEMES {
            let s = swatches(palette, scheme);
            for (role, color) in roles(&s) {
                for (min, opacity) in [(TEXT_CONTRAST, 100), (GRAPHIC_CONTRAST, DIM)] {
                    let out = shaded(color, s.bg, min, opacity);
                    let ratio = contrast_ratio(over(out, s.bg, opacity), s.bg);
                    let at = format!("{palette:?} {scheme:?} {role} at {min}:1");
                    assert!(ratio >= min, "{at}: {ratio:.2}:1");
                    if out == color {
                        continue;
                    }
                    let (before, after) = (relative_luminance(color), relative_luminance(out));
                    match scheme {
                        ColorScheme::Light => assert!(after < before, "{at}"),
                        ColorScheme::Dark => assert!(after > before, "{at}"),
                    }
                    if let (Some(before), Some(after)) = (hue(color), hue(out)) {
                        let drift = (before - after).abs().min(360.0 - (before - after).abs());
                        assert!(drift < 6.0, "{at}: hue {before:.0}° → {after:.0}°");
                    }
                }
            }
        }
    }
}

#[test]
fn dimming_is_measured_as_painted_over_the_surface() {
    let surface = [240, 240, 240];
    let green = [0x40, 0xa0, 0x2b];
    let opaque = shaded(green, surface, GRAPHIC_CONTRAST, 100);
    let dimmed = shaded(green, surface, GRAPHIC_CONTRAST, DIM);
    assert!(relative_luminance(dimmed) < relative_luminance(opaque));
    assert!(contrast_ratio(over(dimmed, surface, DIM), surface) >= GRAPHIC_CONTRAST);
}

#[test]
fn a_colour_nothing_satisfies_ends_at_its_target() {
    let (color, target, surface) = ([10, 20, 30], [255, 255, 255], [0, 0, 0]);
    assert_eq!(readable(color, target, surface, 100, &|_: Rgb, _: Rgb| false), target);
    assert_eq!(readable(color, target, surface, 100, &|_: Rgb, _: Rgb| true), color);
}

/// The same as single-precision arithmetic gives, over every channel.
#[test]
fn mixing_rounds_each_channel_to_the_nearest() {
    let float = |from: u8, to: u8, t: f32| {
        let (a, b) = (f32::from(from), f32::from(to));
        (a + (b - a) * t).round().clamp(0.0, 255.0) as u8
    };
    for a in 0..=255u8 {
        for b in 0..=255u8 {
            assert_eq!(over([a; 3], [b; 3], 70), [float(b, a, 0.70); 3], "{a} {b}");
        }
        for step in 0..=255u32 {
            for target in [0, 255] {
                let t = step as f32 / 255.0;
                assert_eq!(
                    mix([a; 3], [target; 3], step, 255),
                    [float(a, target, t); 3],
                    "{a} {step}"
                );
            }
        }
    }
    assert_eq!(mix([10, 20, 30], [20, 40, 60], 1, 2), [15, 30, 45]);
}

/// What a drawing looks like without its colours.
fn shape(status: PrimaryStatus, mode: DisplayMode, stale: bool) -> Vec<Layer> {
    plan(status, None, mode, stale)
        .into_iter()
        .map(|layer| match layer {
            Layer::Fill { percent, .. } => Layer::Fill {
                percent,
                role: Role::Normal,
                dim: false,
            },
            Layer::Outline { dashed, .. } => Layer::Outline {
                role: Role::Normal,
                dashed,
            },
            Layer::Nub { .. } => Layer::Nub { role: Role::Normal },
            Layer::StatusMark { mark, glyph, .. } => Layer::StatusMark {
                mark,
                glyph,
                role: Role::Normal,
            },
            Layer::Digits {
                percent,
                dotted,
                clear_of,
                ..
            } => Layer::Digits {
                percent,
                role: Role::Normal,
                dotted,
                clear_of,
            },
            other => other,
        })
        .collect()
}

#[test]
fn charging_and_low_differ_from_ok_in_shape_alone() {
    for mode in DisplayMode::ALL {
        for percent in [8, 15, 88, 100] {
            let ok = shape(PrimaryStatus::Normal { percent }, mode, false);
            let charging = shape(PrimaryStatus::Charging { percent }, mode, false);
            let low = shape(PrimaryStatus::Low { percent }, mode, false);
            let at = format!("{mode:?} {percent}%");
            assert_ne!(ok, charging, "{at}: charging looks like ok");
            assert_ne!(ok, low, "{at}: low looks like ok");
            assert_ne!(charging, low, "{at}: charging looks like low");
        }
    }
}

#[test]
fn a_retained_reading_differs_in_shape_in_every_mode() {
    for mode in DisplayMode::ALL {
        for status in [
            PrimaryStatus::Normal { percent: 88 },
            PrimaryStatus::Charging { percent: 40 },
            PrimaryStatus::Normal { percent: 100 },
        ] {
            let fresh = shape(status, mode, false);
            let stale = shape(status, mode, true);
            assert_ne!(fresh, stale, "{mode:?} {status:?}");
        }
    }
}

#[test]
fn every_palette_differs_in_both_schemes() {
    for scheme in SCHEMES {
        for (i, a) in Palette::ALL.iter().enumerate() {
            for b in Palette::ALL.iter().skip(i + 1) {
                assert_ne!(swatches(*a, scheme), swatches(*b, scheme), "{a:?} {b:?}");
            }
        }
    }
}

/// Drawn last, no glyph or mark can erase a digit.
#[test]
fn digits_come_after_the_kind_glyph() {
    for mode in [DisplayMode::PercentOnly, DisplayMode::PercentInIcon] {
        let layers = plan(
            PrimaryStatus::Normal { percent: 88 },
            Some(DeviceKind::Mouse),
            mode,
            false,
        );
        let glyph = layers
            .iter()
            .position(|l| matches!(l, Layer::KindGlyph { .. }));
        let digits = layers
            .iter()
            .position(|l| matches!(l, Layer::Digits { .. }));
        assert!(glyph.is_some() && glyph < digits, "{layers:?}");
    }
}

#[test]
fn an_unknown_kind_draws_no_glyph() {
    let status = PrimaryStatus::Normal { percent: 50 };
    for mode in DisplayMode::ALL {
        assert_eq!(
            plan(status, Some(DeviceKind::Other), mode, false),
            plan(status, None, mode, false)
        );
    }
}

#[test]
fn an_offline_device_looks_the_same_stale_or_not() {
    for mode in DisplayMode::ALL {
        assert_eq!(
            plan(PrimaryStatus::Offline, None, mode, true),
            plan(PrimaryStatus::Offline, None, mode, false)
        );
    }
}

#[test]
fn low_is_never_dimmed_in_a_plan() {
    for stale in [false, true] {
        let layers = plan(
            PrimaryStatus::Low { percent: 8 },
            None,
            DisplayMode::IconOnly,
            stale,
        );
        assert!(layers.contains(&Layer::Fill {
            percent: 8,
            role: Role::Low,
            dim: false
        }));
    }
}

#[test]
fn inks() {
    let t = dark();
    assert_eq!(t.ink(Role::Normal, false), t.normal);
    assert_eq!(t.ink(Role::Normal, true), t.offline);
    assert_eq!(t.ink(Role::Low, false), t.low);
    assert_eq!(t.ink(Role::Charging, true)[3], 179);
    assert_eq!(dimmed([1, 2, 3, 255]), [1, 2, 3, 179]);
    assert_eq!(dimmed([1, 2, 3, 0]), [1, 2, 3, 0]);
    assert_eq!(dimmed([1, 2, 3, 5]), [1, 2, 3, 4]);
}

#[test]
fn digits_spell_the_percentage() {
    assert_eq!(digits_of(0), [0]);
    assert_eq!(digits_of(7), [7]);
    assert_eq!(digits_of(42), [4, 2]);
    assert_eq!(digits_of(100), [1, 0, 0]);
    assert_eq!((digit_count(9), digit_count(10), digit_count(100)), (1, 2, 3));
    // The 1 has a foot and no left side.
    assert!(digit_is_set(1, 1, 0) && digit_is_set(1, 0, 4) && !digit_is_set(1, 0, 0));
}

#[test]
fn the_corner_glyph_is_seven_pixels_at_the_smallest_size() {
    let area = kind_glyph_area(22);
    assert_eq!((area.w, area.h), (7, 7));
    assert_eq!(kind_glyph_margin(22), 1);
    assert_eq!((area.x, area.bottom()), (14, 21));
    for size in published_sizes() {
        let area = kind_glyph_area(size);
        assert!(area.x >= 0 && area.x + area.w <= size as i32);
        assert!(area.y >= 0 && area.bottom() <= size as i32);
    }
}

#[test]
fn headset_and_controller_glyphs_fit_a_one_pixel_canvas() {
    for size in [1, 2] {
        let area = kind_glyph_area(size);
        for kind in [DeviceKind::Headset, DeviceKind::Controller] {
            assert!(!cell_areas(kind_glyph(kind), area).is_empty());
        }
    }
}

#[test]
fn cells_cover_their_box_without_gaps() {
    let bolt = mark_bitmap(Mark::Bolt);
    let area = Area {
        x: 3,
        y: 4,
        w: bolt.cols as i32 * 3,
        h: bolt.row_count() as i32 * 3,
    };
    let cells = cell_areas(bolt, area);
    assert_eq!(cells.len(), bolt.cells().len());
    for (cell, (col, row)) in cells.iter().zip(bolt.cells()) {
        assert!(bolt.is_set(col, row));
        assert_eq!(
            (cell.x, cell.y, cell.w, cell.h),
            (3 + 3 * col as i32, 4 + 3 * row as i32, 3, 3)
        );
    }
}

#[test]
fn only_charging_and_low_carry_a_mark() {
    assert!(status_mark(PrimaryStatus::Charging { percent: 40 }).is_some());
    assert!(status_mark(PrimaryStatus::Low { percent: 4 }).is_some());
    assert!(status_mark(PrimaryStatus::Normal { percent: 40 }).is_none());
    assert!(status_mark(PrimaryStatus::Offline).is_none());
    assert_eq!((mark_ring(22), mark_ring(64)), (1, 2));
}

fn overlaps(a: Area, b: Area) -> bool {
    a.x < b.x + b.w && b.x < a.x + a.w && a.y < b.y + b.h && b.y < a.y + a.h
}

/// The mark and its halo stay clear of the kind glyph and its ring.
#[test]
fn the_status_mark_is_whole_and_clear_of_the_kind_glyph() {
    for mode in DisplayMode::ALL {
        for (status, mark) in [
            (PrimaryStatus::Charging { percent: 100 }, Mark::Bolt),
            (PrimaryStatus::Charging { percent: 40 }, Mark::Bolt),
            (PrimaryStatus::Low { percent: 8 }, Mark::Warning),
        ] {
            let bitmap = status_mark(status).expect("a mark");
            assert_eq!(bitmap, mark_bitmap(mark));
            for size in published_sizes() {
                let at = format!("{mode:?} {status:?} at {size} px");
                let area = mark_area(size, mode, mark, true);
                let halo = area.grown(mark_ring(size));
                assert!(
                    !overlaps(halo, kind_glyph_area(size).grown(1)),
                    "{at}: {halo:?} meets the glyph"
                );
                assert!(
                    halo.x >= 0 && halo.y >= 0 && halo.bottom() <= size as i32,
                    "{at}: {halo:?} leaves the canvas"
                );
                // Every cell is the same whole square of pixels, inside the box.
                let side = area.h / 7;
                let cells = cell_areas(bitmap, area);
                assert_eq!(cells.len(), bitmap.cells().len(), "{at}");
                for cell in cells {
                    assert_eq!((cell.w, cell.h), (side, side), "{at}: {cell:?}");
                    assert!(cell.x >= area.x && cell.x + cell.w <= area.x + area.w, "{at}");
                    assert!(cell.y >= area.y && cell.bottom() <= area.bottom(), "{at}");
                }
                // What is drawn after the mark is the digits, which keep clear of it.
                let layers = plan(status, Some(DeviceKind::Mouse), mode, false);
                let drawn = layers
                    .iter()
                    .position(|l| matches!(l, Layer::StatusMark { .. }))
                    .expect("the mark is drawn");
                for later in &layers[drawn + 1..] {
                    assert!(
                        matches!(later, Layer::Digits { clear_of: Some(m), .. } if *m == mark),
                        "{at}: {later:?} over the mark"
                    );
                }
            }
        }
    }
}

/// The same place as single-precision arithmetic over the battery's
/// proportions gives.
#[test]
fn the_mark_is_centred_on_the_body() {
    for size in (1..=600).chain([4_096, 65_535, 524_288]) {
        let (w, h) = (size as f32, size as f32);
        let (bw, bh) = (w * 0.76, h * 0.80);
        let nub_w = (w * 0.12).max(2.0);
        let sw = (h * 0.08).max(1.5);
        let bx = ((w - (bw + nub_w)) / 2.0).max(0.0);
        let by = ((h - bh) / 2.0).max(0.0);
        for mode in DisplayMode::ALL {
            let per_22 = match mode {
                DisplayMode::IconOnly => 1.4,
                DisplayMode::PercentOnly | DisplayMode::PercentInIcon => 1.0,
            };
            let cell = (h * per_22 / 22.0).floor().max(1.0) as i32;
            for (mark, cols) in [(Mark::Bolt, 5), (Mark::Warning, 7)] {
                let (width, height) = (cols * cell, 7 * cell);
                for glyph in [false, true] {
                    let (centre_x, y) = match mode {
                        DisplayMode::IconOnly => {
                            let left = bx + sw / 2.0;
                            let right = if glyph {
                                (kind_glyph_area(size).x - 1) as f32
                            } else {
                                bx + bw - sw / 2.0
                            };
                            (
                                (left + right) / 2.0,
                                (by + (bh - height as f32) / 2.0).round() as i32,
                            )
                        }
                        DisplayMode::PercentOnly => {
                            let margin = kind_glyph_margin(size);
                            ((margin + width / 2) as f32, size as i32 - margin - height)
                        }
                        DisplayMode::PercentInIcon => (bx + bw / 2.0, (h * 0.05) as i32),
                    };
                    let expected = Area {
                        x: (centre_x - width as f32 / 2.0).round() as i32,
                        y,
                        w: width,
                        h: height,
                    };
                    assert_eq!(
                        mark_area(size, mode, mark, glyph),
                        expected,
                        "{mode:?} {mark:?} {glyph} at {size} px"
                    );
                }
            }
        }
    }
}

#[test]
fn pixels_go_out_in_network_order() {
    let icon = to_icon(1, 2, &[1, 2, 3, 4, 5, 6, 7, 8]);
    assert_eq!((icon.width, icon.height), (1, 2));
    assert_eq!(icon.data, [4, 1, 2, 3, 8, 5, 6, 7]);
}

struct CountingRenderer(Rc<Cell<usize>>);

impl IconRenderer for CountingRenderer {
    fn render(
        &self,
        status: PrimaryStatus,
        _kind: Option<DeviceKind>,
        _theme: &Theme,
        _mode: DisplayMode,
        _stale: bool,
    ) -> Vec<Icon> {
        self.0.set(self.0.get() + 1);
        let percent = match status {
            PrimaryStatus::Normal { percent } => percent,
            _ => 0,
        };
        vec![to_icon(1, 1, &[percent, 0, 0, 255])]
    }
}

#[test]
fn the_cache_renders_each_key_once_while_it_is_kept() {
    let renders = Rc::new(Cell::new(0));
    let mut cache = IconCache::new(CountingRenderer(renders.clone()));
    let key = |percent| IconKey {
        status: PrimaryStatus::Normal { percent },
        kind: Some(DeviceKind::Mouse),
        theme: dark(),
        mode: DisplayMode::PercentInIcon,
        stale: false,
    };
    let count = || renders.get();

    let pixels = |icons: Vec<Icon>| icons.into_iter().map(|i| i.data).collect::<Vec<_>>();
    let first = pixels(cache.icons(&key(50)));
    assert_eq!(
        pixels(cache.icons(&key(50))),
        first,
        "a hit returns what was rendered"
    );
    assert_eq!(count(), 1);

    cache.icons(&key(49));
    assert_eq!(count(), 2, "a new key renders");

    cache.retain(|k: &IconKey| k.same(&key(49)));
    cache.icons(&key(49));
    assert_eq!(count(), 2, "a kept key stays cached");
    cache.icons(&key(50));
    assert_eq!(count(), 3, "a dropped key renders again");
}

/// Row by row and left to right, for any number of rows, or none.
#[test]
fn the_lit_cells_of_any_drawing() {
    let tall = Bitmap {
        cols: 3,
        rows: &[0b101, 0, 0b010, 0, 0, 0, 0, 0, 0, 0b111],
    };
    assert_eq!(
        tall.cells(),
        [(0, 0), (2, 0), (1, 2), (0, 9), (1, 9), (2, 9)]
    );
    let eight = Bitmap {
        cols: 8,
        rows: &[0b1000_0001],
    };
    assert_eq!(eight.cells(), [(0, 0), (7, 0)]);
    assert!(eight.is_set(7, 0) && !eight.is_set(8, 0) && !eight.is_set(7, 1));
    for empty in [
        Bitmap { cols: 3, rows: &[] },
        Bitmap {
            cols: 0,
            rows: &[0xff],
        },
    ] {
        assert!(empty.cells().is_empty());
        let area = Area {
            x: 0,
            y: 0,
            w: i32::MAX,
            h: i32::MAX,
        };
        assert!(cell_areas(empty, area).is_empty());
    }
}

/// The same edges as single-precision arithmetic gives.
#[test]
fn cell_edges_round_to_whole_pixels() {
    let bitmap = Bitmap {
        cols: 7,
        rows: &[1, 64, 1, 64, 1, 64, 1, 64, 1, 64, 1],
    };
    let edge = |origin: i32, span: i32, n: u32, i: u32| {
        origin + (span as f32 * i as f32 / n as f32).round() as i32
    };
    for span in (-300..=300).chain([65_535, -65_535, 762_600]) {
        let area = Area {
            x: -40,
            y: 9,
            w: span,
            h: -span,
        };
        let cells = cell_areas(bitmap, area);
        assert_eq!(cells.len(), 11);
        for (cell, (col, row)) in cells.into_iter().zip(bitmap.cells()) {
            let (x0, x1) = (edge(-40, span, 7, col), edge(-40, span, 7, col + 1));
            let (y0, y1) = (edge(9, -span, 11, row), edge(9, -span, 11, row + 1));
            let expected = Area {
                x: x0,
                y: y0,
                w: x1 - x0,
                h: y1 - y0,
            };
            assert_eq!(cell, expected, "{span}");
        }
    }
}

fn rgb_of(c: egui::Color32) -> Rgb {
    [c.r(), c.g(), c.b()]
}

#[test]
fn every_palette_status_colour_is_readable_where_the_window_paints_it() {
    for visuals in [egui::Visuals::dark(), egui::Visuals::light()] {
        let scheme = if visuals.dark_mode {
            ColorScheme::Dark
        } else {
            ColorScheme::Light
        };
        let away = |surface: Rgb| {
            if contrast_ratio(surface, [0; 3]) >= contrast_ratio(surface, [255; 3]) {
                [0; 3]
            } else {
                [255; 3]
            }
        };
        let panel = rgb_of(visuals.panel_fill);
        let surfaces = [
            visuals.panel_fill,
            visuals.panel_fill.blend(visuals.faint_bg_color),
            visuals.widgets.inactive.weak_bg_fill,
        ]
        .map(|c| (rgb_of(c), away(rgb_of(c))));
        for palette in Palette::ALL {
            let status = status_colors(
                palette,
                scheme,
                panel,
                away(panel),
                &surfaces,
                |c: Rgb, s: Rgb| contrast_ratio(c, s) >= TEXT_CONTRAST,
                |c: Rgb, s: Rgb| contrast_ratio(c, s) >= GRAPHIC_CONTRAST,
            );
            let at = |role| format!("{palette:?} dark_mode={} {role}", visuals.dark_mode);
            for (role, color) in [("low", status.low), ("warn", status.warn)] {
                for (surface, _) in surfaces {
                    let ratio = contrast_ratio(color, surface);
                    assert!(ratio >= TEXT_CONTRAST, "{}: {ratio:.2}:1", at(role));
                }
            }
            for (role, color, opacity) in [
                ("normal", status.normal, DIM),
                ("charging", status.charging, DIM),
                ("low", status.low, 100),
            ] {
                let ratio = contrast_ratio(over(color, panel, opacity), panel);
                assert!(ratio >= GRAPHIC_CONTRAST, "{}: {ratio:.2}:1", at(role));
            }
            assert_eq!(status.track, swatches(palette, scheme).track);
        }
    }
}

/// Each surface moves the text role on from where the one before left it.
#[test]
fn status_colours_take_each_swatch_to_its_surfaces() {
    let s = swatches(Palette::Nord, ColorScheme::Dark);
    let (panel, white, black) = ([0; 3], [255; 3], [0; 3]);
    let surfaces = [([1; 3], white), ([2; 3], black)];
    let all = status_colors(
        Palette::Nord,
        ColorScheme::Dark,
        panel,
        white,
        &surfaces,
        |_: Rgb, s: Rgb| s == [2; 3],
        |_: Rgb, _: Rgb| true,
    );
    assert_eq!((all.normal, all.charging), (s.fg, s.charging));
    assert_eq!((all.low, all.warn), (white, white));
    let bars = status_colors(
        Palette::Nord,
        ColorScheme::Dark,
        panel,
        white,
        &[],
        |_: Rgb, _: Rgb| false,
        |_: Rgb, _: Rgb| false,
    );
    assert_eq!((bars.normal, bars.charging), (white, white));
    assert_eq!((bars.low, bars.warn, bars.track), (s.low, s.warn, s.track));
}

/// The same as single-precision arithmetic gives.
#[test]
fn the_glyph_box_is_exact_on_every_side_it_takes() {
    let sides = (0..4_000)
        .chain((1 << 20)..(1 << 20) + 500)
        .chain((1 << 22) - 500..(1 << 22) + 500)
        .chain(0xc0_0000 - 4_000..=0xc0_0000);
    for size in sides {
        let margin = ((size as f32 / 22.0).round() as i32).max(1);
        assert_eq!(kind_glyph_margin(size), margin, "{size}");
        let side = ((size as f32 / 3.0).round() as i32).max(6);
        let at = (size as i32 - side - margin).max(0);
        let expected = Area {
            x: at,
            y: at,
            w: side,
            h: side,
        };
        assert_eq!(kind_glyph_area(size), expected, "{size}");
    }
    for size in 0x100_0000 - 4_000..=0x100_0000_u32 {
        let margin = (size as f32 / 22.0).round() as i32;
        assert_eq!(kind_glyph_margin(size), margin, "{size}");
        assert_eq!(wide_width(size), (size as f32).round() as u32);
    }
}

#[test]
fn a_box_grows_and_shrinks_on_all_sides() {
    let area = Area {
        x: 5,
        y: 6,
        w: 10,
        h: 20,
    };
    let grown = Area {
        x: 3,
        y: 4,
        w: 14,
        h: 24,
    };
    assert_eq!(area.grown(2), grown);
    assert_eq!(grown.grown(-2), area);
    assert_eq!(area.grown(0), area);
}

#[test]
fn a_drawing_without_rows_has_no_cells_however_wide() {
    let none = Bitmap {
        cols: 40,
        rows: &[],
    };
    assert!(none.cells().is_empty());
    let area = Area {
        x: 0,
        y: 0,
        w: 9,
        h: 9,
    };
    assert!(cell_areas(none, area).is_empty());
}
