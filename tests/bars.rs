use sysbars::color::{Color, ColorError};
use sysbars::frac::Frac;
use sysbars::label::count_label;
use sysbars::layout::{label_pad, label_slot, position};
use sysbars::line::{ColorOverlayMode, Line};
use sysbars::memory::{free_memory_progress, used_memory_progress};

fn rgb(r: u8, g: u8, b: u8) -> Color {
    Color { f: (r, g, b), b: None }
}

fn fr(num: u32, den: u32) -> Frac {
    Frac { num, den }
}

fn line(left: Vec<Color>, right: Vec<Color>, mode: ColorOverlayMode, progress: Frac) -> Line {
    Line {
        colors_left: left,
        colors_right: right,
        color_overlay_mode: mode,
        progress,
        short: None,
        underline: false,
        long: None,
    }
}

#[test]
fn fade_with_itself_is_identity() {
    let c = Color { f: (17, 200, 255), b: Some((3, 0, 99)) };
    for (n, d) in [(0, 1), (1, 3), (2, 3), (1, 1), (7, 10)] {
        assert_eq!(Color::fade(c, c, fr(n, d)), Ok(c));
    }
}

#[test]
fn fade_ends_give_the_endpoints() {
    let a = rgb(150, 0, 100);
    let b = rgb(0, 100, 150);
    assert_eq!(Color::fade(a, b, fr(0, 1)), Ok(a));
    assert_eq!(Color::fade(a, b, fr(1, 1)), Ok(b));
    let a = Color { f: (1, 2, 3), b: Some((250, 0, 9)) };
    let b = Color { f: (4, 5, 6), b: Some((0, 255, 1)) };
    assert_eq!(Color::fade(a, b, fr(0, 5)), Ok(a));
    assert_eq!(Color::fade(a, b, fr(5, 5)), Ok(b));
}

#[test]
fn fade_midpoint_truncates() {
    assert_eq!(Color::fade(rgb(150, 0, 100), rgb(0, 100, 150), fr(1, 2)), Ok(rgb(75, 50, 125)));
    assert_eq!(Color::fade(rgb(0, 0, 0), rgb(1, 3, 255), fr(1, 2)), Ok(rgb(0, 1, 127)));
    assert_eq!(Color::fade(rgb(0, 0, 0), rgb(10, 100, 200), fr(1, 3)), Ok(rgb(3, 33, 66)));
}

#[test]
fn fade_with_one_background_fails() {
    let a = rgb(1, 2, 3);
    let b = Color { f: (1, 2, 3), b: Some((0, 0, 0)) };
    assert_eq!(Color::fade(a, b, fr(1, 2)), Err(ColorError::BackgroundMismatch));
    assert_eq!(Color::fade(b, a, fr(0, 2)), Err(ColorError::BackgroundMismatch));
}

#[test]
fn always_modes_ignore_progress() {
    let left = vec![rgb(1, 1, 1), rgb(2, 2, 2), rgb(3, 3, 3)];
    let right = vec![rgb(9, 9, 9), rgb(8, 8, 8)];
    for mode in [ColorOverlayMode::AlwaysLeft, ColorOverlayMode::AlwaysRight] {
        for x in [fr(0, 4), fr(1, 4), fr(3, 4), fr(4, 4)] {
            let a = line(left.clone(), right.clone(), mode, fr(0, 1)).get_color(x);
            let b = line(left.clone(), right.clone(), mode, fr(7, 9)).get_color(x);
            let c = line(left.clone(), right.clone(), mode, fr(1, 1)).get_color(x);
            assert_eq!(a, b);
            assert_eq!(a, c);
        }
    }
}

#[test]
fn ramp_index_is_floor_of_position() {
    let left = vec![rgb(1, 1, 1), rgb(2, 2, 2), rgb(3, 3, 3)];
    let l = line(left, vec![], ColorOverlayMode::AlwaysLeft, fr(0, 1));
    assert_eq!(l.get_color(fr(0, 1)), Ok(rgb(1, 1, 1)));
    assert_eq!(l.get_color(fr(49, 100)), Ok(rgb(1, 1, 1)));
    assert_eq!(l.get_color(fr(1, 2)), Ok(rgb(2, 2, 2)));
    assert_eq!(l.get_color(fr(99, 100)), Ok(rgb(2, 2, 2)));
    assert_eq!(l.get_color(fr(1, 1)), Ok(rgb(3, 3, 3)));
}

#[test]
fn single_entry_ramp_everywhere() {
    let c = rgb(5, 6, 7);
    let l = line(vec![c], vec![], ColorOverlayMode::AlwaysLeft, fr(0, 1));
    for n in 0..=10 {
        assert_eq!(l.get_color(fr(n, 10)), Ok(c));
    }
}

#[test]
fn choose_from_pos_is_a_step() {
    let a = rgb(10, 0, 0);
    let b = rgb(0, 10, 0);
    let l = line(vec![a], vec![b], ColorOverlayMode::ChooseFromPos, fr(1, 2));
    assert_eq!(l.get_color(fr(49, 100)), Ok(a));
    assert_eq!(l.get_color(fr(499, 1000)), Ok(a));
    assert_eq!(l.get_color(fr(1, 2)), Ok(b));
    assert_eq!(l.get_color(fr(51, 100)), Ok(b));
}

#[test]
fn narrow_band_matches_hard_split() {
    let a = rgb(200, 0, 0);
    let b = rgb(0, 200, 0);
    let p = fr(1, 2);
    let hard = line(vec![a], vec![b], ColorOverlayMode::ChooseFromPos, p);
    let soft = line(vec![a], vec![b], ColorOverlayMode::ChooseFromPosFade(fr(1, 1000)), p);
    for x in [fr(0, 10), fr(4, 10), fr(49, 100), fr(51, 100), fr(6, 10), fr(10, 10)] {
        assert_eq!(soft.get_color(x), hard.get_color(x));
    }
    let zero = line(vec![a], vec![b], ColorOverlayMode::ChooseFromPosFade(fr(0, 1)), p);
    for x in [fr(0, 10), fr(5, 10), fr(10, 10)] {
        assert_eq!(zero.get_color(x), hard.get_color(x));
    }
}

#[test]
fn band_fades_inside_its_width() {
    let a = rgb(200, 0, 0);
    let b = rgb(0, 200, 0);
    // p = 1/2, d = 1/10: the fade factor is (x - 0.45) / 0.1
    let soft = line(vec![a], vec![b], ColorOverlayMode::ChooseFromPosFade(fr(1, 10)), fr(1, 2));
    assert_eq!(soft.get_color(fr(45, 100)), Ok(a));
    assert_eq!(soft.get_color(fr(50, 100)), Ok(rgb(100, 100, 0)));
    assert_eq!(soft.get_color(fr(55, 100)), Ok(b));
    assert_eq!(soft.get_color(fr(1, 1)), Ok(b));
}

#[test]
fn stretch_splits_the_ramps() {
    let left = vec![rgb(1, 0, 0), rgb(2, 0, 0)];
    let right = vec![rgb(0, 1, 0), rgb(0, 2, 0)];
    let l = line(left, right, ColorOverlayMode::Stretch, fr(1, 2));
    assert_eq!(l.get_color(fr(0, 1)), Ok(rgb(1, 0, 0)));
    assert_eq!(l.get_color(fr(1, 2)), Ok(rgb(2, 0, 0)));
    assert_eq!(l.get_color(fr(3, 4)), Ok(rgb(0, 1, 0)));
    assert_eq!(l.get_color(fr(1, 1)), Ok(rgb(0, 2, 0)));
}

#[test]
fn stretch_at_degenerate_progress() {
    let left = vec![rgb(1, 0, 0), rgb(2, 0, 0)];
    let right = vec![rgb(0, 1, 0), rgb(0, 2, 0)];
    let zero = line(left.clone(), right.clone(), ColorOverlayMode::Stretch, fr(0, 1));
    assert_eq!(zero.get_color(fr(0, 1)), Ok(rgb(0, 1, 0)));
    assert_eq!(zero.get_color(fr(1, 1)), Ok(rgb(0, 2, 0)));
    let one = line(left, right, ColorOverlayMode::Stretch, fr(1, 1));
    assert_eq!(one.get_color(fr(0, 1)), Ok(rgb(1, 0, 0)));
    assert_eq!(one.get_color(fr(1, 1)), Ok(rgb(2, 0, 0)));
}

#[test]
fn empty_ramp_is_reported() {
    let l = Line::empty();
    assert_eq!(l.colors_left, vec![rgb(0, 100, 150)]);
    assert_eq!(l.color_overlay_mode, ColorOverlayMode::AlwaysLeft);
    assert_eq!(l.progress, fr(1, 2));
    assert!(l.short.is_none() && l.long.is_none() && !l.underline);
    assert_eq!(l.get_color(fr(1, 3)), Ok(rgb(0, 100, 150)));
    let r = line(vec![rgb(1, 1, 1)], vec![], ColorOverlayMode::AlwaysRight, fr(1, 2));
    assert_eq!(r.get_color(fr(0, 1)), Err(ColorError::EmptyRamp));
    let f = line(vec![], vec![rgb(1, 1, 1)], ColorOverlayMode::Fade, fr(1, 2));
    assert_eq!(f.get_color(fr(1, 2)), Err(ColorError::EmptyRamp));
    assert_eq!(f.glyph_colors(3), Err(ColorError::EmptyRamp));
}

#[test]
fn scenario_always_left_whole_bar() {
    let c = rgb(100, 180, 0);
    let l = line(vec![c], vec![], ColorOverlayMode::AlwaysLeft, fr(0, 1));
    for w in 1..12 {
        let v = l.glyph_colors(w).unwrap();
        assert_eq!(v.len(), w as usize);
        assert!(v.iter().all(|g| *g == c));
    }
}

#[test]
fn scenario_fade_three_wide() {
    let left = rgb(150, 0, 100);
    let right = rgb(0, 100, 150);
    let l = line(vec![left], vec![right], ColorOverlayMode::Fade, fr(0, 1));
    assert_eq!(l.glyph_colors(3), Ok(vec![left, rgb(75, 50, 125), right]));
}

#[test]
fn scenario_stretch_five_wide() {
    let a = rgb(1, 2, 3);
    let b = rgb(4, 5, 6);
    let l = line(vec![a], vec![b], ColorOverlayMode::Stretch, fr(1, 2));
    assert_eq!(l.glyph_colors(5), Ok(vec![a, a, a, b, b]));
}

#[test]
fn label_is_centred() {
    assert_eq!(label_pad(2, 6), 2);
    let slots: Vec<Option<usize>> = (0..6).map(|p| label_slot(2, 6, p)).collect();
    assert_eq!(slots, vec![None, None, Some(0), Some(1), None, None]);
    assert_eq!(label_pad(3, 6), 2);
    assert_eq!(label_pad(6, 4), 0);
    assert_eq!(label_slot(6, 4, 3), Some(3));
    assert_eq!(label_pad(0, 0), 0);
}

#[test]
fn positions_span_zero_to_one() {
    assert_eq!(position(0, 1), fr(0, 1));
    assert_eq!(position(0, 5), fr(0, 4));
    assert_eq!(position(4, 5), fr(4, 4));
    assert_eq!(Frac::new(1, 0), None);
    assert_eq!(Frac::new(1, 3), Some(fr(1, 3)));
}

#[test]
fn memory_progress_values() {
    assert_eq!(used_memory_progress(3, 4), Some(fr(2, 4)));
    assert_eq!(used_memory_progress(1, 4), Some(fr(4, 4)));
    assert_eq!(used_memory_progress(9, 4), Some(fr(0, 4)));
    assert_eq!(free_memory_progress(1, 4), Some(fr(2, 4)));
    assert_eq!(free_memory_progress(3, 4), Some(fr(0, 4)));
    assert_eq!(used_memory_progress(1, 0), None);
    assert_eq!(free_memory_progress(1, 0), None);
    let big = 1u64 << 34;
    assert_eq!(used_memory_progress(big / 2, big), Some(fr(1 << 31, 1 << 31)));
    assert_eq!(free_memory_progress(big / 4, big), Some(fr(1 << 30, 1 << 31)));
}

#[test]
fn apply_sets_foreground_and_background() {
    let fg = rgb(1, 2, 3).apply("x");
    assert_eq!(fg.input, "x");
    assert_eq!(fg.fgcolor, Some(colored::Color::TrueColor { r: 1, g: 2, b: 3 }));
    assert_eq!(fg.bgcolor, None);
    let both = Color { f: (1, 2, 3), b: Some((7, 8, 9)) }.apply("y");
    assert_eq!(both.fgcolor, Some(colored::Color::TrueColor { r: 1, g: 2, b: 3 }));
    assert_eq!(both.bgcolor, Some(colored::Color::TrueColor { r: 7, g: 8, b: 9 }));
}

#[test]
fn position_above_one_is_clamped() {
    let left = vec![rgb(1, 1, 1), rgb(2, 2, 2), rgb(3, 3, 3)];
    let l = line(left, vec![], ColorOverlayMode::AlwaysLeft, fr(0, 1));
    assert_eq!(l.get_color(fr(7, 2)), Ok(rgb(3, 3, 3)));
}

#[test]
fn fade_above_one_extrapolates() {
    assert_eq!(Color::fade(rgb(100, 0, 0), rgb(150, 0, 0), fr(3, 2)), Ok(rgb(175, 0, 0)));
    assert_eq!(Color::fade(rgb(100, 200, 50), rgb(150, 10, 250), fr(2, 1)), Ok(rgb(200, 0, 255)));
    let c = Color { f: (9, 8, 7), b: Some((1, 2, 3)) };
    assert_eq!(Color::fade(c, c, fr(5, 2)), Ok(c));
    assert_eq!(Color::fade(rgb(1, 2, 3), c, fr(5, 2)), Err(ColorError::BackgroundMismatch));
}

#[test]
fn count_label_takes_two_digits() {
    assert_eq!(count_label(0), ('0', ' '));
    assert_eq!(count_label(8), ('8', ' '));
    assert_eq!(count_label(16), ('1', '6'));
    assert_eq!(count_label(128), ('1', '2'));
    assert_eq!(count_label(4096), ('4', '0'));
    assert_eq!(count_label(u32::MAX), ('4', '2'));
}

#[test]
fn apply_keeps_glyph_and_colours() {
    let c = Color { f: (100, 180, 0), b: Some((1, 2, 3)) };
    let s = c.apply("a");
    assert_eq!(s.input, "a");
    assert_eq!(s.fgcolor, Some(colored::Color::TrueColor { r: 100, g: 180, b: 0 }));
    assert_eq!(s.bgcolor, Some(colored::Color::TrueColor { r: 1, g: 2, b: 3 }));
}
