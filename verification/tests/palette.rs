//! Tonal palette tests: the fixed ramp, clamping, the hue shift.

use uicolors::color::{ColorFormat, Hsla};
use uicolors::fixed::FX;
use uicolors::palette::{darkness, ColorPalette};

#[test]
fn darkness_of_stops() {
    assert_eq!(darkness(0), FX);
    assert_eq!(darkness(50), 950 * 153);
    assert_eq!(darkness(500), 500 * 153);
    assert_eq!(darkness(950), 50 * 153);
    assert_eq!(darkness(1000), 0);
    assert_eq!(darkness(2000), 0);
}

#[test]
fn colors_is_the_fixed_ramp_in_order() {
    let p = ColorPalette::from(ColorFormat::Hsl(200, 50, 50).canonicalize());
    let ramp = p.colors();
    assert_eq!(ramp.len(), 11);
    let stops = vec![50, 100, 200, 300, 400, 500, 600, 700, 800, 900, 950];
    for (k, stop) in stops.iter().enumerate() {
        assert_eq!(ramp[k], p.at_darkness(*stop));
    }
}

#[test]
fn ramp_lightness_descends() {
    let p = ColorPalette::from(ColorFormat::Hsl(200, 50, 50).canonicalize());
    let ramp = p.colors();
    for k in 1..ramp.len() {
        assert!(ramp[k - 1].l >= ramp[k].l);
    }
    assert!(p.at_darkness(0).l >= p.at_darkness(1000).l);
    assert_eq!(p.at_darkness(0).l, FX);
    assert_eq!(p.at_darkness(1000).l, 0);
}

#[test]
fn at_clamps_lightness() {
    let p = ColorPalette::new(0, FX);
    assert_eq!(p.at(FX + 5000).l, FX);
    assert_eq!(p.at(0).l, 0);
}

#[test]
fn at_keeps_saturation_and_alpha() {
    let base = ColorFormat::Hsl(120, 40, 70).canonicalize();
    let p = ColorPalette::from(base);
    let c = p.at(76500);
    assert_eq!(c.s, base.s);
    assert_eq!(c.a, FX);
    assert_eq!(c.h, base.h);
}

#[test]
fn hue_shift_is_a_builder_copy() {
    let p = ColorPalette::new(1000, 2000);
    let q = p.hue_shift(5000);
    assert_eq!(q.base, p.base);
    assert_eq!(q.hue_shift, 5000);
    assert_eq!(p.hue_shift, 0);
}

#[test]
fn hue_shift_perturbs_hue_proportionally() {
    // Full-unit shift at full lightness moves the hue by half a turn.
    let p = ColorPalette::new(0, FX).hue_shift(FX as i32);
    assert_eq!(p.at(FX).h, 76500);
    // Negative shift wraps the other way around the circle.
    let q = ColorPalette::new(0, FX).hue_shift(-(FX as i32));
    assert_eq!(q.at(FX).h, 76500);
    // At mid lightness the shift has no effect.
    assert_eq!(p.at(76500).h, 0);
}

#[test]
fn palette_from_color_starts_unshifted() {
    let base = Hsla { h: 100, s: 200, l: 300, a: FX };
    let p = ColorPalette::from(base);
    assert_eq!(p.base, base);
    assert_eq!(p.hue_shift, 0);
}

#[test]
fn new_palette_sits_at_mid_lightness() {
    let p = ColorPalette::new(425, 1530);
    assert_eq!(p.base, Hsla { h: 425, s: 1530, l: 76500, a: FX });
}
