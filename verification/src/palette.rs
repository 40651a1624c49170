//! Tonal palette: eleven shades derived from one base hue and saturation.
//!
//! A palette is a pure function of its base color and an optional hue-shift
//! scalar.  `at` maps a normalized lightness to a color, perturbing the hue
//! proportionally to the distance of the lightness from the midpoint;
//! `colors` samples the fixed ramp of eleven stops in ascending darkness.

use vstd::prelude::*;

use crate::color::Hsla;
use crate::fixed::{lemma_rdiv_le, rdiv, rdiv64, FX, FX2};

verus! {

/// `8192 * FX2`, added before the remainder so the wrapped hue numerator is
/// nonnegative for every representable hue shift.
const WRAP_OFFSET: i64 = 191_766_528_000_000;

/// Darkness of a palette stop in `FX` scale: `(1000 - min(stop, 1000)) / 1000`
/// of the unit, exact since `FX / 1000 == 153`.
pub open spec fn darkness_spec(stop: int) -> int {
    (1000 - (if stop > 1000 { 1000 } else { stop })) * 153
}

/// Map a palette stop (0 lightest, 1000 darkest) to a fixed-point darkness.
pub fn darkness(stop: usize) -> (d: u32)
    ensures
        d == darkness_spec(stop as int),
        d <= FX,
{
    let s: usize = if stop > 1000 { 1000 } else { stop };
    (1000 - s as u32) * 153
}

/// Hue of the palette at lightness `l`: the base hue shifted by
/// `(l - 1/2) * hue_shift`, wrapped into the unit interval and rounded to
/// the `FX` scale.  A wrap that rounds up to exactly 1 lands on 0.
pub open spec fn shifted_hue(base_h: int, hue_shift: int, l: int) -> int {
    let m = (base_h * FX + (l - 76500) * hue_shift) % (FX2 as int);
    let r = rdiv(m, FX as int);
    if r >= FX { 0 } else { r }
}

/// A tonal palette: base hue/saturation (lightness of the base is unused by
/// sampling) and a hue-shift scalar in `FX` scale, possibly negative.
#[derive(Copy, Clone, Debug)]
pub struct ColorPalette {
    pub base: Hsla,
    pub hue_shift: i32,
}

/// The color `ColorPalette::at` produces: lightness clamped to the unit
/// interval, saturation carried over, hue shifted and wrapped.
pub open spec fn at_spec(p: ColorPalette, l: int) -> Hsla {
    let lc = if l > FX { FX as int } else if l < 0 { 0 } else { l };
    Hsla {
        h: shifted_hue(p.base.h as int, p.hue_shift as int, lc) as u32,
        s: p.base.s,
        l: lc as u32,
        a: FX,
    }
}

impl ColorPalette {
    /// Palette from raw hue and saturation; the base sits at mid lightness
    /// and the hue shift starts at zero.
    pub fn new(h: u32, s: u32) -> (p: ColorPalette)
        requires
            h <= FX,
            s <= FX,
        ensures
            p.base == (Hsla { h, s, l: 76500u32, a: FX }),
            p.hue_shift == 0,
            p.base.wf(),
    {
        ColorPalette { base: Hsla { h, s, l: 76500, a: FX }, hue_shift: 0 }
    }

    /// Palette from a reference color; the hue shift starts at zero.
    pub fn from(color: Hsla) -> (p: ColorPalette)
        ensures
            p.base == color,
            p.hue_shift == 0,
    {
        ColorPalette { base: color, hue_shift: 0 }
    }

    /// Builder-style copy with a different hue shift; the base is untouched.
    pub fn hue_shift(self, hue_shift: i32) -> (p: ColorPalette)
        ensures
            p.base == self.base,
            p.hue_shift == hue_shift,
    {
        ColorPalette { hue_shift, ..self }
    }

    /// Sample the palette at a normalized lightness (clamped to the unit
    /// interval before use).
    pub fn at(self, l: u32) -> (c: Hsla)
        requires
            self.base.wf(),
        ensures
            c == at_spec(self, l as int),
            c.wf(),
    {
        let lc: u32 = if l > FX { FX } else { l };
        let spread: i64 = lc as i64 - 76500;
        proof {
            assert(-76500 <= spread <= 76500);
            assert(-165_000_000_000_000 <= spread * (self.hue_shift as i64)
                <= 165_000_000_000_000) by (nonlinear_arith)
                requires
                    -76500 <= spread <= 76500,
                    -0x8000_0000 <= (self.hue_shift as i64) < 0x8000_0000;
        }
        let swing: i64 = spread * self.hue_shift as i64;
        let total: i64 = self.base.h as i64 * FX as i64 + swing;
        let m: i64 = (total + WRAP_OFFSET) % FX2 as i64;
        proof {
            vstd::arithmetic::div_mod::lemma_mod_bound(total as int + WRAP_OFFSET as int, FX2 as int);
            assert(WRAP_OFFSET == (FX2 as int) * 8192);
            vstd::arithmetic::div_mod::lemma_mod_multiples_vanish(8192, total as int, FX2 as int);
            assert(m == (self.base.h as int * FX + (lc - 76500) * self.hue_shift as int) % (FX2 as int));
            lemma_rdiv_le(m as int, FX as int, FX as int);
        }
        let r: u32 = rdiv64(m as u64, FX as u64) as u32;
        let h: u32 = if r >= FX { 0 } else { r };
        Hsla { h, s: self.base.s, l: lc, a: FX }
    }

    /// Sample the palette at a stop of the darkness ramp.
    pub fn at_darkness(self, stop: usize) -> (c: Hsla)
        requires
            self.base.wf(),
        ensures
            c == at_spec(self, darkness_spec(stop as int)),
            c.wf(),
    {
        self.at(darkness(stop))
    }

    /// The fixed ramp: exactly eleven shades, sampled at the stops
    /// 50, 100, 200, ..., 900, 950, in that order, ascending in darkness.
    pub fn colors(self) -> (v: Vec<Hsla>)
        requires
            self.base.wf(),
        ensures
            v@.len() == 11,
            forall|k: int| 0 <= k < 11 ==> v@[k] == at_spec(self, darkness_spec(stop_at(k))),
    {
        let mut v: Vec<Hsla> = Vec::new();
        v.push(self.at_darkness(50));
        v.push(self.at_darkness(100));
        v.push(self.at_darkness(200));
        v.push(self.at_darkness(300));
        v.push(self.at_darkness(400));
        v.push(self.at_darkness(500));
        v.push(self.at_darkness(600));
        v.push(self.at_darkness(700));
        v.push(self.at_darkness(800));
        v.push(self.at_darkness(900));
        v.push(self.at_darkness(950));
        v
    }
}

/// The stop sampled at each position of the ramp.
pub open spec fn stop_at(k: int) -> int {
    if k == 0 { 50 } else if k == 1 { 100 } else if k == 2 { 200 }
    else if k == 3 { 300 } else if k == 4 { 400 } else if k == 5 { 500 }
    else if k == 6 { 600 } else if k == 7 { 700 } else if k == 8 { 800 }
    else if k == 9 { 900 } else { 950 }
}

/// Palette lightness is antitone in the stop: a smaller stop is lighter or
/// equally light.  In particular stop 0 is at least as light as stop 1000.
pub proof fn lemma_palette_darkness_order(p: ColorPalette, a: int, b: int)
    requires
        0 <= a <= b,
    ensures
        at_spec(p, darkness_spec(a)).l >= at_spec(p, darkness_spec(b)).l,
{
}

/// The fixed ramp descends: each entry of `colors` is at least as dark as
/// the one before it.
pub proof fn lemma_ramp_descends(p: ColorPalette, k: int)
    requires
        0 <= k < 10,
    ensures
        at_spec(p, darkness_spec(stop_at(k))).l >= at_spec(p, darkness_spec(stop_at(k + 1))).l,
{
    lemma_palette_darkness_order(p, stop_at(k), stop_at(k + 1));
}

} // verus!
