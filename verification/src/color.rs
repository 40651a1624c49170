//! Canonical color values.
//!
//! A `ColorFormat` is either an 8-bit RGB triple or an HSL triple with hue in
//! degrees (0..=360) and saturation/lightness in percent (0..=100).  The two
//! variants are bridged through `Hsla`, a fixed-point HSLA quadruple scaled by
//! `FX`, on which the palette and the gradient renderer also operate.

use vstd::prelude::*;

use crate::fixed::{lemma_rdiv_bounds, lemma_rdiv_exact, lemma_rdiv_le, lemma_rdiv_scale, rdiv, rdiv64, FX, FX2, TWO_FX3};

verus! {

/// A color as the user manipulates it: RGB bytes, or HSL in
/// degrees / percent / percent.
#[derive(Copy, Clone, Debug, PartialEq, Eq, Structural)]
pub enum ColorFormat {
    Rgb(u8, u8, u8),
    Hsl(u16, u8, u8),
}

/// Fixed-point HSLA color; every channel is a fraction of 1 scaled by `FX`.
#[derive(Copy, Clone, Debug, PartialEq, Eq, Structural)]
pub struct Hsla {
    pub h: u32,
    pub s: u32,
    pub l: u32,
    pub a: u32,
}

impl Hsla {
    /// All channels lie in the unit interval.
    pub open spec fn wf(self) -> bool {
        self.h <= FX && self.s <= FX && self.l <= FX && self.a <= FX
    }
}

/// The canonical range: RGB bytes always qualify; HSL needs hue at most 360
/// degrees and saturation/lightness at most 100 percent.
pub open spec fn is_canonical(c: ColorFormat) -> bool {
    match c {
        ColorFormat::Rgb(_, _, _) => true,
        ColorFormat::Hsl(h, s, l) => h <= 360 && s <= 100 && l <= 100,
    }
}

/// What `normalize` returns: hue above 360 wraps modulo 360, saturation and
/// lightness clamp to 100.  RGB bytes are already canonical.
pub open spec fn normalize_spec(c: ColorFormat) -> ColorFormat {
    match c {
        ColorFormat::Rgb(r, g, b) => ColorFormat::Rgb(r, g, b),
        ColorFormat::Hsl(h, s, l) => ColorFormat::Hsl(
            if h > 360 { (h as int % 360) as u16 } else { h },
            if s > 100 { 100 } else { s },
            if l > 100 { 100 } else { l },
        ),
    }
}

impl ColorFormat {
    /// Clamp/wrap every channel into its canonical range.
    pub fn normalize(self) -> (r: ColorFormat)
        ensures
            r == normalize_spec(self),
            is_canonical(r),
    {
        match self {
            ColorFormat::Rgb(r, g, b) => ColorFormat::Rgb(r, g, b),
            ColorFormat::Hsl(h, s, l) => {
                let h2: u16 = if h > 360 { h % 360 } else { h };
                let s2: u8 = if s > 100 { 100 } else { s };
                let l2: u8 = if l > 100 { 100 } else { l };
                ColorFormat::Hsl(h2, s2, l2)
            }
        }
    }
}

/// Largest of the three RGB channels.
pub open spec fn rgb_max(r: int, g: int, b: int) -> int {
    if r >= g && r >= b { r } else if g >= b { g } else { b }
}

/// Smallest of the three RGB channels.
pub open spec fn rgb_min(r: int, g: int, b: int) -> int {
    if r <= g && r <= b { r } else if g <= b { g } else { b }
}

/// Channel spread, the chroma of the triple scaled by 255.
pub open spec fn rgb_delta(r: int, g: int, b: int) -> int {
    rgb_max(r, g, b) - rgb_min(r, g, b)
}

/// Denominator of the saturation formula: `255 * (1 - |2L - 1|)` where
/// `L = (max + min) / 510`.
pub open spec fn sat_den(r: int, g: int, b: int) -> int {
    let sum = rgb_max(r, g, b) + rgb_min(r, g, b);
    if sum <= 255 { sum } else { 510 - sum }
}

/// Lightness of an RGB triple in `FX` scale; exact, since `FX / 510 == 300`.
pub open spec fn rgb_lum_fx(r: int, g: int, b: int) -> int {
    (rgb_max(r, g, b) + rgb_min(r, g, b)) * 300
}

/// Saturation of an RGB triple in `FX` scale, rounded to the scale.
pub open spec fn rgb_sat_fx(r: int, g: int, b: int) -> int {
    if rgb_delta(r, g, b) == 0 { 0 } else { rdiv(rgb_delta(r, g, b) * FX, sat_den(r, g, b)) }
}

/// Hue of an RGB triple in `FX` scale, rounded to the scale.  Sectors follow
/// the standard hexagonal formula; ties between equal channels resolve in
/// red, green, blue order.
pub open spec fn rgb_hue_fx(r: int, g: int, b: int) -> int {
    let d = rgb_delta(r, g, b);
    if d == 0 {
        0
    } else if r >= g && r >= b {
        if g >= b { rdiv((g - b) * FX, 6 * d) } else { FX - rdiv((b - g) * FX, 6 * d) }
    } else if g >= b {
        rdiv((b - r + 2 * d) * FX, 6 * d)
    } else {
        rdiv((r - g + 4 * d) * FX, 6 * d)
    }
}

/// Hue channel of the fixed-point bridge value of a canonical color.
pub open spec fn canon_h(c: ColorFormat) -> int {
    match c {
        ColorFormat::Rgb(r, g, b) => rgb_hue_fx(r as int, g as int, b as int),
        ColorFormat::Hsl(h, _s, _l) => h * 425,
    }
}

/// Saturation channel of the fixed-point bridge value of a canonical color.
pub open spec fn canon_s(c: ColorFormat) -> int {
    match c {
        ColorFormat::Rgb(r, g, b) => rgb_sat_fx(r as int, g as int, b as int),
        ColorFormat::Hsl(_h, s, _l) => s * 1530,
    }
}

/// Lightness channel of the fixed-point bridge value of a canonical color.
pub open spec fn canon_l(c: ColorFormat) -> int {
    match c {
        ColorFormat::Rgb(r, g, b) => rgb_lum_fx(r as int, g as int, b as int),
        ColorFormat::Hsl(_h, _s, l) => l * 1530,
    }
}

/// The whole fixed-point bridge value of a canonical color.
pub open spec fn canon_spec(c: ColorFormat) -> Hsla {
    Hsla {
        h: canon_h(c) as u32,
        s: canon_s(c) as u32,
        l: canon_l(c) as u32,
        a: FX,
    }
}

/// The canonical HSL triple a bridge value reads back as: each channel
/// clamped to the unit interval and truncated to whole degrees or percent.
pub open spec fn from_hsla_spec(c: Hsla) -> ColorFormat {
    let hc = if c.h > FX { FX as int } else { c.h as int };
    let sc = if c.s > FX { FX as int } else { c.s as int };
    let lc = if c.l > FX { FX as int } else { c.l as int };
    ColorFormat::Hsl(
        (hc * 360 / (FX as int)) as u16,
        (sc * 100 / (FX as int)) as u8,
        (lc * 100 / (FX as int)) as u8,
    )
}

impl ColorFormat {
    /// Read a fixed-point bridge value back as a canonical HSL triple.
    pub fn from_hsla(c: Hsla) -> (r: ColorFormat)
        ensures
            r == from_hsla_spec(c),
            is_canonical(r),
    {
        let hc: u64 = if c.h > FX { FX as u64 } else { c.h as u64 };
        let sc: u64 = if c.s > FX { FX as u64 } else { c.s as u64 };
        let lc: u64 = if c.l > FX { FX as u64 } else { c.l as u64 };
        ColorFormat::Hsl(
            (hc * 360 / FX as u64) as u16,
            (sc * 100 / FX as u64) as u8,
            (lc * 100 / FX as u64) as u8,
        )
    }
}

/// The hue of any RGB triple stays within the unit scale; in fact it never
/// exceeds `FX`.
proof fn lemma_rgb_hue_fx_range(r: int, g: int, b: int)
    requires
        0 <= r <= 255,
        0 <= g <= 255,
        0 <= b <= 255,
    ensures
        0 <= rgb_hue_fx(r, g, b) <= FX,
{
    let d = rgb_delta(r, g, b);
    if d != 0 {
        if r >= g && r >= b {
            if g >= b {
                lemma_rdiv_bounds((g - b) * FX, 6 * d);
                assert((g - b) * FX <= 25500 * (6 * d)) by (nonlinear_arith)
                    requires g - b <= d, 0 <= d;
                lemma_rdiv_le((g - b) * FX, 6 * d, 25500);
            } else {
                lemma_rdiv_bounds((b - g) * FX, 6 * d);
                assert((b - g) * FX <= 25500 * (6 * d)) by (nonlinear_arith)
                    requires b - g <= d, 0 <= d;
                lemma_rdiv_le((b - g) * FX, 6 * d, 25500);
            }
        } else if g >= b {
            lemma_rdiv_bounds((b - r + 2 * d) * FX, 6 * d);
            assert((b - r + 2 * d) * FX <= 76500 * (6 * d)) by (nonlinear_arith)
                requires b - r <= d, 0 <= d;
            lemma_rdiv_le((b - r + 2 * d) * FX, 6 * d, 76500);
        } else {
            lemma_rdiv_bounds((r - g + 4 * d) * FX, 6 * d);
            assert((r - g + 4 * d) * FX <= 127500 * (6 * d)) by (nonlinear_arith)
                requires r - g <= d, 0 <= d;
            lemma_rdiv_le((r - g + 4 * d) * FX, 6 * d, 127500);
        }
    }
}

/// Saturation of any RGB triple stays within the unit scale.
proof fn lemma_rgb_sat_fx_range(r: int, g: int, b: int)
    requires
        0 <= r <= 255,
        0 <= g <= 255,
        0 <= b <= 255,
    ensures
        0 <= rgb_sat_fx(r, g, b) <= FX,
{
    let d = rgb_delta(r, g, b);
    if d != 0 {
        let den = sat_den(r, g, b);
        lemma_rdiv_bounds(d * FX, den);
        assert(d * FX <= FX * den) by (nonlinear_arith)
            requires d <= den, 0 <= FX;
        lemma_rdiv_le(d * FX, den, FX as int);
    }
}

/// Convert RGB bytes into the fixed-point bridge.
fn rgb_bytes_to_hsla(r: u8, g: u8, b: u8) -> (c: Hsla)
    ensures
        c.h == rgb_hue_fx(r as int, g as int, b as int),
        c.s == rgb_sat_fx(r as int, g as int, b as int),
        c.l == rgb_lum_fx(r as int, g as int, b as int),
        c.a == FX,
        c.wf(),
{
    proof {
        lemma_rgb_hue_fx_range(r as int, g as int, b as int);
        lemma_rgb_sat_fx_range(r as int, g as int, b as int);
    }
    let mx: u32 = if r >= g && r >= b { r as u32 } else if g >= b { g as u32 } else { b as u32 };
    let mn: u32 = if r <= g && r <= b { r as u32 } else if g <= b { g as u32 } else { b as u32 };
    let d: u32 = mx - mn;
    let l: u32 = (mx + mn) * 300;
    if d == 0 {
        Hsla { h: 0, s: 0, l, a: FX }
    } else {
        let sum: u32 = mx + mn;
        let den: u32 = if sum <= 255 { sum } else { 510 - sum };
        let s: u32 = rdiv64(d as u64 * FX as u64, den as u64) as u32;
        let h: u32 = if r >= g && r >= b {
            if g >= b {
                rdiv64((g - b) as u64 * FX as u64, 6 * d as u64) as u32
            } else {
                FX - rdiv64((b - g) as u64 * FX as u64, 6 * d as u64) as u32
            }
        } else if g >= b {
            rdiv64((b as u64 + 2 * d as u64 - r as u64) * FX as u64, 6 * d as u64) as u32
        } else {
            rdiv64((r as u64 + 4 * d as u64 - g as u64) * FX as u64, 6 * d as u64) as u32
        };
        Hsla { h, s, l, a: FX }
    }
}

impl ColorFormat {
    /// The fixed-point bridge value of this color, after canonicalization.
    /// This is the exact image of the canonical channels in `FX` scale for
    /// HSL input, and the rounded standard RGB-to-HSL conversion for RGB
    /// input; alpha is always opaque.
    pub fn canonicalize(&self) -> (c: Hsla)
        ensures
            c == canon_spec(normalize_spec(*self)),
            c.h == canon_h(normalize_spec(*self)),
            c.s == canon_s(normalize_spec(*self)),
            c.l == canon_l(normalize_spec(*self)),
            c.a == FX,
            c.wf(),
    {
        match self.normalize() {
            ColorFormat::Rgb(r, g, b) => rgb_bytes_to_hsla(r, g, b),
            ColorFormat::Hsl(h, s, l) => Hsla {
                h: h as u32 * 425,
                s: s as u32 * 1530,
                l: l as u32 * 1530,
                a: FX,
            },
        }
    }
}

/// `|2l - FX|`, the distance of doubled lightness from the unit.
pub open spec fn abs2l(l: int) -> int {
    if 2 * l >= FX { 2 * l - FX } else { FX - 2 * l }
}

/// Chroma of a fixed-point HSLA value, scaled by `FX * FX`.
pub open spec fn chroma_num(s: int, l: int) -> int {
    (FX - abs2l(l)) * s
}

/// Which sixth of the hue circle `h` falls in; a full hue of exactly 1 wraps
/// to the red sector.
pub open spec fn hue_sector(h: int) -> int {
    if h >= FX { 0 } else { 6 * h / (FX as int) }
}

/// Offset of `h` within its sector, scaled by `FX`.
pub open spec fn hue_frac(h: int) -> int {
    if h >= FX { 0 } else { 6 * h % (FX as int) }
}

/// The triangle wave that weights the middle channel: the sector offset on
/// even sectors, its mirror image on odd ones.
pub open spec fn hue_tri(h: int) -> int {
    if hue_sector(h) % 2 == 0 { hue_frac(h) } else { FX - hue_frac(h) }
}

/// Numerator over `2 * FX^3` of the strongest RGB channel, `m0 + C`.
pub open spec fn num_hi(s: int, l: int) -> int {
    2 * l * (FX2 as int) + chroma_num(s, l) * (FX as int)
}

/// Numerator over `2 * FX^3` of the weakest RGB channel, `m0 = l - C/2`.
pub open spec fn num_lo(s: int, l: int) -> int {
    2 * l * (FX2 as int) - chroma_num(s, l) * (FX as int)
}

/// Numerator over `2 * FX^3` of the middle RGB channel, `m0 + X`.
pub open spec fn num_mid(h: int, s: int, l: int) -> int {
    num_lo(s, l) + 2 * chroma_num(s, l) * hue_tri(h)
}

/// Red channel numerator of a fixed-point HSLA value.
pub open spec fn num_r(h: int, s: int, l: int) -> int {
    let k = hue_sector(h);
    if k == 0 || k == 5 { num_hi(s, l) }
    else if k == 1 || k == 4 { num_mid(h, s, l) }
    else { num_lo(s, l) }
}

/// Green channel numerator of a fixed-point HSLA value.
pub open spec fn num_g(h: int, s: int, l: int) -> int {
    let k = hue_sector(h);
    if k == 1 || k == 2 { num_hi(s, l) }
    else if k == 0 || k == 3 { num_mid(h, s, l) }
    else { num_lo(s, l) }
}

/// Blue channel numerator of a fixed-point HSLA value.
pub open spec fn num_b(h: int, s: int, l: int) -> int {
    let k = hue_sector(h);
    if k == 3 || k == 4 { num_hi(s, l) }
    else if k == 2 || k == 5 { num_mid(h, s, l) }
    else { num_lo(s, l) }
}

/// A channel numerator quantized to a byte by rounding, the bridge used by
/// `to_rgb`.
pub open spec fn round255(n: int) -> int {
    rdiv(n * 255, TWO_FX3 as int)
}

/// A channel numerator quantized to a byte the way the gradient renderer
/// does it: scaled by 256, truncated, clamped to 255.
pub open spec fn cv256(n: int) -> int {
    let v = (n * 256) / (TWO_FX3 as int);
    if v > 255 { 255 } else { v }
}

/// Channel numerators stay between 0 and the denominator, so every channel
/// value lies in the unit interval.
proof fn lemma_num_bounds(h: int, s: int, l: int)
    requires
        0 <= h <= FX,
        0 <= s <= FX,
        0 <= l <= FX,
    ensures
        0 <= num_lo(s, l),
        num_lo(s, l) <= num_mid(h, s, l) <= num_hi(s, l),
        num_hi(s, l) <= TWO_FX3,
        0 <= chroma_num(s, l) <= FX * FX,
        0 <= hue_tri(h) <= FX,
{
    let cd = chroma_num(s, l);
    assert(0 <= cd <= FX * FX) by (nonlinear_arith)
        requires cd == (FX - abs2l(l)) * s, 0 <= s <= FX, 0 <= FX - abs2l(l) <= FX;
    if 2 * l <= FX {
        assert(cd <= 2 * l * FX) by (nonlinear_arith)
            requires 0 <= s <= FX, cd == (2 * l) * s, 0 <= l;
        assert(cd * FX <= 2 * l * FX * FX) by (nonlinear_arith)
            requires cd <= 2 * l * FX;
        assert(num_hi(s, l) <= 4 * l * FX * FX);
    } else {
        assert(cd <= (2 * FX - 2 * l) * FX) by (nonlinear_arith)
            requires 0 <= s <= FX, cd == ((2 * FX) - 2 * l) * s, 2 * l <= 2 * FX;
        assert(cd * FX <= (2 * FX - 2 * l) * FX * FX) by (nonlinear_arith)
            requires cd <= (2 * FX - 2 * l) * FX;
        assert(cd * FX <= 2 * l * FX * FX) by (nonlinear_arith)
            requires cd * FX <= (2 * FX - 2 * l) * FX * FX, FX <= 2 * l;
    }
    if h < FX {
        assert(0 <= 6 * h % (FX as int) < FX) by {
            vstd::arithmetic::div_mod::lemma_mod_bound(6 * h, FX as int);
        }
    }
    assert(0 <= 2 * cd * hue_tri(h) <= 2 * cd * FX) by (nonlinear_arith)
        requires 0 <= cd, 0 <= hue_tri(h) <= FX;
}

/// Quantize a channel numerator to a byte by rounding.
fn quant255(n: u64) -> (v: u8)
    requires
        n <= TWO_FX3,
    ensures
        v == round255(n as int),
{
    proof {
        lemma_rdiv_bounds(n as int * 255, TWO_FX3 as int);
        assert(n as int * 255 <= 255 * (TWO_FX3 as int)) by (nonlinear_arith)
            requires n as int <= TWO_FX3 as int;
        lemma_rdiv_le(n as int * 255, TWO_FX3 as int, 255);
    }
    rdiv64(n * 255, TWO_FX3) as u8
}

/// Quantize a channel numerator to a byte by truncation with a clamp.
pub(crate) fn quant256(n: u64) -> (v: u8)
    requires
        n <= TWO_FX3,
    ensures
        v == cv256(n as int),
{
    let q: u64 = (n * 256) / TWO_FX3;
    if q > 255 { 255 } else { q as u8 }
}

/// The three RGB channel numerators of a fixed-point HSLA value.
pub(crate) fn hsla_channel_nums(c: Hsla) -> (nums: (u64, u64, u64))
    requires
        c.wf(),
    ensures
        nums.0 == num_r(c.h as int, c.s as int, c.l as int),
        nums.1 == num_g(c.h as int, c.s as int, c.l as int),
        nums.2 == num_b(c.h as int, c.s as int, c.l as int),
        nums.0 <= TWO_FX3,
        nums.1 <= TWO_FX3,
        nums.2 <= TWO_FX3,
{
    proof {
        lemma_num_bounds(c.h as int, c.s as int, c.l as int);
    }
    let l2: u64 = 2 * c.l as u64;
    let abs2: u64 = if l2 >= FX as u64 { l2 - FX as u64 } else { FX as u64 - l2 };
    let cd: u64 = (FX as u64 - abs2) * c.s as u64;
    let base: u64 = l2 * FX2;
    let hi: u64 = base + cd * FX as u64;
    let lo: u64 = base - cd * FX as u64;
    let (k, f): (u32, u32) = if c.h >= FX {
        (0, 0)
    } else {
        let h6: u64 = 6 * c.h as u64;
        ((h6 / FX as u64) as u32, (h6 % FX as u64) as u32)
    };
    proof {
        if c.h < FX {
            vstd::arithmetic::div_mod::lemma_mod_bound(6 * (c.h as int), FX as int);
            vstd::arithmetic::div_mod::lemma_div_pos_is_pos(6 * (c.h as int), FX as int);
            assert(hue_sector(c.h as int) <= 5) by {
                vstd::arithmetic::div_mod::lemma_div_is_ordered(
                    6 * (c.h as int), 6 * (FX as int) - 1, FX as int);
                assert((6 * (FX as int) - 1) / (FX as int) == 5);
            }
        }
    }
    let t: u64 = if k % 2 == 0 { f as u64 } else { FX as u64 - f as u64 };
    let mid: u64 = lo + 2 * cd * t;
    assert(t == hue_tri(c.h as int));
    assert(mid == num_mid(c.h as int, c.s as int, c.l as int));
    match k {
        0 => (hi, mid, lo),
        1 => (mid, hi, lo),
        2 => (lo, hi, mid),
        3 => (lo, mid, hi),
        4 => (mid, lo, hi),
        _ => (hi, lo, mid),
    }
}

/// Hue of an RGB triple in whole degrees, rounded to the nearest degree.
pub open spec fn rgb_hue_deg(r: int, g: int, b: int) -> int {
    let d = rgb_delta(r, g, b);
    if d == 0 {
        0
    } else if r >= g && r >= b {
        if g >= b { rdiv(60 * (g - b), d) } else { 360 - rdiv(60 * (b - g), d) }
    } else if g >= b {
        rdiv(60 * (b - r + 2 * d), d)
    } else {
        rdiv(60 * (r - g + 4 * d), d)
    }
}

/// Saturation of an RGB triple in percent, rounded to the nearest percent.
pub open spec fn rgb_sat_pct(r: int, g: int, b: int) -> int {
    if rgb_delta(r, g, b) == 0 { 0 } else { rdiv(100 * rgb_delta(r, g, b), sat_den(r, g, b)) }
}

/// Lightness of an RGB triple in percent, rounded to the nearest percent.
pub open spec fn rgb_lum_pct(r: int, g: int, b: int) -> int {
    rdiv(100 * (rgb_max(r, g, b) + rgb_min(r, g, b)), 510)
}

/// What `to_hsl` returns: the HSL variant is kept as it stands; an RGB
/// triple converts by the rounded standard formulas.
pub open spec fn to_hsl_spec(c: ColorFormat) -> ColorFormat {
    match c {
        ColorFormat::Hsl(_, _, _) => c,
        ColorFormat::Rgb(r, g, b) => ColorFormat::Hsl(
            rgb_hue_deg(r as int, g as int, b as int) as u16,
            rgb_sat_pct(r as int, g as int, b as int) as u8,
            rgb_lum_pct(r as int, g as int, b as int) as u8,
        ),
    }
}

/// What `to_rgb` returns: the RGB variant is kept as it stands; an HSL
/// triple is canonicalized, lifted exactly into the fixed-point bridge and
/// quantized back to bytes by rounding.
pub open spec fn to_rgb_spec(c: ColorFormat) -> ColorFormat {
    match c {
        ColorFormat::Rgb(_, _, _) => c,
        ColorFormat::Hsl(_, _, _) => {
            let n = normalize_spec(c);
            let h = canon_h(n);
            let s = canon_s(n);
            let l = canon_l(n);
            ColorFormat::Rgb(
                round255(num_r(h, s, l)) as u8,
                round255(num_g(h, s, l)) as u8,
                round255(num_b(h, s, l)) as u8,
            )
        }
    }
}

/// The rounded degree/percent channels of an RGB triple stay in canonical
/// range.
proof fn lemma_rgb_deg_pct_range(r: int, g: int, b: int)
    requires
        0 <= r <= 255,
        0 <= g <= 255,
        0 <= b <= 255,
    ensures
        0 <= rgb_hue_deg(r, g, b) <= 360,
        0 <= rgb_sat_pct(r, g, b) <= 100,
        0 <= rgb_lum_pct(r, g, b) <= 100,
{
    let d = rgb_delta(r, g, b);
    let mx = rgb_max(r, g, b);
    let mn = rgb_min(r, g, b);
    lemma_rdiv_bounds(100 * (mx + mn), 510);
    lemma_rdiv_le(100 * (mx + mn), 510, 100);
    if d != 0 {
        let den = sat_den(r, g, b);
        lemma_rdiv_bounds(100 * d, den);
        assert(100 * d <= 100 * den) by (nonlinear_arith)
            requires d <= den;
        lemma_rdiv_le(100 * d, den, 100);
        if r >= g && r >= b {
            if g >= b {
                lemma_rdiv_bounds(60 * (g - b), d);
                assert(60 * (g - b) <= 60 * d) by (nonlinear_arith)
                    requires g - b <= d;
                lemma_rdiv_le(60 * (g - b), d, 60);
            } else {
                lemma_rdiv_bounds(60 * (b - g), d);
                assert(60 * (b - g) <= 60 * d) by (nonlinear_arith)
                    requires b - g <= d;
                lemma_rdiv_le(60 * (b - g), d, 60);
            }
        } else if g >= b {
            lemma_rdiv_bounds(60 * (b - r + 2 * d), d);
            assert(60 * (b - r + 2 * d) <= 180 * d) by (nonlinear_arith)
                requires b - r <= d;
            lemma_rdiv_le(60 * (b - r + 2 * d), d, 180);
        } else {
            lemma_rdiv_bounds(60 * (r - g + 4 * d), d);
            assert(60 * (r - g + 4 * d) <= 300 * d) by (nonlinear_arith)
                requires r - g <= d;
            lemma_rdiv_le(60 * (r - g + 4 * d), d, 300);
        }
    }
}

impl ColorFormat {
    /// The color as an HSL triple: already-HSL values pass through
    /// untouched, RGB triples convert by the rounded standard formulas.
    /// The result of a conversion is always canonical.
    pub fn to_hsl(self) -> (r: ColorFormat)
        ensures
            r == to_hsl_spec(self),
            (self matches ColorFormat::Rgb(_, _, _)) ==> is_canonical(r),
    {
        match self {
            ColorFormat::Hsl(_, _, _) => self,
            ColorFormat::Rgb(r, g, b) => {
                proof {
                    lemma_rgb_deg_pct_range(r as int, g as int, b as int);
                }
                let mx: u32 = if r >= g && r >= b { r as u32 } else if g >= b { g as u32 } else { b as u32 };
                let mn: u32 = if r <= g && r <= b { r as u32 } else if g <= b { g as u32 } else { b as u32 };
                let d: u32 = mx - mn;
                let l: u16 = rdiv64(100 * (mx + mn) as u64, 510) as u16;
                if d == 0 {
                    ColorFormat::Hsl(0, 0, l as u8)
                } else {
                    let sum: u32 = mx + mn;
                    let den: u32 = if sum <= 255 { sum } else { 510 - sum };
                    let s: u16 = rdiv64(100 * d as u64, den as u64) as u16;
                    let h: u16 = if r >= g && r >= b {
                        if g >= b {
                            rdiv64(60 * (g - b) as u64, d as u64) as u16
                        } else {
                            360 - rdiv64(60 * (b - g) as u64, d as u64) as u16
                        }
                    } else if g >= b {
                        rdiv64(60 * (b as u64 + 2 * d as u64 - r as u64), d as u64) as u16
                    } else {
                        rdiv64(60 * (r as u64 + 4 * d as u64 - g as u64), d as u64) as u16
                    };
                    ColorFormat::Hsl(h, s as u8, l as u8)
                }
            }
        }
    }

    /// The color as an RGB triple: already-RGB values pass through
    /// untouched, HSL triples are canonicalized and converted through the
    /// fixed-point bridge with rounding.
    pub fn to_rgb(self) -> (r: ColorFormat)
        ensures
            r == to_rgb_spec(self),
    {
        match self {
            ColorFormat::Rgb(_, _, _) => self,
            ColorFormat::Hsl(_, _, _) => {
                let c = self.canonicalize();
                let (nr, ng, nb) = hsla_channel_nums(c);
                ColorFormat::Rgb(quant255(nr), quant255(ng), quant255(nb))
            }
        }
    }

    /// The HSL channels of this color, converting first if it is RGB.
    pub fn split_hsl(self) -> (r: (u16, u8, u8))
        ensures
            to_hsl_spec(self) == ColorFormat::Hsl(r.0, r.1, r.2),
    {
        match self {
            ColorFormat::Hsl(h, s, l) => (h, s, l),
            ColorFormat::Rgb(_, _, _) => match self.to_hsl() {
                ColorFormat::Hsl(h, s, l) => (h, s, l),
                ColorFormat::Rgb(_, _, _) => {
                    proof { assert(false); }
                    (0, 0, 0)
                }
            },
        }
    }

    /// The RGB channels of this color, converting first if it is HSL.
    pub fn split_rgb(self) -> (r: (u8, u8, u8))
        ensures
            to_rgb_spec(self) == ColorFormat::Rgb(r.0, r.1, r.2),
    {
        match self {
            ColorFormat::Rgb(r, g, b) => (r, g, b),
            ColorFormat::Hsl(_, _, _) => match self.to_rgb() {
                ColorFormat::Rgb(r, g, b) => (r, g, b),
                ColorFormat::Hsl(_, _, _) => {
                    proof { assert(false); }
                    (0, 0, 0)
                }
            },
        }
    }
}

/// Canonicalizing twice is the same as canonicalizing once.
pub proof fn lemma_normalize_idempotent(c: ColorFormat)
    ensures
        normalize_spec(normalize_spec(c)) == normalize_spec(c),
{
}

/// Round-trip bound, achromatic axis: converting a gray RGB triple to HSL
/// and back moves every channel by at most one unit.  (For triples whose
/// exact hue is not a whole number of degrees the quantization of hue to
/// integer degrees can move a channel by more than one unit, so the bound
/// is stated on the axis where hue and saturation carry no information.)
pub proof fn lemma_round_trip_rgb_gray(v: u8)
    ensures
        ({
            let back = to_rgb_spec(to_hsl_spec(ColorFormat::Rgb(v, v, v)));
            &&& back matches ColorFormat::Rgb(r2, g2, b2)
            &&& r2 == g2
            &&& g2 == b2
            &&& -1 <= r2 - v <= 1
        }),
{
    lemma_rgb_deg_pct_range(v as int, v as int, v as int);
    let l = rgb_lum_pct(v as int, v as int, v as int);
    assert(l == rdiv(200 * v, 510));
    lemma_rdiv_bounds(200 * v, 510);
    let mid = to_hsl_spec(ColorFormat::Rgb(v, v, v));
    assert(mid == ColorFormat::Hsl(0u16, 0u8, l as u8));
    assert(normalize_spec(mid) == mid);
    let lf = canon_l(mid);
    assert(lf == l * 1530);
    assert(chroma_num(0, lf) == 0);
    assert(chroma_num(0, lf) * (FX as int) == 0) by (nonlinear_arith)
        requires chroma_num(0, lf) == 0;
    assert(2 * chroma_num(0, lf) * hue_tri(0) == 0) by (nonlinear_arith)
        requires chroma_num(0, lf) == 0;
    let num = num_hi(0, lf);
    assert(num_lo(0, lf) == num && num_mid(0, 0, lf) == num);
    assert(num_r(0, 0, lf) == num && num_g(0, 0, lf) == num && num_b(0, 0, lf) == num);
    assert(num == 2 * lf * (FX2 as int));
    let v2 = round255(num);
    lemma_rdiv_bounds(num * 255, TWO_FX3 as int);
    assert(0 <= v2 <= 255) by {
        assert(num * 255 <= 255 * (TWO_FX3 as int)) by (nonlinear_arith)
            requires num == 2 * (l * 1530) * (FX2 as int), 0 <= l <= 100;
        lemma_rdiv_le(num * 255, TWO_FX3 as int, 255);
    }
    assert(-1 <= v2 - v <= 1) by (nonlinear_arith)
        requires
            num == 2 * (l * 1530) * (FX2 as int),
            FX2 == 23_409_000_000u64,
            TWO_FX3 == 7_163_154_000_000_000u64,
            2 * 510 * l - 510 <= 2 * (200 * v) < 2 * 510 * l + 510,
            2 * (TWO_FX3 as int) * v2 - (TWO_FX3 as int) <= 2 * (num * 255)
                < 2 * (TWO_FX3 as int) * v2 + (TWO_FX3 as int),
            0 <= v < 256,
            0 <= l <= 100;
}

/// Round-trip, achromatic axis, the other direction: a zero-saturation HSL
/// color converted to RGB and back keeps hue and saturation at zero and
/// reproduces its lightness exactly (well within the one-percent bound).
pub proof fn lemma_round_trip_hsl_gray(l: u8)
    requires
        l <= 100,
    ensures
        to_hsl_spec(to_rgb_spec(ColorFormat::Hsl(0, 0, l))) == ColorFormat::Hsl(0u16, 0u8, l),
{
    let c = ColorFormat::Hsl(0u16, 0u8, l);
    assert(normalize_spec(c) == c);
    let lf = canon_l(c);
    assert(lf == l * 1530);
    assert(chroma_num(0, lf) == 0);
    assert(chroma_num(0, lf) * (FX as int) == 0) by (nonlinear_arith)
        requires chroma_num(0, lf) == 0;
    assert(2 * chroma_num(0, lf) * hue_tri(0) == 0) by (nonlinear_arith)
        requires chroma_num(0, lf) == 0;
    let num = num_hi(0, lf);
    assert(num_lo(0, lf) == num && num_mid(0, 0, lf) == num);
    assert(num_r(0, 0, lf) == num && num_g(0, 0, lf) == num && num_b(0, 0, lf) == num);
    assert(num == 2 * lf * (FX2 as int));
    let v = round255(num);
    lemma_rdiv_bounds(num * 255, TWO_FX3 as int);
    assert(0 <= v <= 255) by {
        assert(num * 255 <= 255 * (TWO_FX3 as int)) by (nonlinear_arith)
            requires num == 2 * (l * 1530) * (FX2 as int), 0 <= l <= 100;
        lemma_rdiv_le(num * 255, TWO_FX3 as int, 255);
    }
    let mid = to_rgb_spec(c);
    assert(mid == ColorFormat::Rgb(v as u8, v as u8, v as u8));
    assert(rgb_delta(v, v, v) == 0);
    let l2 = rgb_lum_pct(v, v, v);
    assert(l2 == rdiv(200 * v, 510));
    lemma_rdiv_bounds(200 * v, 510);
    assert(l2 == l) by (nonlinear_arith)
        requires
            num == 2 * (l * 1530) * (FX2 as int),
            FX2 == 23_409_000_000u64,
            TWO_FX3 == 7_163_154_000_000_000u64,
            2 * (TWO_FX3 as int) * v - (TWO_FX3 as int) <= 2 * (num * 255)
                < 2 * (TWO_FX3 as int) * v + (TWO_FX3 as int),
            2 * 510 * l2 - 510 <= 2 * (200 * v) < 2 * 510 * l2 + 510,
            0 <= l <= 100,
            0 <= v <= 255;
    lemma_rgb_deg_pct_range(v, v, v);
}

/// The fixed-point bridge is lossless for canonical HSL values: lifting a
/// canonical triple into the bridge and reading it back is the identity,
/// since `FX` is a common multiple of all three channel scales.
pub proof fn lemma_bridge_exact(h: u16, s: u8, l: u8)
    requires
        h <= 360,
        s <= 100,
        l <= 100,
    ensures
        from_hsla_spec(canon_spec(ColorFormat::Hsl(h, s, l))) == ColorFormat::Hsl(h, s, l),
{
    let c = ColorFormat::Hsl(h, s, l);
    assert(canon_h(c) == 425 * h && canon_s(c) == 1530 * s && canon_l(c) == 1530 * l);
    assert(425 * h * 360 == 153000 * (h as int));
    assert(1530 * s * 100 == 153000 * (s as int));
    assert(1530 * l * 100 == 153000 * (l as int));
    vstd::arithmetic::div_mod::lemma_div_multiples_vanish(h as int, 153000);
    vstd::arithmetic::div_mod::lemma_div_multiples_vanish(s as int, 153000);
    vstd::arithmetic::div_mod::lemma_div_multiples_vanish(l as int, 153000);
}

/// The rounded byte of a sector offset `u` (sixtieths of a sector mapped
/// onto 0..=255): what the renderer writes into the middle RGB channel of a
/// fully saturated mid-lightness color.
proof fn lemma_mid_byte(u: int)
    requires
        0 <= u <= 60,
    ensures
        round255(2 * (FX2 as int) * (2550 * u)) == rdiv(17 * u, 4),
        0 <= rdiv(17 * u, 4) <= 255,
        u <= 59 ==> rdiv(17 * u, 4) <= 251,
        1 <= u ==> 4 <= rdiv(17 * u, 4),
{
    let n = 2 * (FX2 as int) * (2550 * u);
    assert(n * 255 == (2 * (FX2 as int)) * (650250 * u)) by (nonlinear_arith)
        requires n == 2 * (FX2 as int) * (2550 * u);
    assert((2 * (FX2 as int)) * (FX as int) == TWO_FX3 as int) by (nonlinear_arith)
        requires FX == 153000u32, FX2 == 23_409_000_000u64, TWO_FX3 == 7_163_154_000_000_000u64;
    lemma_rdiv_scale(2 * (FX2 as int), 650250 * u, FX as int);
    assert(650250 * u == 38250 * (17 * u)) by (nonlinear_arith);
    assert(FX as int == 38250 * 4);
    lemma_rdiv_scale(38250, 17 * u, 4);
    lemma_rdiv_bounds(17 * u, 4);
    lemma_rdiv_le(17 * u, 4, 255);
    if u <= 59 {
        lemma_rdiv_le(17 * u, 4, 251);
    }
}

/// Reading the middle byte back as degrees: `rdiv(68k + 4m, 17)` recovers
/// `4k + u` exactly when `m` is the rounded byte of offset `u`.
proof fn lemma_mid_recover_add(u: int, k4: int)
    requires
        0 <= u <= 60,
        0 <= k4,
    ensures
        rdiv(68 * k4 + 4 * rdiv(17 * u, 4), 17) == 4 * k4 + u,
{
    let m = rdiv(17 * u, 4);
    lemma_rdiv_bounds(17 * u, 4);
    lemma_rdiv_bounds(68 * k4 + 4 * m, 17);
}

/// The mirrored reading: `rdiv(68k - 4m, 17)` recovers `4k - u`.
proof fn lemma_mid_recover_sub(u: int, k4: int)
    requires
        0 <= u <= 60,
        15 <= k4,
    ensures
        rdiv(68 * k4 - 4 * rdiv(17 * u, 4), 17) == 4 * k4 - u,
{
    let m = rdiv(17 * u, 4);
    lemma_rdiv_bounds(17 * u, 4);
    lemma_rdiv_le(17 * u, 4, 255);
    lemma_rdiv_bounds(68 * k4 - 4 * m, 17);
}

/// Round-trip bound, pure hues: a fully saturated mid-lightness HSL color
/// converted to RGB and back comes back exactly, hue included.  Hue 360
/// aliases hue 0 on the color circle and is left out.
pub proof fn lemma_round_trip_hsl_pure_hue(h: u16)
    requires
        h < 360,
    ensures
        to_hsl_spec(to_rgb_spec(ColorFormat::Hsl(h, 100, 50)))
            == ColorFormat::Hsl(h, 100, 50),
{
    let c = ColorFormat::Hsl(h, 100, 50);
    assert(normalize_spec(c) == c);
    let hf = canon_h(c);
    let sf = canon_s(c);
    let lf = canon_l(c);
    assert(hf == 425 * h && sf == 153000 && lf == 76500);
    let cd = chroma_num(sf, lf);
    assert(abs2l(76500) == 0);
    assert(cd == FX2 as int) by (nonlinear_arith)
        requires
            cd == (FX - abs2l(76500)) * 153000,
            abs2l(76500) == 0,
            FX == 153000u32,
            FX2 == 23_409_000_000u64;

    let k0 = h as int / 60;
    let hr = h as int % 60;
    vstd::arithmetic::div_mod::lemma_fundamental_div_mod(h as int, 60);
    vstd::arithmetic::div_mod::lemma_mod_bound(h as int, 60);
    assert(0 <= hr < 60);
    assert(0 <= k0 <= 5);
    assert(hf < FX);
    assert(6 * hf == 153000 * k0 + 2550 * hr);
    vstd::arithmetic::div_mod::lemma_fundamental_div_mod_converse(
        6 * hf, FX as int, k0, 2550 * hr);
    assert(hue_sector(hf) == k0);
    assert(hue_frac(hf) == 2550 * hr);

    assert(num_lo(sf, lf) == 0) by (nonlinear_arith)
        requires
            num_lo(sf, lf) == 2 * 76500 * (FX2 as int) - cd * (FX as int),
            cd == FX2 as int,
            FX == 153000u32;
    assert(num_hi(sf, lf) == TWO_FX3 as int) by (nonlinear_arith)
        requires
            num_hi(sf, lf) == 2 * 76500 * (FX2 as int) + cd * (FX as int),
            cd == FX2 as int,
            FX == 153000u32,
            FX2 == 23_409_000_000u64,
            TWO_FX3 == 7_163_154_000_000_000u64;
    assert(round255(num_hi(sf, lf)) == 255) by {
        assert(num_hi(sf, lf) * 255 == 255 * (TWO_FX3 as int)) by (nonlinear_arith)
            requires num_hi(sf, lf) == TWO_FX3 as int;
        lemma_rdiv_exact(255, TWO_FX3 as int);
    }
    assert(round255(num_lo(sf, lf)) == 0) by {
        assert(0 * (TWO_FX3 as int) == 0) by (nonlinear_arith);
        lemma_rdiv_exact(0, TWO_FX3 as int);
    }

    // The middle channel carries the sector offset.
    let u: int = if k0 % 2 == 0 { hr } else { 60 - hr };
    assert(hue_tri(hf) == 2550 * u);
    let m = rdiv(17 * u, 4);
    lemma_mid_byte(u);
    assert(num_mid(hf, sf, lf) == 2 * (FX2 as int) * (2550 * u)) by (nonlinear_arith)
        requires
            num_mid(hf, sf, lf) == num_lo(sf, lf) + 2 * cd * hue_tri(hf),
            num_lo(sf, lf) == 0,
            cd == FX2 as int,
            hue_tri(hf) == 2550 * u;
    assert(round255(num_mid(hf, sf, lf)) == m);

    // The saturation and lightness read back exactly from any of the six
    // byte triples: spread 255 over sum 255.
    assert(rdiv(100 * 255int, 255) == 100) by {
        assert(100 * 255 == 100 * 255int);
        lemma_rdiv_exact(100, 255);
    }
    assert(rdiv(100 * 255int, 510) == 50) by {
        assert(100 * 255 == 50 * 510int);
        lemma_rdiv_exact(50, 510);
    }
    assert(255 == 15 * 17int);

    let back = to_rgb_spec(c);
    if k0 == 0 {
        assert(back == ColorFormat::Rgb(255u8, m as u8, 0u8));
        assert(60 * m == 15 * (4 * m)) by (nonlinear_arith);
        lemma_rdiv_scale(15, 4 * m, 17);
        lemma_mid_recover_add(u, 0);
        assert(rgb_hue_deg(255, m, 0) == hr);
    } else if k0 == 1 {
        assert(back == ColorFormat::Rgb(m as u8, 255u8, 0u8));
        if u == 60 {
            assert(m == 255) by {
                assert(17 * 60 == 255 * 4int);
                lemma_rdiv_exact(255, 4);
            }
            assert(60 * 255 == 15 * (4 * 255int)) by (nonlinear_arith);
            lemma_rdiv_scale(15, 4 * 255int, 17);
            assert(4 * 255 == 60 * 17int);
            lemma_rdiv_exact(60, 17);
            assert(rgb_hue_deg(255, 255, 0) == 60);
        } else {
            assert(m <= 251);
            assert(60 * (510 - m) == 15 * (68 * 30 - 4 * m)) by (nonlinear_arith);
            lemma_rdiv_scale(15, 68 * 30 - 4 * m, 17);
            lemma_mid_recover_sub(u, 30);
            assert(rgb_hue_deg(m, 255, 0) == 120 - u);
        }
    } else if k0 == 2 {
        assert(back == ColorFormat::Rgb(0u8, 255u8, m as u8));
        assert(m <= 251);
        assert(60 * (m + 510) == 15 * (68 * 30 + 4 * m)) by (nonlinear_arith);
        lemma_rdiv_scale(15, 68 * 30 + 4 * m, 17);
        lemma_mid_recover_add(u, 30);
        assert(rgb_hue_deg(0, 255, m) == 120 + u);
    } else if k0 == 3 {
        assert(back == ColorFormat::Rgb(0u8, m as u8, 255u8));
        if u == 60 {
            assert(m == 255) by {
                assert(17 * 60 == 255 * 4int);
                lemma_rdiv_exact(255, 4);
            }
            assert(60 * (255 + 510) == 15 * (180 * 17)) by (nonlinear_arith);
            lemma_rdiv_scale(15, 180 * 17int, 17);
            lemma_rdiv_exact(180, 17);
            assert(rgb_hue_deg(0, 255, 255) == 180);
        } else {
            assert(m <= 251);
            assert(60 * (1020 - m) == 15 * (68 * 60 - 4 * m)) by (nonlinear_arith);
            lemma_rdiv_scale(15, 68 * 60 - 4 * m, 17);
            lemma_mid_recover_sub(u, 60);
            assert(rgb_hue_deg(0, m, 255) == 240 - u);
        }
    } else if k0 == 4 {
        assert(back == ColorFormat::Rgb(m as u8, 0u8, 255u8));
        assert(m <= 251);
        assert(60 * (m + 1020) == 15 * (68 * 60 + 4 * m)) by (nonlinear_arith);
        lemma_rdiv_scale(15, 68 * 60 + 4 * m, 17);
        lemma_mid_recover_add(u, 60);
        assert(rgb_hue_deg(m, 0, 255) == 240 + u);
    } else {
        assert(back == ColorFormat::Rgb(255u8, 0u8, m as u8));
        assert(1 <= u);
        assert(4 <= m);
        assert(60 * m == 15 * (4 * m)) by (nonlinear_arith);
        lemma_rdiv_scale(15, 4 * m, 17);
        lemma_mid_recover_add(u, 0);
        assert(rgb_hue_deg(255, 0, m) == 360 - u);
    }
}

impl ColorFormat {
    /// A uniformly random RGB color; RGB bytes are always canonical.
    /// Relies on `rand::random` for the raw bytes.
    pub fn random_rgb() -> (c: ColorFormat)
        ensures
            c matches ColorFormat::Rgb(_, _, _),
            is_canonical(c),
    {
        let r = rand::random::<u8>();
        let g = rand::random::<u8>();
        let b = rand::random::<u8>();
        ColorFormat::Rgb(r, g, b)
    }

    /// A uniformly random HSL color, each channel drawn from its legal
    /// range.  Relies on `rand::random` for the raw draws.
    pub fn random_hsl() -> (c: ColorFormat)
        ensures
            c matches ColorFormat::Hsl(h, s, l) && h < 360 && s < 100 && l < 100,
            is_canonical(c),
    {
        let h = (rand::random::<usize>() % 360) as u16;
        let s = rand::random::<u8>() % 100;
        let l = rand::random::<u8>() % 100;
        ColorFormat::Hsl(h, s, l)
    }
}

/// Behavior of `rand::random` is left unspecified: nothing can be promised
/// of a random draw beyond its type.
pub assume_specification<T>[ rand::random::<T> ]() -> (r: T)
    where
        rand::distributions::Standard: rand::distributions::Distribution<T>,
;

/// A value already in canonical range is untouched by normalization.
pub proof fn lemma_normalize_canonical(c: ColorFormat)
    requires
        is_canonical(c),
    ensures
        normalize_spec(c) == c,
{
}

} // verus!
