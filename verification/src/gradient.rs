//! Gradient strips: the raster a slider paints.
//!
//! A strip varies one channel of a reference color across its width.  The
//! hue strip is rebased to the padded span and clamps to red on both sides
//! (hue is circular); the saturation and lightness strips anchor to the full
//! width, so the padded interior maps `x / width`, not the padded span, and
//! the edges clamp to the channel extremes.
//!
//! `should_gen_image` is the cache dependency rule: the hue strip never
//! depends on the reference color; the saturation strip depends on hue and
//! lightness; the lightness strip depends on hue and saturation.

use vstd::prelude::*;

use crate::color::{cv256, num_b, num_g, num_r, quant256, hsla_channel_nums, Hsla};
use crate::fixed::{lemma_rdiv_bounds, lemma_rdiv_le, rdiv, rdiv64, FX};

verus! {

/// Which channel a slider edits and its strip varies.
#[derive(Copy, Clone, Debug, PartialEq, Eq, Structural)]
pub enum ColorScale {
    Hue,
    Saturation,
    Lightness,
}

/// Clamp a fixed-point channel to the unit interval.
pub open spec fn clamp_fx(v: int) -> int {
    if v > FX { FX as int } else if v < 0 { 0 } else { v }
}

/// The whole-unit reading of the channel a scale edits: degrees for hue,
/// percent for saturation and lightness, truncated as displayed.
pub open spec fn unit_spec(scale: ColorScale, c: Hsla) -> int {
    match scale {
        ColorScale::Hue => clamp_fx(c.h as int) * 360 / (FX as int),
        ColorScale::Saturation => clamp_fx(c.s as int) * 100 / (FX as int),
        ColorScale::Lightness => clamp_fx(c.l as int) * 100 / (FX as int),
    }
}

/// Whether a strip for this scale must be regenerated when the reference
/// color moves from `c0` to `c1`.
pub open spec fn should_gen_spec(scale: ColorScale, c0: Hsla, c1: Hsla) -> bool {
    match scale {
        ColorScale::Hue => false,
        ColorScale::Lightness => unit_spec(ColorScale::Hue, c0) != unit_spec(ColorScale::Hue, c1)
            || unit_spec(ColorScale::Saturation, c0) != unit_spec(ColorScale::Saturation, c1),
        ColorScale::Saturation => unit_spec(ColorScale::Hue, c0) != unit_spec(ColorScale::Hue, c1)
            || unit_spec(ColorScale::Lightness, c0) != unit_spec(ColorScale::Lightness, c1),
    }
}

/// Normalized position of column `x` in a strip of width `w` with the
/// given padding, in `FX` scale.  The hue strip rebases to the padded span
/// and clamps to zero on both sides; the other strips anchor to the full
/// width and clamp to the extremes.
pub open spec fn strip_pos(scale: ColorScale, w: int, padding: int, x: int) -> int {
    match scale {
        ColorScale::Hue => {
            if x <= padding || x + padding >= w {
                0
            } else {
                rdiv((x - padding) * FX, w - 2 * padding)
            }
        }
        ColorScale::Saturation | ColorScale::Lightness => {
            if x <= padding {
                0
            } else if x + padding >= w {
                FX as int
            } else {
                rdiv(x * FX, w)
            }
        }
    }
}

/// The color of a strip column: the scale's channel is replaced by the
/// position `t`, the other two are held at the reference color (the hue
/// strip shows full saturation at mid lightness).
pub open spec fn strip_color(scale: ColorScale, c: Hsla, t: int) -> Hsla {
    match scale {
        ColorScale::Hue => Hsla { h: t as u32, s: FX, l: 76500u32, a: FX },
        ColorScale::Saturation => Hsla { h: c.h, s: t as u32, l: c.l, a: FX },
        ColorScale::Lightness => Hsla { h: c.h, s: c.s, l: t as u32, a: FX },
    }
}

/// The four bytes of a strip pixel, in B, G, R, A order with full opacity.
pub open spec fn strip_pixel(scale: ColorScale, w: int, padding: int, c: Hsla, x: int) -> Seq<u8> {
    let p = strip_color(scale, c, strip_pos(scale, w, padding, x));
    seq![
        cv256(num_b(p.h as int, p.s as int, p.l as int)) as u8,
        cv256(num_g(p.h as int, p.s as int, p.l as int)) as u8,
        cv256(num_r(p.h as int, p.s as int, p.l as int)) as u8,
        255u8,
    ]
}

/// Byte `i` of a strip raster: byte `i % 4` of the pixel in column
/// `(i / 4) % w`.
pub open spec fn strip_byte(scale: ColorScale, w: int, padding: int, c: Hsla, i: int) -> u8 {
    strip_pixel(scale, w, padding, c, (i / 4) % w)[i % 4]
}

/// A strip position stays in the unit interval.
pub proof fn lemma_strip_pos_range(scale: ColorScale, w: int, padding: int, x: int)
    requires
        0 <= padding,
        0 <= x < w,
    ensures
        0 <= strip_pos(scale, w, padding, x) <= FX,
{
    match scale {
        ColorScale::Hue => {
            if !(x <= padding || x + padding >= w) {
                lemma_rdiv_bounds((x - padding) * FX, w - 2 * padding);
                assert((x - padding) * FX <= (FX as int) * (w - 2 * padding)) by (nonlinear_arith)
                    requires x - padding <= w - 2 * padding, 0 <= x - padding;
                lemma_rdiv_le((x - padding) * FX, w - 2 * padding, FX as int);
            }
        }
        ColorScale::Saturation | ColorScale::Lightness => {
            if !(x <= padding) && !(x + padding >= w) {
                lemma_rdiv_bounds(x * FX, w);
                assert(x * FX <= (FX as int) * w) by (nonlinear_arith)
                    requires x <= w, 0 <= x;
                lemma_rdiv_le(x * FX, w, FX as int);
            }
        }
    }
}

impl ColorScale {
    /// The whole-unit value this scale reads off a color: hue in degrees,
    /// saturation or lightness in percent.
    pub fn unit(&self, c: Hsla) -> (v: u16)
        ensures
            v == unit_spec(*self, c),
    {
        match *self {
            ColorScale::Hue => {
                let cl: u64 = if c.h > FX { FX as u64 } else { c.h as u64 };
                ((cl * 360) / FX as u64) as u16
            }
            ColorScale::Saturation => {
                let cl: u64 = if c.s > FX { FX as u64 } else { c.s as u64 };
                ((cl * 100) / FX as u64) as u16
            }
            ColorScale::Lightness => {
                let cl: u64 = if c.l > FX { FX as u64 } else { c.l as u64 };
                ((cl * 100) / FX as u64) as u16
            }
        }
    }

    /// The cache dependency rule: does this scale's strip change when the
    /// reference color moves from `c0` to `c1`?  The hue strip never does;
    /// the saturation strip when hue or lightness moved a whole unit; the
    /// lightness strip when hue or saturation did.
    pub fn should_gen_image(&self, c0: Hsla, c1: Hsla) -> (r: bool)
        ensures
            r == should_gen_spec(*self, c0, c1),
    {
        match *self {
            ColorScale::Hue => false,
            ColorScale::Lightness => {
                let hue = ColorScale::Hue;
                let sat = ColorScale::Saturation;
                hue.unit(c0) != hue.unit(c1) || sat.unit(c0) != sat.unit(c1)
            }
            ColorScale::Saturation => {
                let hue = ColorScale::Hue;
                let lig = ColorScale::Lightness;
                hue.unit(c0) != hue.unit(c1) || lig.unit(c0) != lig.unit(c1)
            }
        }
    }
}

/// Mutating only the lightness channel never invalidates the hue strip and
/// invalidates the saturation strip exactly when the displayed lightness
/// moved a whole percent.
pub proof fn lemma_dependency_rule_lightness(c0: Hsla, c1: Hsla)
    requires
        c0.h == c1.h,
        c0.s == c1.s,
    ensures
        !should_gen_spec(ColorScale::Hue, c0, c1),
        should_gen_spec(ColorScale::Saturation, c0, c1)
            == (unit_spec(ColorScale::Lightness, c0) != unit_spec(ColorScale::Lightness, c1)),
        !should_gen_spec(ColorScale::Lightness, c0, c1),
{
}

/// Mutating only the hue channel never invalidates the hue strip and
/// invalidates the saturation and lightness strips exactly when the
/// displayed hue moved a whole degree.
pub proof fn lemma_dependency_rule_hue(c0: Hsla, c1: Hsla)
    requires
        c0.s == c1.s,
        c0.l == c1.l,
    ensures
        !should_gen_spec(ColorScale::Hue, c0, c1),
        should_gen_spec(ColorScale::Saturation, c0, c1)
            == (unit_spec(ColorScale::Hue, c0) != unit_spec(ColorScale::Hue, c1)),
        should_gen_spec(ColorScale::Lightness, c0, c1)
            == (unit_spec(ColorScale::Hue, c0) != unit_spec(ColorScale::Hue, c1)),
{
}

/// An immutable raster: BGRA bytes, row-major.
pub struct GradientImage {
    pub width: u32,
    pub height: u32,
    pub data: Vec<u8>,
}

impl GradientImage {
    /// The buffer holds exactly four bytes per pixel.
    pub open spec fn wf(self) -> bool {
        self.data@.len() == 4 * self.width * self.height
    }

    /// The buffer is the strip raster for the given parameters: row-major,
    /// four bytes per pixel, every byte as `strip_byte` prescribes.
    pub open spec fn is_strip(self, scale: ColorScale, padding: int, c: Hsla) -> bool {
        &&& self.wf()
        &&& forall|i: int| 0 <= i < self.data@.len()
            ==> self.data@[i] == strip_byte(scale, self.width as int, padding, c, i)
    }
}

/// Append one strip pixel to the buffer.
fn push_pixel(data: &mut Vec<u8>, scale: ColorScale, w: u32, padding: u32, c: Hsla, x: u32)
    requires
        c.wf(),
        x < w,
        old(data)@.len() + 4 <= usize::MAX,
    ensures
        final(data)@ == old(data)@ + strip_pixel(scale, w as int, padding as int, c, x as int),
{
    proof {
        lemma_strip_pos_range(scale, w as int, padding as int, x as int);
    }
    let t: u32 = match scale {
        ColorScale::Hue => {
            if x <= padding || x as u64 + padding as u64 >= w as u64 {
                0
            } else {
                rdiv64((x - padding) as u64 * FX as u64, (w - 2 * padding) as u64) as u32
            }
        }
        ColorScale::Saturation | ColorScale::Lightness => {
            if x <= padding {
                0
            } else if x as u64 + padding as u64 >= w as u64 {
                FX
            } else {
                rdiv64(x as u64 * FX as u64, w as u64) as u32
            }
        }
    };
    let p: Hsla = match scale {
        ColorScale::Hue => Hsla { h: t, s: FX, l: 76500, a: FX },
        ColorScale::Saturation => Hsla { h: c.h, s: t, l: c.l, a: FX },
        ColorScale::Lightness => Hsla { h: c.h, s: c.s, l: t, a: FX },
    };
    let (nr, ng, nb) = hsla_channel_nums(p);
    data.push(quant256(nb));
    data.push(quant256(ng));
    data.push(quant256(nr));
    data.push(255);
    assert(data@ =~= old(data)@ + strip_pixel(scale, w as int, padding as int, c, x as int));
}

impl ColorScale {
    /// Rasterize this scale's strip for the given size, padding and
    /// reference color.  Zero width or height gives an empty buffer; the
    /// size cap is a machine limit keeping the byte count within address
    /// range.
    pub fn gen_image(&self, w: u32, h: u32, padding: u32, color: Hsla) -> (img: GradientImage)
        requires
            color.wf(),
            w <= 16384,
            h <= 16384,
        ensures
            img.width == w,
            img.height == h,
            img.is_strip(*self, padding as int, color),
    {
        let mut data: Vec<u8> = Vec::new();
        let mut y: u32 = 0;
        while y < h
            invariant
                y <= h,
                w <= 16384,
                h <= 16384,
                color.wf(),
                data@.len() == 4 * (y * w),
                forall|i: int| 0 <= i < data@.len()
                    ==> data@[i] == strip_byte(*self, w as int, padding as int, color, i),
            decreases h - y,
        {
            let mut x: u32 = 0;
            while x < w
                invariant
                    x <= w,
                    y < h,
                    w <= 16384,
                    h <= 16384,
                    color.wf(),
                    data@.len() == 4 * (y * w + x),
                    forall|i: int| 0 <= i < data@.len()
                        ==> data@[i] == strip_byte(*self, w as int, padding as int, color, i),
                decreases w - x,
            {
                let ghost before = data@;
                proof {
                    assert(y * w + x < 268_435_456) by (nonlinear_arith)
                        requires y < h, h <= 16384, w <= 16384, x < w;
                }
                push_pixel(&mut data, *self, w, padding, color, x);
                proof {
                    let p = y * w + x;
                    let px = strip_pixel(*self, w as int, padding as int, color, x as int);
                    assert forall|i: int| 0 <= i < data@.len()
                        implies data@[i] == strip_byte(*self, w as int, padding as int, color, i) by {
                        if i < before.len() {
                            assert(data@[i] == before[i]);
                        } else {
                            let j = i - 4 * p;
                            assert(data@[i] == px[j]);
                            vstd::arithmetic::div_mod::lemma_fundamental_div_mod_converse(
                                i, 4, p as int, j);
                            vstd::arithmetic::div_mod::lemma_mod_multiples_vanish(
                                y as int, x as int, w as int);
                            vstd::arithmetic::div_mod::lemma_small_mod(x as nat, w as nat);
                            assert((i / 4) % (w as int) == x);
                        }
                    }
                }
                x += 1;
            }
            proof {
                assert((y + 1) * w == y * w + w) by (nonlinear_arith);
            }
            y += 1;
        }
        proof {
            assert(data@.len() == 4 * (w as int) * (h as int)) by (nonlinear_arith)
                requires data@.len() == 4 * ((h as int) * (w as int));
        }
        GradientImage { width: w, height: h, data }
    }
}

/// An `image` crate pixel buffer of BGRA bytes, held opaquely: the raster a
/// paint step consumes.
#[verifier::external_body]
pub struct BgraImage {
    buffer: image::ImageBuffer<image::Bgra<u8>, Vec<u8>>,
}

/// Relies on `image::ImageBuffer::from_raw`: it accepts a container of at
/// least `4 * width * height` bytes for a four-channel pixel type, so an
/// exact-length buffer always wraps without panicking.
#[verifier::external_body]
fn bgra_buffer_from_raw(width: u32, height: u32, data: Vec<u8>) -> BgraImage
    requires
        data@.len() == 4 * width * height,
{
    BgraImage { buffer: image::ImageBuffer::from_raw(width, height, data).unwrap() }
}

impl GradientImage {
    /// Hand the raster to the image crate as a BGRA pixel buffer.
    pub fn into_bgra_image(self) -> BgraImage
        requires
            self.wf(),
    {
        let GradientImage { width, height, data } = self;
        bgra_buffer_from_raw(width, height, data)
    }
}

} // verus!
