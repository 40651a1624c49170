//! The color slider: a cached gradient strip acting as a pointer-driven
//! input control.
//!
//! The slider is a two-state machine, idle or dragging.  A pointer-down
//! inside the extended hit region starts a drag and immediately applies the
//! position as the new channel value; every move with the primary button
//! held applies the value again; a move with the button released, or a
//! pointer-up, ends the drag without changing the value.  The button state
//! carried by a move event is the source of truth: a move with the button
//! held re-synchronizes a slider whose own drag flag went stale, so a lost
//! pointer-down cannot wedge the control.  Before the first layout pass the
//! slider has no bounds and ignores pointer events entirely.

use vstd::prelude::*;

use crate::color::Hsla;
use crate::fixed::{lemma_rdiv_bounds, lemma_rdiv_le, rdiv, rdiv64, FX};
use crate::gradient::{should_gen_spec, ColorScale, GradientImage};

verus! {

/// Layout bounds of the slider's track, in the pointer's coordinate space.
#[derive(Copy, Clone, Debug, PartialEq, Eq, Structural)]
pub struct Bounds {
    pub x: i32,
    pub y: i32,
    pub width: u32,
    pub height: u32,
}

/// The notification a slider sends when it writes the shared color.
#[derive(Copy, Clone, Debug, PartialEq, Eq, Structural)]
pub enum ColorSliderEvent {
    ColorChanged(Hsla),
}

/// A pointer event as the slider sees it: `held` on a move reports whether
/// the primary button is currently down.
#[derive(Copy, Clone, Debug, PartialEq, Eq, Structural)]
pub enum PointerEvent {
    Down { x: i32, y: i32 },
    Move { x: i32, y: i32, held: bool },
    Up,
}

/// The extended hit region: the track rectangle inflated horizontally by
/// the rendering padding and vertically by half the overhang of the thumb
/// over the track (comparisons are doubled so the halves stay exact).
pub open spec fn in_hit_region(b: Bounds, thumb_size: int, padding: int, px: int, py: int) -> bool {
    &&& b.x - padding <= px <= b.x + b.width + padding
    &&& 2 * b.y - (thumb_size - b.height) <= 2 * py
    &&& 2 * py <= 2 * (b.y + b.height) + (thumb_size - b.height)
}

/// Normalized slider position of pointer column `px`: the offset from the
/// track's left edge minus padding, over the track width less both pads,
/// clamped to the unit interval (zero when the padded span is empty).
pub open spec fn slider_pos(b: Bounds, padding: int, px: int) -> int {
    let rel = px - b.x - padding;
    let den = b.width - 2 * padding;
    if den <= 0 || rel <= 0 {
        0
    } else if rel >= den {
        FX as int
    } else {
        rdiv(rel * FX, den)
    }
}

/// The reference color with the scale's channel replaced by `t`.
pub open spec fn apply_channel(scale: ColorScale, c: Hsla, t: int) -> Hsla {
    match scale {
        ColorScale::Hue => Hsla { h: t as u32, ..c },
        ColorScale::Saturation => Hsla { s: t as u32, ..c },
        ColorScale::Lightness => Hsla { l: t as u32, ..c },
    }
}

/// Per-slider state: the scale it edits, the last color it saw, rendering
/// paddings, the last layout bounds, the cached raster, and the drag flag.
pub struct ColorSlider {
    pub scale: ColorScale,
    pub prev_color: Hsla,
    pub padding: u32,
    pub thumb_size: u32,
    pub bounds: Option<Bounds>,
    pub image: Option<GradientImage>,
    pub dragging: bool,
}

/// What a pointer event does to a slider: the drag flag after the event,
/// the color after it, and whether the color was written.
pub open spec fn slider_step(s: ColorSlider, color: Hsla, ev: PointerEvent) -> (bool, Hsla, bool) {
    match s.bounds {
        None => (s.dragging, color, false),
        Some(b) => match ev {
            PointerEvent::Down { x, y } => {
                if in_hit_region(b, s.thumb_size as int, s.padding as int, x as int, y as int) {
                    (true, apply_channel(s.scale, color, slider_pos(b, s.padding as int, x as int)), true)
                } else {
                    (s.dragging, color, false)
                }
            }
            PointerEvent::Move { x, y: _, held } => {
                if held {
                    (true, apply_channel(s.scale, color, slider_pos(b, s.padding as int, x as int)), true)
                } else {
                    (false, color, false)
                }
            }
            PointerEvent::Up => (false, color, false),
        },
    }
}

/// The fixed-point channel value a scale reads off a color.
pub open spec fn channel_fx(scale: ColorScale, c: Hsla) -> int {
    match scale {
        ColorScale::Hue => c.h as int,
        ColorScale::Saturation => c.s as int,
        ColorScale::Lightness => c.l as int,
    }
}

/// Where the thumb's left edge sits for the current value: the value mapped
/// over the track width less both pads, shifted left by half the thumb and
/// right by one padding.  Zero before the first layout pass.
pub open spec fn thumb_x_spec(s: ColorSlider, c: Hsla) -> int {
    match s.bounds {
        None => 0,
        Some(b) => {
            let range = if b.width >= 2 * s.padding { b.width - 2 * s.padding } else { 0 };
            rdiv(channel_fx(s.scale, c) * range, FX as int) - s.thumb_size / 2 + s.padding
        }
    }
}

/// The cached raster after a color change: dropped exactly when the
/// dependency rule says this scale's strip changed.
pub open spec fn cache_after_change(s: ColorSlider, c: Hsla) -> Option<GradientImage> {
    if should_gen_spec(s.scale, s.prev_color, c) { None } else { s.image }
}

impl ColorSlider {
    /// The state a fresh slider starts in.
    pub open spec fn new_spec(scale: ColorScale, color: Hsla) -> ColorSlider {
        ColorSlider {
            scale,
            prev_color: color,
            padding: 4u32,
            thumb_size: 20u32,
            bounds: None,
            image: None,
            dragging: false,
        }
    }

    /// A fresh slider for one scale: no layout yet, no cached raster, not
    /// dragging, with the fixed track padding and thumb size.
    pub fn new(scale: ColorScale, color: Hsla) -> (s: ColorSlider)
        ensures
            s == ColorSlider::new_spec(scale, color),
            s.scale == scale,
            s.prev_color == color,
            s.padding == 4,
            s.thumb_size == 20,
            s.bounds is None,
            s.image is None,
            !s.dragging,
    {
        ColorSlider {
            scale,
            prev_color: color,
            padding: 4,
            thumb_size: 20,
            bounds: None,
            image: None,
            dragging: false,
        }
    }

    /// React to the shared color changing: drop the cached raster when the
    /// dependency rule requires a regeneration, keep it otherwise, and
    /// remember the new color.
    pub fn handle_color_change(&mut self, c: Hsla)
        ensures
            final(self).prev_color == c,
            final(self).image == cache_after_change(*old(self), c),
            final(self).scale == old(self).scale,
            final(self).padding == old(self).padding,
            final(self).thumb_size == old(self).thumb_size,
            final(self).bounds == old(self).bounds,
            final(self).dragging == old(self).dragging,
    {
        if self.scale.should_gen_image(self.prev_color, c) {
            self.image = None;
        }
        self.prev_color = c;
    }

    /// Feed one pointer event to the slider; the shared color is written
    /// through `color`.  Returns the change notification when the color was
    /// written (a caller hands it to observers exactly then).  Events
    /// before the first layout pass are ignored.
    pub fn handle_pointer_event(&mut self, color: &mut Hsla, ev: PointerEvent)
        -> (r: Option<ColorSliderEvent>)
        ensures
            ({
                let (drag2, c2, ch) = slider_step(*old(self), *old(color), ev);
                &&& final(self).dragging == drag2
                &&& *final(color) == c2
                &&& r == (if ch { Some(ColorSliderEvent::ColorChanged(c2)) } else { None::<ColorSliderEvent> })
            }),
            final(self).scale == old(self).scale,
            final(self).prev_color == old(self).prev_color,
            final(self).padding == old(self).padding,
            final(self).thumb_size == old(self).thumb_size,
            final(self).bounds == old(self).bounds,
            final(self).image == old(self).image,
    {
        let b = match self.bounds {
            None => { return None; }
            Some(b) => b,
        };
        match ev {
            PointerEvent::Down { x, y } => {
                let bx = b.x as i64;
                let by = b.y as i64;
                let bw = b.width as i64;
                let bh = b.height as i64;
                let pad = self.padding as i64;
                let th = self.thumb_size as i64;
                let hit = bx - pad <= x as i64 && x as i64 <= bx + bw + pad
                    && 2 * by - (th - bh) <= 2 * (y as i64)
                    && 2 * (y as i64) <= 2 * (by + bh) + (th - bh);
                if !hit {
                    return None;
                }
                self.dragging = true;
                self.apply_position(color, b, x);
                Some(ColorSliderEvent::ColorChanged(*color))
            }
            PointerEvent::Move { x, y: _, held } => {
                if held {
                    self.dragging = true;
                    self.apply_position(color, b, x);
                    Some(ColorSliderEvent::ColorChanged(*color))
                } else {
                    self.dragging = false;
                    None
                }
            }
            PointerEvent::Up => {
                self.dragging = false;
                None
            }
        }
    }

    /// Write the channel value for pointer column `x` into the color.
    fn apply_position(&self, color: &mut Hsla, b: Bounds, x: i32)
        ensures
            *final(color) == apply_channel(
                self.scale, *old(color), slider_pos(b, self.padding as int, x as int)),
    {
        let rel: i64 = x as i64 - b.x as i64 - self.padding as i64;
        let den: i64 = b.width as i64 - 2 * self.padding as i64;
        let t: u32 = if den <= 0 || rel <= 0 {
            0
        } else if rel >= den {
            FX
        } else {
            proof {
                lemma_rdiv_bounds(rel as int * FX, den as int);
                assert(rel as int * FX <= (FX as int) * (den as int)) by (nonlinear_arith)
                    requires 0 <= rel as int <= den as int;
                lemma_rdiv_le(rel as int * FX, den as int, FX as int);
            }
            rdiv64(rel as u64 * FX as u64, den as u64) as u32
        };
        match self.scale {
            ColorScale::Hue => { color.h = t; }
            ColorScale::Saturation => { color.s = t; }
            ColorScale::Lightness => { color.l = t; }
        }
    }
}

impl ColorSlider {
    /// Pixel offset of the thumb's left edge for the current color, relative
    /// to the track's left edge.
    pub fn thumb_x(&self, c: Hsla) -> (x: i64)
        requires
            c.wf(),
        ensures
            x == thumb_x_spec(*self, c),
    {
        let b = match self.bounds {
            None => { return 0; }
            Some(b) => b,
        };
        let range: u32 = if b.width as u64 >= 2 * self.padding as u64 {
            (b.width as u64 - 2 * self.padding as u64) as u32
        } else {
            0
        };
        let t: u64 = match self.scale {
            ColorScale::Hue => c.h as u64,
            ColorScale::Saturation => c.s as u64,
            ColorScale::Lightness => c.l as u64,
        };
        proof {
            if range > 0 {
                lemma_rdiv_bounds(t as int * range, FX as int);
                assert(t as int * range <= (range as int) * (FX as int)) by (nonlinear_arith)
                    requires 0 <= (t as int) <= FX, 0 <= range;
                lemma_rdiv_le(t as int * range, FX as int, range as int);
            } else {
                assert(t as int * 0 == 0) by (nonlinear_arith);
                lemma_rdiv_le(t as int * range, FX as int, 0);
                lemma_rdiv_bounds(t as int * range, FX as int);
            }
        }
        let scaled: u64 = rdiv64(t * range as u64, FX as u64);
        scaled as i64 - (self.thumb_size / 2) as i64 + self.padding as i64
    }

}

/// Hit-test inflation: with the pointer horizontally over the track, a
/// pointer-down whose vertical offset is within the thumb's overhang above
/// or below the track still starts a drag and applies the value; one beyond
/// the inflated region is a no-op.
pub proof fn lemma_hit_inflation(s: ColorSlider, color: Hsla, b: Bounds, x: i32, y: i32)
    requires
        s.bounds == Some(b),
        !s.dragging,
        b.x <= x <= b.x + b.width,
    ensures
        2 * b.y - (s.thumb_size - b.height) <= 2 * y
            && 2 * y <= 2 * (b.y + b.height) + (s.thumb_size - b.height)
            ==> slider_step(s, color, PointerEvent::Down { x, y })
                == (true, apply_channel(s.scale, color, slider_pos(b, s.padding as int, x as int)), true),
        2 * y < 2 * b.y - (s.thumb_size - b.height)
            || 2 * y > 2 * (b.y + b.height) + (s.thumb_size - b.height)
            ==> slider_step(s, color, PointerEvent::Down { x, y }) == (false, color, false),
{
}

/// Drag re-synchronization: a move event that reports the button held is
/// honored even when the slider's own drag flag is false; the slider
/// transitions to dragging and applies the value instead of ignoring the
/// event.
pub proof fn lemma_drag_resync(s: ColorSlider, color: Hsla, b: Bounds, x: i32, y: i32)
    requires
        s.bounds == Some(b),
        !s.dragging,
    ensures
        slider_step(s, color, PointerEvent::Move { x, y, held: true })
            == (true, apply_channel(s.scale, color, slider_pos(b, s.padding as int, x as int)), true),
{
}

/// The cache dependency rule seen from the caches themselves: a change
/// that moves only the lightness channel always leaves a hue slider's
/// raster in place, and empties a saturation slider's raster exactly when
/// the displayed lightness moved; a change that moves only the hue channel
/// never empties a hue slider's raster, and empties saturation and
/// lightness rasters exactly when the displayed hue moved.
pub proof fn lemma_cache_dependency(s: ColorSlider, c: Hsla)
    ensures
        s.prev_color.h == c.h && s.prev_color.s == c.s && s.scale == ColorScale::Hue
            ==> cache_after_change(s, c) == s.image,
        s.prev_color.h == c.h && s.prev_color.s == c.s && s.scale == ColorScale::Saturation
            ==> cache_after_change(s, c) == if crate::gradient::unit_spec(ColorScale::Lightness, s.prev_color)
                    != crate::gradient::unit_spec(ColorScale::Lightness, c) { None::<GradientImage> } else { s.image },
        s.prev_color.s == c.s && s.prev_color.l == c.l && s.scale == ColorScale::Hue
            ==> cache_after_change(s, c) == s.image,
        s.prev_color.s == c.s && s.prev_color.l == c.l && s.scale == ColorScale::Saturation
            ==> cache_after_change(s, c) == if crate::gradient::unit_spec(ColorScale::Hue, s.prev_color)
                    != crate::gradient::unit_spec(ColorScale::Hue, c) { None::<GradientImage> } else { s.image },
        s.prev_color.s == c.s && s.prev_color.l == c.l && s.scale == ColorScale::Lightness
            ==> cache_after_change(s, c) == if crate::gradient::unit_spec(ColorScale::Hue, s.prev_color)
                    != crate::gradient::unit_spec(ColorScale::Hue, c) { None::<GradientImage> } else { s.image },
{
}

impl ColorSlider {
    /// A layout pass: remember the bounds and regenerate the raster when
    /// the track size changed or no raster is cached; otherwise keep the
    /// cached raster untouched.  Requested sizes scale by the surface's
    /// scale factor; the caps are machine limits on the raster size.
    pub fn update_layout(&mut self, bounds: Bounds, scale_factor: u32, color: Hsla)
        requires
            color.wf(),
            bounds.width * scale_factor <= 16384,
            bounds.height * scale_factor <= 16384,
            old(self).padding * scale_factor <= u32::MAX,
        ensures
            final(self).bounds == Some(bounds),
            ({
                let dirty = match old(self).bounds {
                    None => true,
                    Some(b) => b.width != bounds.width || b.height != bounds.height,
                };
                if dirty || old(self).image is None {
                    final(self).image matches Some(img)
                        && img.width == bounds.width * scale_factor
                        && img.height == bounds.height * scale_factor
                        && img.is_strip(
                            old(self).scale,
                            old(self).padding * scale_factor,
                            color,
                        )
                } else {
                    final(self).image == old(self).image
                }
            }),
            final(self).scale == old(self).scale,
            final(self).prev_color == old(self).prev_color,
            final(self).padding == old(self).padding,
            final(self).thumb_size == old(self).thumb_size,
            final(self).dragging == old(self).dragging,
    {
        let dirty = match self.bounds {
            None => true,
            Some(b) => b.width != bounds.width || b.height != bounds.height,
        };
        if dirty || self.image.is_none() {
            let img = self.scale.gen_image(
                bounds.width * scale_factor,
                bounds.height * scale_factor,
                self.padding * scale_factor,
                color,
            );
            self.image = Some(img);
        }
        self.bounds = Some(bounds);
    }
}

} // verus!
