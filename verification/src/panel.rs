//! The color input panel: one shared color, three sliders, one palette.
//!
//! The panel owns the current selection.  Every mutation funnels through a
//! single write path that canonicalizes the color, refreshes the palette,
//! and notifies each slider so the cache dependency rule can run; pointer
//! events are routed to one slider and, when they write the shared color,
//! the same synchronous propagation follows.

use vstd::prelude::*;

use crate::color::{canon_spec, from_hsla_spec, is_canonical, normalize_spec, ColorFormat, Hsla};
use crate::fixed::{lemma_rdiv_bounds, lemma_rdiv_le, FX};
use crate::gradient::ColorScale;
use crate::palette::ColorPalette;
use crate::slider::{
    cache_after_change, slider_pos, slider_step, Bounds, ColorSlider, ColorSliderEvent,
    PointerEvent,
};

verus! {

/// The color input panel.
pub struct ColorInputView {
    pub color: ColorFormat,
    pub c: Hsla,
    pub palette: ColorPalette,
    pub hue_slider: ColorSlider,
    pub saturation_slider: ColorSlider,
    pub lightness_slider: ColorSlider,
}

/// The slider of the panel that edits `scale`.
pub open spec fn pick(p: ColorInputView, scale: ColorScale) -> ColorSlider {
    match scale {
        ColorScale::Hue => p.hue_slider,
        ColorScale::Saturation => p.saturation_slider,
        ColorScale::Lightness => p.lightness_slider,
    }
}

/// A slider position stays in the unit interval.
pub proof fn lemma_slider_pos_range(b: Bounds, padding: int, px: int)
    ensures
        0 <= slider_pos(b, padding, px) <= FX,
{
    let rel = px - b.x - padding;
    let den = b.width - 2 * padding;
    if !(den <= 0 || rel <= 0) && !(rel >= den) {
        lemma_rdiv_bounds(rel * FX, den);
        assert(rel * FX <= (FX as int) * den) by (nonlinear_arith)
            requires 0 <= rel <= den;
        lemma_rdiv_le(rel * FX, den, FX as int);
    }
}

impl ColorInputView {
    /// The bridge value and palette mirror the color, and each slider edits
    /// its own scale.
    pub open spec fn wf(self) -> bool {
        &&& self.c.wf()
        &&& self.palette.base.wf()
        &&& self.hue_slider.scale == ColorScale::Hue
        &&& self.saturation_slider.scale == ColorScale::Saturation
        &&& self.lightness_slider.scale == ColorScale::Lightness
    }

    /// A fresh panel around a starting color.
    pub fn new(color: ColorFormat) -> (p: ColorInputView)
        ensures
            p.wf(),
            p.color == color,
            p.c == canon_spec(normalize_spec(color)),
            p.palette.base == p.c,
            p.palette.hue_shift == 0,
            p.hue_slider == ColorSlider::new_spec(ColorScale::Hue, p.c),
            p.saturation_slider == ColorSlider::new_spec(ColorScale::Saturation, p.c),
            p.lightness_slider == ColorSlider::new_spec(ColorScale::Lightness, p.c),
    {
        let c = color.canonicalize();
        ColorInputView {
            color,
            c,
            palette: ColorPalette::from(c),
            hue_slider: ColorSlider::new(ColorScale::Hue, c),
            saturation_slider: ColorSlider::new(ColorScale::Saturation, c),
            lightness_slider: ColorSlider::new(ColorScale::Lightness, c),
        }
    }

    /// The single write path: set the current color, refresh the bridge
    /// value and palette, and notify every slider so its cache honours the
    /// dependency rule.
    pub fn set_color(&mut self, color: ColorFormat)
        requires
            old(self).wf(),
        ensures
            final(self).wf(),
            final(self).color == color,
            final(self).c == canon_spec(normalize_spec(color)),
            final(self).palette.base == final(self).c,
            final(self).palette.hue_shift == 0,
            final(self).hue_slider.prev_color == final(self).c,
            final(self).saturation_slider.prev_color == final(self).c,
            final(self).lightness_slider.prev_color == final(self).c,
            final(self).hue_slider.image == cache_after_change(old(self).hue_slider, final(self).c),
            final(self).saturation_slider.image
                == cache_after_change(old(self).saturation_slider, final(self).c),
            final(self).lightness_slider.image
                == cache_after_change(old(self).lightness_slider, final(self).c),
            final(self).hue_slider.bounds == old(self).hue_slider.bounds,
            final(self).saturation_slider.bounds == old(self).saturation_slider.bounds,
            final(self).lightness_slider.bounds == old(self).lightness_slider.bounds,
            final(self).hue_slider.dragging == old(self).hue_slider.dragging,
            final(self).saturation_slider.dragging == old(self).saturation_slider.dragging,
            final(self).lightness_slider.dragging == old(self).lightness_slider.dragging,
    {
        let c = color.canonicalize();
        self.color = color;
        self.c = c;
        self.palette = ColorPalette::from(c);
        self.hue_slider.handle_color_change(c);
        self.saturation_slider.handle_color_change(c);
        self.lightness_slider.handle_color_change(c);
    }

    /// Replace the selection with a random HSL color through the single
    /// write path.
    pub fn new_random_color(&mut self)
        requires
            old(self).wf(),
        ensures
            final(self).wf(),
            is_canonical(final(self).color),
            final(self).color matches ColorFormat::Hsl(_, _, _),
            final(self).c == canon_spec(final(self).color),
            final(self).palette.base == final(self).c,
            final(self).hue_slider.prev_color == final(self).c,
            final(self).saturation_slider.prev_color == final(self).c,
            final(self).lightness_slider.prev_color == final(self).c,
    {
        let color = ColorFormat::random_hsl();
        proof {
            crate::color::lemma_normalize_canonical(color);
        }
        self.set_color(color);
    }

    /// Route a pointer event to the slider that edits `scale`.  When the
    /// event writes the shared color, the write propagates synchronously:
    /// the displayed color and the palette follow it, and every slider's
    /// cache obeys the dependency rule.  Returns whether the color changed.
    pub fn handle_pointer(&mut self, scale: ColorScale, ev: PointerEvent) -> (changed: bool)
        requires
            old(self).wf(),
        ensures
            final(self).wf(),
            ({
                let (drag2, c2, ch) = slider_step(pick(*old(self), scale), old(self).c, ev);
                &&& changed == ch
                &&& pick(*final(self), scale).dragging == drag2
                &&& (scale != ColorScale::Hue
                    ==> final(self).hue_slider.dragging == old(self).hue_slider.dragging)
                &&& (scale != ColorScale::Saturation
                    ==> final(self).saturation_slider.dragging
                        == old(self).saturation_slider.dragging)
                &&& (scale != ColorScale::Lightness
                    ==> final(self).lightness_slider.dragging
                        == old(self).lightness_slider.dragging)
                &&& final(self).c == (if ch { c2 } else { old(self).c })
                &&& final(self).color == (if ch { from_hsla_spec(c2) } else { old(self).color })
                &&& (ch ==> {
                    &&& final(self).palette.base == c2
                    &&& final(self).palette.hue_shift == 0
                    &&& final(self).hue_slider.prev_color == c2
                    &&& final(self).saturation_slider.prev_color == c2
                    &&& final(self).lightness_slider.prev_color == c2
                    &&& final(self).hue_slider.image
                        == cache_after_change(old(self).hue_slider, c2)
                    &&& final(self).saturation_slider.image
                        == cache_after_change(old(self).saturation_slider, c2)
                    &&& final(self).lightness_slider.image
                        == cache_after_change(old(self).lightness_slider, c2)
                })
                &&& (!ch ==> {
                    &&& final(self).palette == old(self).palette
                    &&& final(self).hue_slider.prev_color == old(self).hue_slider.prev_color
                    &&& final(self).saturation_slider.prev_color
                        == old(self).saturation_slider.prev_color
                    &&& final(self).lightness_slider.prev_color
                        == old(self).lightness_slider.prev_color
                    &&& final(self).hue_slider.image == old(self).hue_slider.image
                    &&& final(self).saturation_slider.image == old(self).saturation_slider.image
                    &&& final(self).lightness_slider.image == old(self).lightness_slider.image
                })
            }),
            final(self).hue_slider.bounds == old(self).hue_slider.bounds,
            final(self).saturation_slider.bounds == old(self).saturation_slider.bounds,
            final(self).lightness_slider.bounds == old(self).lightness_slider.bounds,
    {
        let event = match scale {
            ColorScale::Hue => self.hue_slider.handle_pointer_event(&mut self.c, ev),
            ColorScale::Saturation => self.saturation_slider.handle_pointer_event(&mut self.c, ev),
            ColorScale::Lightness => self.lightness_slider.handle_pointer_event(&mut self.c, ev),
        };
        let changed = match event {
            Some(ColorSliderEvent::ColorChanged(_)) => true,
            None => false,
        };
        if changed {
            proof {
                let sel = pick(*old(self), scale);
                if sel.bounds is Some {
                    let b = sel.bounds->Some_0;
                    match ev {
                        PointerEvent::Down { x, .. } => {
                            lemma_slider_pos_range(b, sel.padding as int, x as int);
                        }
                        PointerEvent::Move { x, .. } => {
                            lemma_slider_pos_range(b, sel.padding as int, x as int);
                        }
                        PointerEvent::Up => {}
                    }
                }
            }
            let c2 = self.c;
            self.hue_slider.handle_color_change(c2);
            self.saturation_slider.handle_color_change(c2);
            self.lightness_slider.handle_color_change(c2);
            self.color = ColorFormat::from_hsla(c2);
            self.palette = ColorPalette::from(c2);
        }
        changed
    }

    /// A layout pass for the slider that edits `scale`: remember its bounds
    /// and regenerate its raster when the size changed or none is cached.
    pub fn layout_slider(&mut self, scale: ColorScale, bounds: Bounds, scale_factor: u32)
        requires
            old(self).wf(),
            bounds.width * scale_factor <= 16384,
            bounds.height * scale_factor <= 16384,
            pick(*old(self), scale).padding * scale_factor <= u32::MAX,
        ensures
            final(self).wf(),
            pick(*final(self), scale).bounds == Some(bounds),
            final(self).c == old(self).c,
            final(self).color == old(self).color,
            final(self).palette == old(self).palette,
    {
        match scale {
            ColorScale::Hue => self.hue_slider.update_layout(bounds, scale_factor, self.c),
            ColorScale::Saturation => self.saturation_slider.update_layout(bounds, scale_factor, self.c),
            ColorScale::Lightness => self.lightness_slider.update_layout(bounds, scale_factor, self.c),
        }
    }
}

} // verus!
