//! Slider tests: hit region, drag state machine, cache dependency rule,
//! strip rasterisation, and the end-to-end pointer scenario.

use uicolors::color::ColorFormat;
use uicolors::gradient::ColorScale;
use uicolors::panel::ColorInputView;
use uicolors::slider::{Bounds, ColorSlider, PointerEvent};

fn track() -> Bounds {
    Bounds { x: 0, y: 100, width: 300, height: 10 }
}

fn panel_with_layouts() -> ColorInputView {
    let mut p = ColorInputView::new(ColorFormat::Hsl(200, 50, 50));
    p.layout_slider(ColorScale::Hue, track(), 1);
    p.layout_slider(ColorScale::Saturation, track(), 1);
    p.layout_slider(ColorScale::Lightness, track(), 1);
    p
}

#[test]
fn units_read_whole_degrees_and_percent() {
    let c = ColorFormat::Hsl(200, 50, 50).canonicalize();
    assert_eq!(ColorScale::Hue.unit(c), 200);
    assert_eq!(ColorScale::Saturation.unit(c), 50);
    assert_eq!(ColorScale::Lightness.unit(c), 50);
}

#[test]
fn dependency_rule_matrix() {
    let c0 = ColorFormat::Hsl(200, 50, 50).canonicalize();
    let lighter = ColorFormat::Hsl(200, 50, 60).canonicalize();
    let rehued = ColorFormat::Hsl(210, 50, 50).canonicalize();
    let resat = ColorFormat::Hsl(200, 60, 50).canonicalize();
    // The hue strip never regenerates.
    assert!(!ColorScale::Hue.should_gen_image(c0, lighter));
    assert!(!ColorScale::Hue.should_gen_image(c0, rehued));
    assert!(!ColorScale::Hue.should_gen_image(c0, resat));
    // The saturation strip follows hue and lightness, not saturation.
    assert!(ColorScale::Saturation.should_gen_image(c0, lighter));
    assert!(ColorScale::Saturation.should_gen_image(c0, rehued));
    assert!(!ColorScale::Saturation.should_gen_image(c0, resat));
    // The lightness strip follows hue and saturation, not lightness.
    assert!(!ColorScale::Lightness.should_gen_image(c0, lighter));
    assert!(ColorScale::Lightness.should_gen_image(c0, rehued));
    assert!(ColorScale::Lightness.should_gen_image(c0, resat));
}

#[test]
fn cache_follows_dependency_rule() {
    let mut p = panel_with_layouts();
    assert!(p.hue_slider.image.is_some());
    assert!(p.saturation_slider.image.is_some());
    assert!(p.lightness_slider.image.is_some());
    let hue_bytes = match &p.hue_slider.image {
        Some(img) => img.data.clone(),
        None => panic!("expected a cached raster"),
    };
    // Mutating only the lightness keeps the hue raster (same content) and
    // drops the saturation raster, not the lightness one.
    p.set_color(ColorFormat::Hsl(200, 50, 60));
    match &p.hue_slider.image {
        Some(img) => assert_eq!(img.data, hue_bytes),
        None => panic!("the hue raster must survive a lightness change"),
    }
    assert!(p.saturation_slider.image.is_none());
    assert!(p.lightness_slider.image.is_some());

    // Regenerate, then mutate only the hue: saturation and lightness drop,
    // the hue raster never does.
    let mut p = panel_with_layouts();
    p.set_color(ColorFormat::Hsl(210, 50, 50));
    assert!(p.hue_slider.image.is_some());
    assert!(p.saturation_slider.image.is_none());
    assert!(p.lightness_slider.image.is_none());
}

#[test]
fn layout_reuses_raster_for_unchanged_size() {
    let mut p = panel_with_layouts();
    let before = match &p.hue_slider.image {
        Some(img) => img.data.clone(),
        None => panic!("expected a cached raster"),
    };
    // Same size again: the cached raster stays.
    p.layout_slider(ColorScale::Hue, Bounds { x: 7, y: 9, width: 300, height: 10 }, 1);
    match &p.hue_slider.image {
        Some(img) => assert_eq!(img.data, before),
        None => panic!("expected the cached raster to survive"),
    }
    // A new width regenerates.
    p.layout_slider(ColorScale::Hue, Bounds { x: 7, y: 9, width: 150, height: 10 }, 1);
    match &p.hue_slider.image {
        Some(img) => {
            assert_eq!(img.width, 150);
            assert_eq!(img.data.len(), 4 * 150 * 10);
        }
        None => panic!("expected a fresh raster"),
    }
}

#[test]
fn hit_inflation_starts_drag_near_track() {
    // Thumb is 20px on a 10px track: 5px of overhang above and below.
    let mut p = panel_with_layouts();
    // Inside the inflated region but above the visual track.
    let changed = p.handle_pointer(ColorScale::Hue, PointerEvent::Down { x: 150, y: 96 });
    assert!(changed);
    assert!(p.hue_slider.dragging);
}

#[test]
fn hit_beyond_inflation_is_ignored() {
    let mut p = panel_with_layouts();
    let before = p.color;
    let changed = p.handle_pointer(ColorScale::Hue, PointerEvent::Down { x: 150, y: 120 });
    assert!(!changed);
    assert!(!p.hue_slider.dragging);
    assert_eq!(p.color, before);
    // Horizontal inflation is one padding: x == -4 still hits, x == -5 not.
    assert!(p.handle_pointer(ColorScale::Hue, PointerEvent::Down { x: -4, y: 105 }));
    let mut p = panel_with_layouts();
    assert!(!p.handle_pointer(ColorScale::Hue, PointerEvent::Down { x: -5, y: 105 }));
}

#[test]
fn pointer_before_layout_is_a_no_op() {
    let mut p = ColorInputView::new(ColorFormat::Hsl(200, 50, 50));
    let before = p.color;
    assert!(!p.handle_pointer(ColorScale::Saturation, PointerEvent::Down { x: 150, y: 105 }));
    assert!(!p.saturation_slider.dragging);
    assert_eq!(p.color, before);
}

#[test]
fn click_sets_saturation_end_to_end() {
    // Track width 300, padding 4, pointer-down at normalized x = 0.25:
    // new saturation is round(((0.25 * 300 - 4) / (300 - 8)) * 100) = 24,
    // hue and lightness stay at 200 and 50.
    let mut p = panel_with_layouts();
    let changed = p.handle_pointer(ColorScale::Saturation, PointerEvent::Down { x: 75, y: 105 });
    assert!(changed);
    assert!(p.saturation_slider.dragging);
    assert_eq!(p.color, ColorFormat::Hsl(200, 24, 50));
}

#[test]
fn drag_applies_every_move_while_held() {
    let mut p = panel_with_layouts();
    assert!(p.handle_pointer(ColorScale::Lightness, PointerEvent::Down { x: 150, y: 105 }));
    assert!(p.handle_pointer(ColorScale::Lightness, PointerEvent::Move { x: 300, y: 400, held: true }));
    // Far beyond the right edge the value clamps to the maximum.
    assert_eq!(p.color, ColorFormat::Hsl(200, 50, 100));
    assert!(p.handle_pointer(ColorScale::Lightness, PointerEvent::Move { x: -900, y: 0, held: true }));
    assert_eq!(p.color, ColorFormat::Hsl(200, 50, 0));
}

#[test]
fn release_ends_drag_without_value_change() {
    let mut p = panel_with_layouts();
    assert!(p.handle_pointer(ColorScale::Saturation, PointerEvent::Down { x: 75, y: 105 }));
    let before = p.color;
    assert!(!p.handle_pointer(ColorScale::Saturation, PointerEvent::Up));
    assert!(!p.saturation_slider.dragging);
    assert_eq!(p.color, before);
    // A move with the button released also ends the drag, silently.
    assert!(p.handle_pointer(ColorScale::Saturation, PointerEvent::Down { x: 75, y: 105 }));
    assert!(!p.handle_pointer(ColorScale::Saturation, PointerEvent::Move { x: 200, y: 105, held: false }));
    assert!(!p.saturation_slider.dragging);
    assert_eq!(p.color, before);
}

#[test]
fn move_with_button_held_resyncs_a_stale_drag_flag() {
    // The pointer-down was lost: the drag flag is false, but a move arrives
    // with the button held.  The slider must transition to dragging and
    // apply the value rather than ignore the event.
    let mut p = panel_with_layouts();
    assert!(!p.saturation_slider.dragging);
    let changed = p.handle_pointer(
        ColorScale::Saturation,
        PointerEvent::Move { x: 75, y: 105, held: true },
    );
    assert!(changed);
    assert!(p.saturation_slider.dragging);
    assert_eq!(p.color, ColorFormat::Hsl(200, 24, 50));
}

#[test]
fn hue_strip_pixels() {
    // A 4x1 hue strip with padding 1: both edges clamp to hue zero (red),
    // and the interior column at half span is cyan.  Bytes are B,G,R,A.
    let c = ColorFormat::Hsl(200, 50, 50).canonicalize();
    let img = ColorScale::Hue.gen_image(4, 1, 1, c);
    assert_eq!(img.width, 4);
    assert_eq!(img.height, 1);
    assert_eq!(
        img.data,
        vec![
            0, 0, 255, 255, // x = 0: clamped to red
            0, 0, 255, 255, // x = 1: still the left pad
            255, 255, 0, 255, // x = 2: half span, cyan
            0, 0, 255, 255, // x = 3: right pad clamps to red again
        ]
    );
}

#[test]
fn saturation_strip_anchors_to_full_width() {
    // Gray reference at mid lightness; padding 1 on width 4.  The edges
    // clamp to zero and full saturation; the interior position is x/width,
    // anchored to the full width, not the padded span.
    let c = ColorFormat::Hsl(0, 0, 50).canonicalize();
    let img = ColorScale::Saturation.gen_image(4, 1, 1, c);
    // x = 0: saturation 0 at lightness 1/2: mid gray, 256 * 0.5 = 128.
    assert_eq!(&img.data[0..4], &[128, 128, 128, 255]);
    // x = 2: saturation 1/2 of a red hue at mid lightness.
    assert_eq!(&img.data[8..12], &[64, 64, 192, 255]);
    // x = 3: clamps to full saturation: pure red.
    assert_eq!(&img.data[12..16], &[0, 0, 255, 255]);
}

#[test]
fn lightness_strip_rows_repeat() {
    let c = ColorFormat::Hsl(200, 50, 50).canonicalize();
    let img = ColorScale::Lightness.gen_image(6, 3, 1, c);
    assert_eq!(img.data.len(), 4 * 6 * 3);
    let row = &img.data[0..24];
    assert_eq!(&img.data[24..48], row);
    assert_eq!(&img.data[48..72], row);
}

#[test]
fn empty_strip_is_an_empty_buffer() {
    let c = ColorFormat::Hsl(200, 50, 50).canonicalize();
    let img = ColorScale::Hue.gen_image(0, 5, 4, c);
    assert_eq!(img.data.len(), 0);
    let img = ColorScale::Hue.gen_image(5, 0, 4, c);
    assert_eq!(img.data.len(), 0);
}

#[test]
fn raster_wraps_into_an_image_buffer() {
    let c = ColorFormat::Hsl(200, 50, 50).canonicalize();
    let img = ColorScale::Hue.gen_image(8, 2, 1, c);
    let _buffer = img.into_bgra_image();
}

#[test]
fn fresh_slider_has_no_state() {
    let c = ColorFormat::Hsl(200, 50, 50).canonicalize();
    let s = ColorSlider::new(ColorScale::Hue, c);
    assert!(s.bounds.is_none());
    assert!(s.image.is_none());
    assert!(!s.dragging);
    assert_eq!(s.padding, 4);
    assert_eq!(s.thumb_size, 20);
}

#[test]
fn panel_new_random_color_is_canonical() {
    let mut p = ColorInputView::new(ColorFormat::Hsl(200, 50, 50));
    for _ in 0..20 {
        p.new_random_color();
        match p.color {
            ColorFormat::Hsl(h, s, l) => {
                assert!(h < 360 && s < 100 && l < 100);
            }
            _ => panic!("expected an HSL triple"),
        }
    }
}

#[test]
fn scale_factor_scales_the_raster() {
    let mut p = ColorInputView::new(ColorFormat::Hsl(200, 50, 50));
    p.layout_slider(ColorScale::Hue, Bounds { x: 0, y: 0, width: 100, height: 10 }, 2);
    match &p.hue_slider.image {
        Some(img) => {
            assert_eq!(img.width, 200);
            assert_eq!(img.height, 20);
            assert_eq!(img.data.len(), 4 * 200 * 20);
        }
        None => panic!("expected a raster"),
    }
}

#[test]
fn thumb_position_follows_the_value() {
    let mut p = ColorInputView::new(ColorFormat::Hsl(200, 50, 50));
    // Before the first layout pass the thumb sits at the origin.
    assert_eq!(p.saturation_slider.thumb_x(p.c), 0);
    p.layout_slider(ColorScale::Saturation, track(), 1);
    // Saturation 1/2 over a 292px span, less half the 20px thumb, plus the
    // 4px padding: 146 - 10 + 4.
    assert_eq!(p.saturation_slider.thumb_x(p.c), 140);
}

#[test]
fn degenerate_track_span_clamps_to_zero() {
    // Width equal to both pads leaves an empty usable span: a hit inside
    // the region writes the channel's minimum instead of dividing by zero.
    let mut p = ColorInputView::new(ColorFormat::Hsl(200, 50, 50));
    p.layout_slider(ColorScale::Lightness, Bounds { x: 0, y: 100, width: 8, height: 10 }, 1);
    assert!(p.handle_pointer(ColorScale::Lightness, PointerEvent::Down { x: 5, y: 105 }));
    assert_eq!(p.color, ColorFormat::Hsl(200, 50, 0));
}
