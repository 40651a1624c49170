//! Color value tests: parsing, formatting, normalization, conversion.

use uicolors::color::{ColorFormat, Hsla};
use uicolors::fixed::FX;

#[test]
fn parse() {
    assert_eq!(
        ColorFormat::parse("#ee00ff"),
        Some(ColorFormat::Rgb(238, 0, 255))
    );
}

#[test]
fn canonicalize() {
    let c0 = ColorFormat::Hsl(400, 120, 120);
    let c1 = c0.canonicalize();
    assert_eq!(c0, ColorFormat::Hsl(400, 120, 120));
    assert_eq!(c1, ColorFormat::Hsl(40, 100, 100).canonicalize());
}

#[test]
fn parse_hex_upper_and_lower() {
    assert_eq!(ColorFormat::parse("#FF8000"), Some(ColorFormat::Rgb(255, 128, 0)));
    assert_eq!(ColorFormat::parse("#ff8000"), Some(ColorFormat::Rgb(255, 128, 0)));
}

#[test]
fn parse_hex_wrong_digit_count() {
    assert_eq!(ColorFormat::parse("#ee00f"), None);
    assert_eq!(ColorFormat::parse("#ee00ff0"), None);
    assert_eq!(ColorFormat::parse("#"), None);
}

#[test]
fn parse_hex_bad_digit() {
    assert_eq!(ColorFormat::parse("#ee00fg"), None);
    assert_eq!(ColorFormat::parse("#ee 0ff"), None);
}

#[test]
fn parse_hsl_basic() {
    assert_eq!(ColorFormat::parse("200,50,50"), Some(ColorFormat::Hsl(200, 50, 50)));
    assert_eq!(ColorFormat::parse("0,0,0"), Some(ColorFormat::Hsl(0, 0, 0)));
}

#[test]
fn parse_hsl_out_of_range_is_normalized() {
    assert_eq!(ColorFormat::parse("400,120,120"), Some(ColorFormat::Hsl(40, 100, 100)));
}

#[test]
fn parse_hsl_wrong_field_count() {
    assert_eq!(ColorFormat::parse("1,2"), None);
    assert_eq!(ColorFormat::parse("1,2,3,4"), None);
    assert_eq!(ColorFormat::parse(""), None);
    assert_eq!(ColorFormat::parse("123"), None);
}

#[test]
fn parse_hsl_non_numeric_field() {
    assert_eq!(ColorFormat::parse("a,2,3"), None);
    assert_eq!(ColorFormat::parse("1,,3"), None);
    assert_eq!(ColorFormat::parse("1, 2,3"), None);
    assert_eq!(ColorFormat::parse("1,2,-3"), None);
}

#[test]
fn parse_hsl_field_too_large_for_channel() {
    assert_eq!(ColorFormat::parse("70000,0,0"), None);
    assert_eq!(ColorFormat::parse("0,300,0"), None);
    assert_eq!(ColorFormat::parse("0,0,999"), None);
    // Representable but out of range: normalized, not rejected.
    assert_eq!(ColorFormat::parse("0,255,255"), Some(ColorFormat::Hsl(0, 100, 100)));
}

#[test]
fn format_rgb_lower_hex() {
    assert_eq!(ColorFormat::Rgb(238, 0, 255).to_string(), "#ee00ff");
    assert_eq!(ColorFormat::Rgb(0, 0, 0).to_string(), "#000000");
    assert_eq!(ColorFormat::Rgb(255, 255, 255).to_string(), "#ffffff");
}

#[test]
fn format_hsl_decimal() {
    assert_eq!(ColorFormat::Hsl(200, 50, 50).to_string(), "200,50,50");
    assert_eq!(ColorFormat::Hsl(0, 0, 0).to_string(), "0,0,0");
    assert_eq!(ColorFormat::Hsl(360, 100, 100).to_string(), "360,100,100");
}

#[test]
fn format_then_parse_is_identity() {
    let cases = vec![
        ColorFormat::Rgb(238, 0, 255),
        ColorFormat::Rgb(0, 128, 7),
        ColorFormat::Hsl(0, 0, 0),
        ColorFormat::Hsl(200, 50, 50),
        ColorFormat::Hsl(360, 100, 100),
        ColorFormat::Hsl(7, 3, 99),
    ];
    for c in cases {
        assert_eq!(ColorFormat::parse(&c.to_string()), Some(c));
    }
}

#[test]
fn normalize_is_idempotent() {
    let c = ColorFormat::Hsl(400, 120, 120);
    let once = c.normalize();
    assert_eq!(once, ColorFormat::Hsl(40, 100, 100));
    assert_eq!(once.normalize(), once);
    let r = ColorFormat::Rgb(1, 2, 3);
    assert_eq!(r.normalize(), r);
    // Hue exactly 360 is canonical and kept.
    assert_eq!(ColorFormat::Hsl(360, 0, 0).normalize(), ColorFormat::Hsl(360, 0, 0));
}

#[test]
fn to_hsl_primaries() {
    assert_eq!(ColorFormat::Rgb(255, 0, 0).to_hsl(), ColorFormat::Hsl(0, 100, 50));
    assert_eq!(ColorFormat::Rgb(0, 255, 0).to_hsl(), ColorFormat::Hsl(120, 100, 50));
    assert_eq!(ColorFormat::Rgb(0, 0, 255).to_hsl(), ColorFormat::Hsl(240, 100, 50));
    assert_eq!(ColorFormat::Rgb(255, 255, 255).to_hsl(), ColorFormat::Hsl(0, 0, 100));
    assert_eq!(ColorFormat::Rgb(0, 0, 0).to_hsl(), ColorFormat::Hsl(0, 0, 0));
}

#[test]
fn to_rgb_primaries() {
    assert_eq!(ColorFormat::Hsl(0, 100, 50).to_rgb(), ColorFormat::Rgb(255, 0, 0));
    assert_eq!(ColorFormat::Hsl(120, 100, 50).to_rgb(), ColorFormat::Rgb(0, 255, 0));
    assert_eq!(ColorFormat::Hsl(240, 100, 50).to_rgb(), ColorFormat::Rgb(0, 0, 255));
    assert_eq!(ColorFormat::Hsl(0, 0, 100).to_rgb(), ColorFormat::Rgb(255, 255, 255));
    assert_eq!(ColorFormat::Hsl(0, 0, 0).to_rgb(), ColorFormat::Rgb(0, 0, 0));
}

#[test]
fn conversion_keeps_matching_variant_untouched() {
    let h = ColorFormat::Hsl(400, 120, 120);
    assert_eq!(h.to_hsl(), h);
    let r = ColorFormat::Rgb(1, 2, 3);
    assert_eq!(r.to_rgb(), r);
}

#[test]
fn round_trip_gray_rgb_within_one_unit() {
    for v in 0..=255u8 {
        let back = ColorFormat::Rgb(v, v, v).to_hsl().to_rgb();
        match back {
            ColorFormat::Rgb(r, g, b) => {
                assert_eq!(r, g);
                assert_eq!(g, b);
                assert!((r as i32 - v as i32).abs() <= 1, "v={} back={}", v, r);
            }
            _ => panic!("expected an RGB triple"),
        }
    }
}

#[test]
fn round_trip_gray_hsl_exact() {
    for l in 0..=100u8 {
        let back = ColorFormat::Hsl(0, 0, l).to_rgb().to_hsl();
        assert_eq!(back, ColorFormat::Hsl(0, 0, l));
    }
}

#[test]
fn round_trip_pure_hues_within_one_degree() {
    for h in 0..360u16 {
        let back = ColorFormat::Hsl(h, 100, 50).to_rgb().to_hsl();
        match back {
            ColorFormat::Hsl(h2, s2, l2) => {
                assert!((h2 as i32 - h as i32).abs() <= 1, "h={} back={}", h, h2);
                assert!((s2 as i32 - 100).abs() <= 1);
                assert!((l2 as i32 - 50).abs() <= 1);
            }
            _ => panic!("expected an HSL triple"),
        }
    }
}

#[test]
fn split_channels() {
    assert_eq!(ColorFormat::Hsl(200, 50, 50).split_hsl(), (200, 50, 50));
    assert_eq!(ColorFormat::Rgb(9, 8, 7).split_rgb(), (9, 8, 7));
    assert_eq!(ColorFormat::Rgb(255, 0, 0).split_hsl(), (0, 100, 50));
    assert_eq!(ColorFormat::Hsl(0, 100, 50).split_rgb(), (255, 0, 0));
}

#[test]
fn canonicalize_is_exact_on_canonical_hsl() {
    let c = ColorFormat::Hsl(200, 50, 50).canonicalize();
    assert_eq!(c, Hsla { h: 200 * 425, s: 50 * 1530, l: 50 * 1530, a: FX });
}

#[test]
fn from_hsla_reads_the_bridge_back() {
    let c = ColorFormat::Hsl(200, 50, 50).canonicalize();
    assert_eq!(ColorFormat::from_hsla(c), ColorFormat::Hsl(200, 50, 50));
}

#[test]
fn random_colors_are_canonical() {
    for _ in 0..100 {
        match ColorFormat::random_rgb() {
            ColorFormat::Rgb(_, _, _) => {}
            _ => panic!("expected an RGB triple"),
        }
        match ColorFormat::random_hsl() {
            ColorFormat::Hsl(h, s, l) => {
                assert!(h < 360);
                assert!(s < 100);
                assert!(l < 100);
            }
            _ => panic!("expected an HSL triple"),
        }
    }
}

#[test]
fn format_parse_identity_sweep() {
    for h in 0..=360u16 {
        let c = ColorFormat::Hsl(h, (h % 101) as u8, ((h * 7) % 101) as u8);
        assert_eq!(ColorFormat::parse(&c.to_string()), Some(c));
    }
    for v in (0..=255u16).step_by(17) {
        let c = ColorFormat::Rgb(v as u8, (255 - v) as u8, ((v * 3) % 256) as u8);
        assert_eq!(ColorFormat::parse(&c.to_string()), Some(c));
    }
}
