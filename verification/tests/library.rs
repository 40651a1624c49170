//! Color library tests: the built-in entries and lookup.

use uicolors::color::ColorFormat;
use uicolors::library::{ColorItem, ColorLibrary};

#[test]
fn new_item_is_not_a_favorite() {
    let it = ColorItem::new(ColorFormat::Rgb(1, 2, 3), Some(String::from("Test")));
    assert_eq!(it.color, ColorFormat::Rgb(1, 2, 3));
    assert_eq!(it.name.as_deref(), Some("Test"));
    assert!(!it.favorite);
}

#[test]
fn builtin_library_entries() {
    let lib = ColorLibrary::default();
    assert_eq!(lib.items.len(), 19);
    assert_eq!(lib.items[0].color, ColorFormat::Rgb(0xf4, 0x3f, 0x5e));
    assert_eq!(lib.items[0].name.as_deref(), Some("Rose"));
    assert_eq!(lib.items[18].color, ColorFormat::Rgb(0x73, 0x73, 0x73));
    assert_eq!(lib.items[18].name.as_deref(), Some("Neutral"));
    for it in &lib.items {
        assert!(!it.favorite);
        assert!(it.name.is_some());
    }
}

#[test]
fn position_finds_an_exact_rgb_entry() {
    let lib = ColorLibrary::default();
    assert_eq!(lib.position(ColorFormat::Rgb(0x3b, 0x82, 0xf6)), Some(6));
    assert_eq!(lib.position(ColorFormat::Rgb(0x73, 0x73, 0x73)), Some(18));
}

#[test]
fn position_normalizes_the_query() {
    let lib = ColorLibrary::default();
    // The neutral gray 0x737373 reads as HSL(0, 0, 45), whose RGB form is
    // again 0x737373, so the HSL query finds the RGB entry.
    assert_eq!(ColorFormat::Rgb(0x73, 0x73, 0x73).to_hsl(), ColorFormat::Hsl(0, 0, 45));
    assert_eq!(lib.position(ColorFormat::Hsl(0, 0, 45)), Some(18));
}

#[test]
fn position_of_an_absent_color_is_none() {
    let lib = ColorLibrary::default();
    assert_eq!(lib.position(ColorFormat::Rgb(1, 2, 3)), None);
}

#[test]
fn position_returns_the_first_match() {
    let lib = ColorLibrary {
        items: vec![
            ColorItem::new(ColorFormat::Rgb(9, 9, 9), None),
            ColorItem::new(ColorFormat::Rgb(5, 5, 5), None),
            ColorItem::new(ColorFormat::Rgb(5, 5, 5), None),
        ],
    };
    assert_eq!(lib.position(ColorFormat::Rgb(5, 5, 5)), Some(1));
}
