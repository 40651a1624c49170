//! The color library: a list of named colors with favorites, and lookup of
//! a color in it.  Lookup normalizes both sides: a query matches an entry
//! whose color equals either the query's RGB or its HSL form.

use vstd::prelude::*;

use crate::color::{to_hsl_spec, to_rgb_spec, ColorFormat};

verus! {

/// One library entry: a color, an optional display name, a favorite flag.
#[derive(Debug)]
pub struct ColorItem {
    pub color: ColorFormat,
    pub name: Option<String>,
    pub favorite: bool,
}

impl ColorItem {
    /// A fresh entry is never a favorite.
    pub fn new(color: ColorFormat, name: Option<String>) -> (it: ColorItem)
        ensures
            it.color == color,
            it.name == name,
            !it.favorite,
    {
        ColorItem { color, name, favorite: false }
    }
}

/// A library of color entries.
#[derive(Debug)]
pub struct ColorLibrary {
    pub items: Vec<ColorItem>,
}

/// The color of the built-in library entry at position `i`.
pub open spec fn builtin_color(i: int) -> ColorFormat {
    if i == 0 { ColorFormat::Rgb(0xf4, 0x3f, 0x5e) }
    else if i == 1 { ColorFormat::Rgb(0xec, 0x48, 0x99) }
    else if i == 2 { ColorFormat::Rgb(0xd9, 0x46, 0xef) }
    else if i == 3 { ColorFormat::Rgb(0xa8, 0x55, 0xf7) }
    else if i == 4 { ColorFormat::Rgb(0x8b, 0x5c, 0xf6) }
    else if i == 5 { ColorFormat::Rgb(0x63, 0x66, 0xf1) }
    else if i == 6 { ColorFormat::Rgb(0x3b, 0x82, 0xf6) }
    else if i == 7 { ColorFormat::Rgb(0x0e, 0xa5, 0xe9) }
    else if i == 8 { ColorFormat::Rgb(0x06, 0xb6, 0xd4) }
    else if i == 9 { ColorFormat::Rgb(0x14, 0xb8, 0xa6) }
    else if i == 10 { ColorFormat::Rgb(0x10, 0xb9, 0x81) }
    else if i == 11 { ColorFormat::Rgb(0x22, 0xc5, 0x5e) }
    else if i == 12 { ColorFormat::Rgb(0x84, 0xcc, 0x16) }
    else if i == 13 { ColorFormat::Rgb(0xea, 0xb3, 0x08) }
    else if i == 14 { ColorFormat::Rgb(0xf5, 0x9e, 0x0b) }
    else if i == 15 { ColorFormat::Rgb(0xf9, 0x73, 0x16) }
    else if i == 16 { ColorFormat::Rgb(0xef, 0x44, 0x44) }
    else if i == 17 { ColorFormat::Rgb(0x78, 0x71, 0x6c) }
    else { ColorFormat::Rgb(0x73, 0x73, 0x73) }
}

/// The name of the built-in library entry at position `i`.
pub open spec fn builtin_name(i: int) -> Seq<char> {
    if i == 0 { "Rose"@ } else if i == 1 { "Pink"@ } else if i == 2 { "Fuchsia"@ }
    else if i == 3 { "Purple"@ } else if i == 4 { "Violet"@ } else if i == 5 { "Indigo"@ }
    else if i == 6 { "Blue"@ } else if i == 7 { "Sky"@ } else if i == 8 { "Cyan"@ }
    else if i == 9 { "Teal"@ } else if i == 10 { "Emerald"@ } else if i == 11 { "Green"@ }
    else if i == 12 { "Lime"@ } else if i == 13 { "Yellow"@ } else if i == 14 { "Amber"@ }
    else if i == 15 { "Orange"@ } else if i == 16 { "Red"@ } else if i == 17 { "Stone"@ }
    else { "Neutral"@ }
}

impl Default for ColorLibrary {
    /// The built-in library: nineteen named colors, none a favorite.
    fn default() -> (r: ColorLibrary)
        ensures
            r.items@.len() == 19,
            forall|i: int| 0 <= i < 19
                ==> #[trigger] r.items@[i].color == builtin_color(i)
                    && !r.items@[i].favorite
                    && (r.items@[i].name matches Some(n) && n@ == builtin_name(i)),
    {
        let mut items: Vec<ColorItem> = Vec::new();
        items.push(ColorItem::new(ColorFormat::Rgb(0xf4, 0x3f, 0x5e), Some(String::from_str("Rose"))));
        items.push(ColorItem::new(ColorFormat::Rgb(0xec, 0x48, 0x99), Some(String::from_str("Pink"))));
        items.push(ColorItem::new(ColorFormat::Rgb(0xd9, 0x46, 0xef), Some(String::from_str("Fuchsia"))));
        items.push(ColorItem::new(ColorFormat::Rgb(0xa8, 0x55, 0xf7), Some(String::from_str("Purple"))));
        items.push(ColorItem::new(ColorFormat::Rgb(0x8b, 0x5c, 0xf6), Some(String::from_str("Violet"))));
        items.push(ColorItem::new(ColorFormat::Rgb(0x63, 0x66, 0xf1), Some(String::from_str("Indigo"))));
        items.push(ColorItem::new(ColorFormat::Rgb(0x3b, 0x82, 0xf6), Some(String::from_str("Blue"))));
        items.push(ColorItem::new(ColorFormat::Rgb(0x0e, 0xa5, 0xe9), Some(String::from_str("Sky"))));
        items.push(ColorItem::new(ColorFormat::Rgb(0x06, 0xb6, 0xd4), Some(String::from_str("Cyan"))));
        items.push(ColorItem::new(ColorFormat::Rgb(0x14, 0xb8, 0xa6), Some(String::from_str("Teal"))));
        items.push(ColorItem::new(ColorFormat::Rgb(0x10, 0xb9, 0x81), Some(String::from_str("Emerald"))));
        items.push(ColorItem::new(ColorFormat::Rgb(0x22, 0xc5, 0x5e), Some(String::from_str("Green"))));
        items.push(ColorItem::new(ColorFormat::Rgb(0x84, 0xcc, 0x16), Some(String::from_str("Lime"))));
        items.push(ColorItem::new(ColorFormat::Rgb(0xea, 0xb3, 0x08), Some(String::from_str("Yellow"))));
        items.push(ColorItem::new(ColorFormat::Rgb(0xf5, 0x9e, 0x0b), Some(String::from_str("Amber"))));
        items.push(ColorItem::new(ColorFormat::Rgb(0xf9, 0x73, 0x16), Some(String::from_str("Orange"))));
        items.push(ColorItem::new(ColorFormat::Rgb(0xef, 0x44, 0x44), Some(String::from_str("Red"))));
        items.push(ColorItem::new(ColorFormat::Rgb(0x78, 0x71, 0x6c), Some(String::from_str("Stone"))));
        items.push(ColorItem::new(ColorFormat::Rgb(0x73, 0x73, 0x73), Some(String::from_str("Neutral"))));
        ColorLibrary { items }
    }
}

impl ColorLibrary {
    /// Position of the first entry matching the color, after normalizing
    /// both sides to a common variant: an entry matches if its color equals
    /// the query's RGB form or its HSL form.  `None` when no entry matches.
    pub fn position(&self, color: ColorFormat) -> (r: Option<usize>)
        ensures
            match r {
                Some(i) => i < self.items@.len()
                    && (self.items@[i as int].color == to_rgb_spec(color)
                        || self.items@[i as int].color == to_hsl_spec(color))
                    && forall|j: int| 0 <= j < i
                        ==> #[trigger] self.items@[j].color != to_rgb_spec(color)
                            && self.items@[j].color != to_hsl_spec(color),
                None => forall|j: int| 0 <= j < self.items@.len()
                    ==> #[trigger] self.items@[j].color != to_rgb_spec(color)
                        && self.items@[j].color != to_hsl_spec(color),
            },
    {
        let rgb = color.to_rgb();
        let hsl = color.to_hsl();
        let mut i: usize = 0;
        while i < self.items.len()
            invariant
                i <= self.items@.len(),
                rgb == to_rgb_spec(color),
                hsl == to_hsl_spec(color),
                forall|j: int| 0 <= j < i
                    ==> #[trigger] self.items@[j].color != to_rgb_spec(color)
                        && self.items@[j].color != to_hsl_spec(color),
            decreases self.items@.len() - i,
        {
            let c = self.items[i].color;
            if c == rgb || c == hsl {
                return Some(i);
            }
            i += 1;
        }
        None
    }
}

} // verus!
