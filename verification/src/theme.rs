//! Theme glue: appearance, the theme manager, and the material-design
//! theme source.

use vstd::prelude::*;

verus! {

/// Whether the interface renders on a light or a dark ground.
#[derive(Copy, Clone, Debug, PartialEq, Eq, Structural)]
pub enum Appearance {
    Light,
    Dark,
}

impl Appearance {
    /// Whether this is the light appearance.
    pub fn is_light(&self) -> (r: bool)
        ensures
            r == (*self matches Appearance::Light),
    {
        match self {
            Appearance::Light => true,
            Appearance::Dark => false,
        }
    }
}

/// Owner of the current appearance.
pub struct ThemeManager {
    pub appearance: Appearance,
}

impl ThemeManager {
    /// The manager starts on the dark appearance.
    pub fn new() -> (m: ThemeManager)
        ensures
            m.appearance == Appearance::Dark,
    {
        ThemeManager { appearance: Appearance::Dark }
    }
}

/// The material-design theme source.
#[derive(Copy, Clone)]
pub struct MdTheme {}

/// The variants a material-design theme offers.
#[derive(Copy, Clone, Debug, PartialEq, Eq, Structural)]
pub enum MdVariant {
    Default,
    Primary,
    Secondary,
    Tertiary,
}

impl Default for MdVariant {
    /// The default variant is the plain one.
    fn default() -> (v: MdVariant)
        ensures
            v == MdVariant::Default,
    {
        MdVariant::Default
    }
}

/// One concrete variant of the material-design theme.
#[derive(Copy, Clone)]
pub struct MdThemeVariant {}

impl MdTheme {
    /// The material-design theme carries no state of its own.
    pub fn new() -> (t: MdTheme)
        ensures
            t == (MdTheme {}),
    {
        MdTheme {}
    }
}

} // verus!
