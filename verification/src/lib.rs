//! Color picker core: canonical color values in RGB and HSL form, a fixed
//! eleven-stop tonal palette, gradient strip rasterisation with a narrow
//! cache-invalidation rule, and the pointer-driven slider state machine that
//! writes back into a shared color value.

pub mod assets;
pub mod color;
pub mod fixed;
pub mod gradient;
pub mod library;
pub mod palette;
pub mod panel;
pub mod slider;
pub mod states;
pub mod status;
pub mod text;
pub mod theme;
