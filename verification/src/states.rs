//! Application-level state tags shared between views.

use vstd::prelude::*;

use crate::color::ColorFormat;

verus! {

/// Which main tab is showing.
#[derive(Copy, Clone, Debug, PartialEq, Eq, Structural)]
pub enum MainTab {
    Home,
    Browse,
    Favorites,
}

/// An application event carrying a newly entered color.
#[derive(Copy, Clone, Debug, PartialEq, Eq, Structural)]
pub enum Event {
    InputColor(ColorFormat),
}

} // verus!
