//! Asset naming: where an icon lives in the asset tree.

use vstd::prelude::*;

verus! {

/// The application's embedded assets (fonts and icons); loading them is the
/// surrounding application's business, naming them is specified here.
pub struct Assets;

impl Assets {
    /// The asset path of a named icon.
    pub fn icon(icon: &str) -> (r: String)
        ensures
            r@ == "icons/"@ + icon@ + ".svg"@,
    {
        let mut out = String::from_str("icons/");
        out.append(icon);
        out.append(".svg");
        out
    }
}

} // verus!
