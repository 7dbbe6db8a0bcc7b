//! Color-science worker library: hex parsing and formatting of sRGB colors,
//! channel clamping, the CSS named-color table, nearest-name selection, the
//! JSON keyword encoding used in catalog metadata, and the per-row operand
//! logic of the worker's scalar and table functions.

pub mod color;
pub mod meta;
pub mod scalar;
pub mod table;

use vstd::prelude::*;

verus! {

/// The worker's version string, published as the catalog's implementation version.
pub fn version() -> (v: &'static str)
    ensures
        v@ == "0.1.0"@,
{
    "0.1.0"
}

} // verus!
