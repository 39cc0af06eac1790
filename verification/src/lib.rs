//! Expansion of one test template plus declared data sources into
//! independently named test cases.

use vstd::prelude::*;

pub mod canonicalize;
pub mod error;
pub mod expand;
pub mod fixture;
pub mod json;
pub mod params;
pub mod source;
pub mod suffix;
pub mod syntax;
pub mod synth;
pub mod template;
pub mod text;
pub mod value;

verus! {

/// The version of the framework.
pub fn version() -> (v: &'static str)
    ensures
        v@ == "0.1.0"@,
{
    "0.1.0"
}

} // verus!
