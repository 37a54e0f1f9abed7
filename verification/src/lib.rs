//! Image inspection library: perceptual-hash packing and Hamming distance,
//! output-format parsing, EXIF/GPS extraction, thumbnail and conversion
//! pipelines, and the per-row dispatch of the image scalar functions.

pub mod columns;
pub mod error;
pub mod formats;
pub mod hashing;
pub mod imaging;
pub mod json;
pub mod meta;
pub mod metadata;
pub mod scalar;
pub mod text;

use vstd::prelude::*;

verus! {

/// Worker version string, surfaced by `image_version()`.
pub fn version() -> (v: &'static str)
    ensures
        v@ == "0.1.0"@,
{
    "0.1.0"
}

} // verus!
