//! The image scalar functions registered under `img.main`: their identities,
//! argument checks, and what each computes over a column of rows.

pub mod exif_data;
pub mod hash;
pub mod info;
pub mod transform;
