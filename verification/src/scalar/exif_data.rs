//! `exif(blob)` → `MAP(VARCHAR, VARCHAR)` of flattened EXIF tags, and
//! `exif_gps(blob)` → `STRUCT(lat DOUBLE, lon DOUBLE)` (NULL if absent).

use vstd::prelude::*;

use crate::metadata::{GpsReading, exif_gps_reading, exif_tags, exif_outcome, gps_outcome};
use crate::text::pairs_view;

verus! {

/// The `exif` scalar function (a MAP of all EXIF tags).
pub struct ExifMap;

/// The `exif_gps` scalar function.
pub struct ExifGps;

/// One row of the `exif` column: NULL for a NULL row, otherwise the blob's
/// EXIF pairs.
pub open spec fn exif_cell(row: Option<Vec<u8>>, cell: Option<Vec<(String, String)>>) -> bool {
    match row {
        None => cell is None,
        Some(blob) => cell matches Some(pairs) && pairs_view(pairs@) == exif_outcome(blob@),
    }
}

impl ExifMap {
    /// The EXIF pairs of every row: NULL for a NULL row, otherwise all its
    /// tags (none when it carries no EXIF block).
    pub fn exif_column(&self, rows: &Vec<Option<Vec<u8>>>) -> (out: Vec<Option<Vec<(String, String)>>>)
        ensures
            out.len() == rows.len(),
            forall|i: int| 0 <= i < rows.len() ==> #[trigger] exif_cell(rows[i], out[i]),
    {
        let mut out: Vec<Option<Vec<(String, String)>>> = Vec::new();
        let mut i: usize = 0;
        while i < rows.len()
            invariant
                i <= rows.len(),
                out.len() == i,
                forall|j: int| 0 <= j < i ==> #[trigger] exif_cell(rows[j], out[j]),
            decreases rows.len() - i,
        {
            let cell = match &rows[i] {
                None => None,
                Some(blob) => Some(exif_tags(blob.as_slice()).unwrap()),
            };
            out.push(cell);
            i = i + 1;
        }
        out
    }
}

impl ExifGps {
    /// The GPS position of every row: NULL for a NULL row or a row without a
    /// complete GPS position.
    pub fn gps_column(&self, rows: &Vec<Option<Vec<u8>>>) -> (out: Vec<Option<GpsReading>>)
        ensures
            out.len() == rows.len(),
            forall|i: int|
                0 <= i < rows.len() ==> out[i] == match rows[i] {
                    None => None,
                    Some(blob) => gps_outcome(blob@),
                },
    {
        let mut out: Vec<Option<GpsReading>> = Vec::new();
        let mut i: usize = 0;
        while i < rows.len()
            invariant
                i <= rows.len(),
                out.len() == i,
                forall|j: int|
                    0 <= j < i ==> out[j] == match rows[j] {
                        None => None,
                        Some(blob) => gps_outcome(blob@),
                    },
            decreases rows.len() - i,
        {
            let cell = match &rows[i] {
                None => None,
                Some(blob) => exif_gps_reading(blob.as_slice()),
            };
            out.push(cell);
            i = i + 1;
        }
        out
    }
}

} // verus!
