//! `image_info(blob)` → `STRUCT(format VARCHAR, width INT, height INT,
//! color VARCHAR, has_alpha BOOLEAN)`.

use vstd::prelude::*;

use crate::columns::{BlobFunction, column_fits, column_view, exactly, run_column};
use crate::error::ImgError;
use crate::imaging::{self, ImageInfoView, info_outcome};

verus! {

/// The `image_info` scalar function.
pub struct ImageInfo;

impl BlobFunction for ImageInfo {
    type Output = imaging::ImageInfo;

    open spec fn admits(&self, blob: Seq<u8>, r: Result<ImageInfoView, Seq<char>>) -> bool {
        r == info_outcome(blob)
    }

    fn apply(&self, blob: &[u8]) -> (r: Result<imaging::ImageInfo, ImgError>) {
        imaging::image_info(blob)
    }
}

impl ImageInfo {
    /// The header facts of every row: NULL for a NULL row; the first row that
    /// does not decode fails the column.
    pub fn info_column(&self, rows: &Vec<Option<Vec<u8>>>) -> (r: Result<
        Vec<Option<imaging::ImageInfo>>,
        ImgError,
    >)
        ensures
            column_fits(rows.deep_view(), exactly(|b: Seq<u8>| info_outcome(b)), column_view(r)),
    {
        let r = run_column(rows, self);
        assert((|b: Seq<u8>, x: Result<ImageInfoView, Seq<char>>| self.admits(b, x)) =~= exactly(|b: Seq<u8>| info_outcome(b)));
        r
    }
}

} // verus!
