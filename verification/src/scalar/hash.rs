//! Perceptual hashing: `phash` / `dhash` / `ahash` over an image BLOB → a packed
//! 64-bit hash, and `phash_distance(a, b)` → Hamming distance.

use vstd::prelude::*;

use crate::columns::{BlobFunction, column_fits, column_view, run_column};
use crate::error::ImgError;
use crate::hashing::{
    HashKind, hamming, hamming_distance, lemma_hamming_at_most_64, lemma_hamming_symmetric,
    lemma_hamming_zero_iff_equal,
};
use crate::imaging::{hash_admits, perceptual_hash};

verus! {

/// One of the three perceptual-hash scalar functions. The same struct backs all
/// three; `name`/`kind` differ.
pub struct PerceptualHash {
    pub name: &'static str,
    pub kind: HashKind,
    pub description: &'static str,
    pub example_desc: &'static str,
    pub title: &'static str,
    pub description_llm: &'static str,
    pub description_md: &'static str,
    pub keywords: &'static str,
}

impl PerceptualHash {
    /// The DCT perceptual hash, `phash`.
    pub fn phash() -> (f: Self)
        ensures
            f.name@ == "phash"@,
            f.kind == HashKind::Perceptual,
    {
        PerceptualHash {
            name: "phash",
            kind: HashKind::Perceptual,
            description: "64-bit DCT perceptual hash of an image BLOB (UBIGINT)",
            example_desc: "Compute the 64-bit DCT perceptual hash of an image for \
                           near-duplicate detection.",
            title: "Perceptual Hash (DCT)",
            description_llm: "Compute a 64-bit DCT-based perceptual hash (pHash) of an image \
                              BLOB, packed into a UBIGINT. Visually similar images get similar \
                              hashes, so comparing hashes (see phash_distance) detects \
                              near-duplicates and resized/recompressed copies. Returns NULL for \
                              NULL input and errors on undecodable bytes.",
            description_md: "Compute the 64-bit DCT perceptual hash (pHash) of an image as a \
                             `UBIGINT`. Pair with `phash_distance` for near-duplicate detection.",
            keywords: "phash, perceptual hash, dct hash, image fingerprint, near-duplicate, \
                       similarity, deduplication, image hash, 64-bit",
        }
    }

    /// The difference (gradient) hash, `dhash`.
    pub fn dhash() -> (f: Self)
        ensures
            f.name@ == "dhash"@,
            f.kind == HashKind::Difference,
    {
        PerceptualHash {
            name: "dhash",
            kind: HashKind::Difference,
            description: "64-bit difference (gradient) hash of an image BLOB (UBIGINT)",
            example_desc: "Compute the 64-bit difference (gradient) hash of an image.",
            title: "Difference Hash (Gradient)",
            description_llm: "Compute a 64-bit difference (gradient) hash (dHash) of an image \
                              BLOB, packed into a UBIGINT. It encodes horizontal brightness \
                              gradients, so visually similar images get similar hashes for \
                              near-duplicate detection via phash_distance. Returns NULL for NULL \
                              input and errors on undecodable bytes.",
            description_md: "Compute the 64-bit difference (gradient) hash (dHash) of an image as \
                             a `UBIGINT`. Pair with `phash_distance` for similarity.",
            keywords: "dhash, difference hash, gradient hash, image fingerprint, near-duplicate, \
                       similarity, deduplication, image hash, 64-bit",
        }
    }

    /// The average hash, `ahash`.
    pub fn ahash() -> (f: Self)
        ensures
            f.name@ == "ahash"@,
            f.kind == HashKind::Average,
    {
        PerceptualHash {
            name: "ahash",
            kind: HashKind::Average,
            description: "64-bit average hash of an image BLOB (UBIGINT)",
            example_desc: "Compute the 64-bit average hash of an image.",
            title: "Average Hash (Mean)",
            description_llm: "Compute a 64-bit average hash (aHash) of an image BLOB, packed into \
                              a UBIGINT. Each bit marks whether a downsampled pixel is above the \
                              mean brightness, giving a fast similarity fingerprint for \
                              near-duplicate detection via phash_distance. Returns NULL for NULL \
                              input and errors on undecodable bytes.",
            description_md: "Compute the 64-bit average hash (aHash) of an image as a `UBIGINT`. \
                             Pair with `phash_distance` for similarity.",
            keywords: "ahash, average hash, mean hash, image fingerprint, near-duplicate, \
                       similarity, deduplication, image hash, 64-bit",
        }
    }

    /// The hash of every row: NULL for a NULL row, the packed hash otherwise;
    /// the first row that does not decode fails the column.
    pub fn hash_column(&self, rows: &Vec<Option<Vec<u8>>>) -> (r: Result<Vec<Option<u64>>, ImgError>)
        ensures
            column_fits(
                rows.deep_view(),
                |b: Seq<u8>, x: Result<u64, Seq<char>>| hash_admits(b, self.kind, x),
                column_view(r),
            ),
    {
        let r = run_column(rows, self);
        assert((|b: Seq<u8>, x: Result<u64, Seq<char>>| self.admits(b, x)) =~= (|b: Seq<u8>, x: Result<u64, Seq<char>>| hash_admits(b, self.kind, x)));
        r
    }
}

impl BlobFunction for PerceptualHash {
    type Output = u64;

    open spec fn admits(&self, blob: Seq<u8>, r: Result<u64, Seq<char>>) -> bool {
        hash_admits(blob, self.kind, r)
    }

    fn apply(&self, blob: &[u8]) -> (r: Result<u64, ImgError>) {
        perceptual_hash(blob, self.kind)
    }
}

/// `phash_distance(a, b)` — Hamming distance between two packed 64-bit hashes.
pub struct PhashDistance;

/// One cell of an integer column, by its integer type.
#[derive(Debug, Clone, Copy, PartialEq, Eq, Structural)]
pub enum HashCell {
    U64(u64),
    I64(i64),
    U32(u32),
    I32(i32),
    U16(u16),
    I16(i16),
    U8(u8),
    I8(i8),
}

/// The 64 hash bits a cell stands for: its value cast to `u64` (signed values
/// sign-extended, as `as u64` does).
pub open spec fn cell_bits(cell: HashCell) -> u64 {
    match cell {
        HashCell::U64(v) => v,
        HashCell::I64(v) => v as u64,
        HashCell::U32(v) => v as u64,
        HashCell::I32(v) => v as u64,
        HashCell::U16(v) => v as u64,
        HashCell::I16(v) => v as u64,
        HashCell::U8(v) => v as u64,
        HashCell::I8(v) => v as u64,
    }
}

impl HashCell {
    /// Read the cell as the raw `u64` hash bits.
    pub fn bits(self) -> (bits: u64)
        ensures
            bits == cell_bits(self),
    {
        match self {
            HashCell::U64(v) => v,
            HashCell::I64(v) => v as u64,
            HashCell::U32(v) => v as u64,
            HashCell::I32(v) => v as u64,
            HashCell::U16(v) => v as u64,
            HashCell::I16(v) => v as u64,
            HashCell::U8(v) => v as u64,
            HashCell::I8(v) => v as u64,
        }
    }
}

/// The distance of one row: NULL when either hash is NULL.
pub open spec fn row_distance(a: Option<u64>, b: Option<u64>) -> Option<i32> {
    match (a, b) {
        (Some(x), Some(y)) => Some(hamming(x, y) as i32),
        _ => None,
    }
}

impl PhashDistance {
    /// The distance of every row of two hash columns.
    pub fn distance_column(&self, a: &Vec<Option<u64>>, b: &Vec<Option<u64>>) -> (out: Vec<Option<i32>>)
        requires
            a.len() == b.len(),
        ensures
            out.len() == a.len(),
            forall|i: int| 0 <= i < a.len() ==> out[i] == row_distance(a[i], b[i]),
    {
        let mut out: Vec<Option<i32>> = Vec::new();
        let mut i: usize = 0;
        while i < a.len()
            invariant
                i <= a.len(),
                a.len() == b.len(),
                out.len() == i,
                forall|j: int| 0 <= j < i ==> out[j] == row_distance(a[j], b[j]),
            decreases a.len() - i,
        {
            let d = match (a[i], b[i]) {
                (Some(x), Some(y)) => Some(hamming_distance(x, y) as i32),
                _ => None,
            };
            out.push(d);
            i = i + 1;
        }
        out
    }
}

/// Law: a row's distance is NULL exactly when either hash is NULL; otherwise
/// it is the number of differing bits, between 0 and 64, zero exactly for
/// equal hashes, and the same whichever column holds which hash.
pub proof fn lemma_row_distance(a: Option<u64>, b: Option<u64>)
    ensures
        row_distance(a, b) is Some <==> a is Some && b is Some,
        row_distance(a, b) == row_distance(b, a),
        row_distance(a, b) matches Some(d) ==> 0 <= d <= 64 && d as int == hamming(a->Some_0, b->Some_0)
            && (d == 0 <==> a == b),
{
    if let (Some(x), Some(y)) = (a, b) {
        lemma_hamming_at_most_64(x, y);
        lemma_hamming_symmetric(x, y);
        lemma_hamming_zero_iff_equal(x, y);
    }
}

} // verus!
