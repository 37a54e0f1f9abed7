# image_worker

Image inspection for a DuckDB worker: header facts, EXIF tags and GPS
positions, 64-bit perceptual hashes and their Hamming distance, thumbnails and
format conversion, each over image BLOBs, row by row.

Layout:

- `src/` — the verified library (Verus).
  - `hashing.rs`: packing hash bytes into a `u64`, Hamming distance, and its
    laws (symmetry, zero exactly on equality, at most 64, triangle inequality,
    agreement with the bytewise distance).
  - `formats.rs`: output-format names (case-insensitive), input-format and
    color-model tokens.
  - `imaging.rs`: decode / hash / thumbnail / convert pipelines over the
    `image` and `image_hasher` crates, with each outside call behind a small
    trusted wrapper.
  - `metadata.rs`: EXIF tags and GPS coordinates over the `kamadak-exif` crate.
  - `columns.rs`: running a function over a column (NULL in, NULL out; the
    first failing row fails the column; a row result that may differ from
    machine to machine, such as a perceptual hash, is admitted rather than
    fixed).
  - `scalar/`: the scalar functions' argument checks and per-column work.
  - `meta.rs`, `text.rs`: discovery metadata and small string operations.
  - `json.rs`: reading back the keyword JSON that `meta.rs` writes, and the
    law that it gives back exactly the trimmed, non-empty keywords.
- `app/` — the worker program: Arrow columns in and out, registration, and the
  decimal (floating-point) GPS conversion.
- `tests/` — tests run against the compiled library with the real crates.
