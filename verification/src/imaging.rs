//! Image pipelines over `&[u8]` blobs: header facts (`image_info`), packed
//! perceptual hashes, thumbnails and format conversion. Decoding, resizing,
//! hashing and encoding are done by the `image` and `image_hasher` crates; the
//! library decides what to call with which settings, what to report, and how
//! results and failures are shaped.

use std::io::Cursor;

use image::{ColorType, DynamicImage, ImageFormat};
use image_hasher::{HashAlg, HasherConfig};
use vstd::prelude::*;

use crate::error::ImgError;
use crate::formats::{
    ColorModel, ImgFormat, OutFormat, color_name, color_token, format_name, format_token, model_has_alpha,
};
use crate::hashing::{HashAlgorithm, HashKind, HashSettings, hash_settings, pack_hash_bytes, packed_hash, settings_for};
use crate::text::concat2;
use ColorModel as M;
use ColorType as T;
use ImageFormat as F;
use ImgFormat as G;

verus! {

#[verifier::external_type_specification]
#[verifier::external_body]
pub struct ExDynamicImage(DynamicImage);

/// Which input format `image::guess_format` recognises from a blob's magic
/// bytes (`None` when it recognises none).
pub uninterp spec fn guessed_format(blob: Seq<u8>) -> Option<ImgFormat>;

/// Why `image::load_from_memory` fails on a blob (its error's text), or
/// `None` when the blob decodes.
pub uninterp spec fn decode_failure(blob: Seq<u8>) -> Option<Seq<char>>;

/// Width in pixels of the image decoded from a blob.
pub uninterp spec fn decoded_width(blob: Seq<u8>) -> u32;

/// Height in pixels of the image decoded from a blob.
pub uninterp spec fn decoded_height(blob: Seq<u8>) -> u32;

/// Color model of the image decoded from a blob.
pub uninterp spec fn decoded_color(blob: Seq<u8>) -> ColorModel;

/// Whether `bytes` is a hash that `image_hasher` (`Hasher::hash_image`, then
/// `ImageHash::as_bytes`) may compute for the image decoded from a blob,
/// configured with the given hash width, height and algorithm, with DCT
/// preprocessing when `dct` is set. A relation rather than a function: the
/// hasher resizes with `f32` filter weights from the platform's `sin`, and its
/// DCT runs through an FFT chosen at run time for the machine, so the bytes
/// need not be the same on every machine.
pub uninterp spec fn hash_bytes_possible(
    blob: Seq<u8>,
    width: u32,
    height: u32,
    algorithm: HashAlgorithm,
    dct: bool,
    bytes: Seq<u8>,
) -> bool;

/// What `DynamicImage::write_to` produces for the image decoded from `blob`,
/// shrunk to fit `fit` when given, flattened to 8-bit RGB when `flat`, and
/// written in `format`: the encoded bytes, or the error's text.
pub uninterp spec fn raster_encoding(
    blob: Seq<u8>,
    fit: Option<(u32, u32)>,
    flat: bool,
    format: OutFormat,
) -> Result<Seq<u8>, Seq<char>>;

/// A decoded image together with how it came to be: the bytes it was decoded
/// from, the box it was shrunk to fit (if any), and whether it was flattened
/// to 8-bit RGB. The three ghost fields are set by the functions below that
/// decode, shrink and flatten, and by nothing else.
pub struct Raster {
    image: DynamicImage,
    source: Ghost<Seq<u8>>,
    fit: Ghost<Option<(u32, u32)>>,
    flat: Ghost<bool>,
}

impl Raster {
    /// The bytes this image was decoded from.
    pub closed spec fn source(&self) -> Seq<u8> {
        self.source@
    }

    /// The box this image was shrunk to fit, if any.
    pub closed spec fn fit(&self) -> Option<(u32, u32)> {
        self.fit@
    }

    /// Whether this image was flattened to 8-bit RGB.
    pub closed spec fn flat(&self) -> bool {
        self.flat@
    }

    /// Decoded from `blob` and left as it was.
    pub open spec fn is_decoded_from(&self, blob: Seq<u8>) -> bool {
        self.source() == blob && self.fit() is None && !self.flat()
    }
}

/// The first bytes of the signatures that `image::guess_format` looks for
/// (its magic-byte table): a blob whose first byte is none of these matches no
/// signature.
pub open spec fn signature_lead(b: u8) -> bool {
    b == 0x89 || b == 0xff || b == 0x47 || b == 0x52 || b == 0x4d || b == 0x49 || b == 0x44 || b == 0x42
        || b == 0x00 || b == 0x23 || b == 0x76 || b == 0x71 || b == 0x50 || b == 0x66
}

/// The eight-byte PNG signature, the first entry of that table.
pub open spec fn png_signature() -> Seq<u8> {
    seq![0x89u8, 0x50u8, 0x4eu8, 0x47u8, 0x0du8, 0x0au8, 0x1au8, 0x0au8]
}

/// `image::guess_format`: the input format named by the blob's magic bytes,
/// converted variant by variant (a format this library has no name for is
/// `Unknown`); `None` when no signature matches. Its table is tried in order
/// and starts with the PNG signature, and every signature starts with one of
/// the `signature_lead` bytes (the masked WebP and AVIF entries included), so
/// an empty blob or one with another first byte matches none.
#[verifier::external_body]
fn guess_format(blob: &[u8]) -> (format: Option<ImgFormat>)
    ensures
        format == guessed_format(blob@),
        blob@.len() >= 8 && blob@.subrange(0, 8) == png_signature() ==> format == Some(ImgFormat::Png),
        blob@.len() == 0 || !signature_lead(blob@[0]) ==> format is None,
{
    image::guess_format(blob).ok().map(|f| match f {
        F::Png => G::Png, F::Jpeg => G::Jpeg, F::Gif => G::Gif, F::WebP => G::WebP,
        F::Pnm => G::Pnm, F::Tiff => G::Tiff, F::Tga => G::Tga, F::Dds => G::Dds,
        F::Bmp => G::Bmp, F::Ico => G::Ico, F::Hdr => G::Hdr, F::OpenExr => G::OpenExr,
        F::Farbfeld => G::Farbfeld, F::Avif => G::Avif, F::Qoi => G::Qoi, _ => G::Unknown,
    })
}

/// `image::load_from_memory`: guesses the format from the magic bytes (failing
/// when none matches, so a decoded blob always has a guessed format) and
/// decodes the whole image; the error is turned into its text.
#[verifier::external_body]
fn load_raster(blob: &[u8]) -> (r: Result<Raster, String>)
    ensures
        match decode_failure(blob@) {
            Some(m) => r matches Err(s) && s@ == m,
            None => r matches Ok(x) && x.is_decoded_from(blob@),
        },
        r is Ok ==> guessed_format(blob@) is Some,
{
    match image::load_from_memory(blob) {
        Ok(image) => Ok(Raster { image, source: Ghost(blob@), fit: Ghost(None), flat: Ghost(false) }),
        Err(e) => Err(e.to_string()),
    }
}

/// `DynamicImage::width`.
#[verifier::external_body]
fn raster_width(r: &Raster) -> (w: u32)
    requires
        r.fit() is None && !r.flat(),
    ensures
        w == decoded_width(r.source()),
{
    r.image.width()
}

/// `DynamicImage::height`.
#[verifier::external_body]
fn raster_height(r: &Raster) -> (h: u32)
    requires
        r.fit() is None && !r.flat(),
    ensures
        h == decoded_height(r.source()),
{
    r.image.height()
}

/// `DynamicImage::color`, converted variant by variant.
#[verifier::external_body]
fn raster_color(r: &Raster) -> (c: ColorModel)
    requires
        r.fit() is None && !r.flat(),
    ensures
        c == decoded_color(r.source()),
{
    match r.image.color() {
        T::L8 => M::L8, T::La8 => M::La8, T::Rgb8 => M::Rgb8, T::Rgba8 => M::Rgba8,
        T::L16 => M::L16, T::La16 => M::La16, T::Rgb16 => M::Rgb16, T::Rgba16 => M::Rgba16,
        T::Rgb32F => M::Rgb32F, T::Rgba32F => M::Rgba32F, _ => M::Other,
    }
}

/// `Hasher::hash_image` (then `ImageHash::as_bytes`), with the hasher built by
/// `HasherConfig` from the hash size and algorithm of `settings`, without
/// preprocessing (`settings.dct` is not consulted). The bytes are stated only
/// to be a possible hash (see `hash_bytes_possible`); their length is not
/// stated, as `image_hasher` does not document it.
#[verifier::external_body]
fn hash_raster(r: &Raster, settings: &HashSettings) -> (bytes: Vec<u8>)
    requires
        r.fit() is None && !r.flat(),
        1 <= settings.width <= 64,
        1 <= settings.height <= 64,
    ensures
        hash_bytes_possible(r.source(), settings.width, settings.height, settings.algorithm, false, bytes@),
{
    let algorithm = match settings.algorithm {
        HashAlgorithm::Mean => HashAlg::Mean,
        HashAlgorithm::Gradient => HashAlg::Gradient,
        HashAlgorithm::DoubleGradient => HashAlg::DoubleGradient,
    };
    let config = HasherConfig::new().hash_size(settings.width, settings.height).hash_alg(algorithm);
    config.to_hasher().hash_image(&r.image).as_bytes().to_vec()
}

/// As `hash_raster`, with the hasher's DCT preprocessing
/// (`HasherConfig::preproc_dct`) switched on. The DCT runs in `f32` through an
/// FFT that `rustfft` picks at run time for the machine (AVX, SSE, NEON or
/// scalar), and these round differently, so only a possible hash is stated.
#[verifier::external_body]
fn hash_raster_dct(r: &Raster, settings: &HashSettings) -> (bytes: Vec<u8>)
    requires
        r.fit() is None && !r.flat(),
        1 <= settings.width <= 64,
        1 <= settings.height <= 64,
    ensures
        hash_bytes_possible(r.source(), settings.width, settings.height, settings.algorithm, true, bytes@),
{
    let algorithm = match settings.algorithm {
        HashAlgorithm::Mean => HashAlg::Mean,
        HashAlgorithm::Gradient => HashAlg::Gradient,
        HashAlgorithm::DoubleGradient => HashAlg::DoubleGradient,
    };
    let config = HasherConfig::new().hash_size(settings.width, settings.height).hash_alg(algorithm);
    config.preproc_dct().to_hasher().hash_image(&r.image).as_bytes().to_vec()
}

/// `DynamicImage::thumbnail`: the image scaled to fit `max_w` × `max_h`.
#[verifier::external_body]
fn shrink_raster(r: &Raster, max_w: u32, max_h: u32) -> (t: Raster)
    requires
        r.fit() is None,
        !r.flat(),
        max_w > 0,
        max_h > 0,
    ensures
        t.source() == r.source(),
        t.fit() == Some((max_w, max_h)),
        t.flat() == r.flat(),
{
    Raster { image: r.image.thumbnail(max_w, max_h), source: r.source, fit: Ghost(Some((max_w, max_h))), flat: r.flat }
}

/// `DynamicImage::to_rgb8`: the image flattened to 8-bit RGB (alpha dropped).
#[verifier::external_body]
fn flatten_raster(r: &Raster) -> (t: Raster)
    ensures
        t.source() == r.source(),
        t.fit() == r.fit(),
        t.flat(),
{
    Raster { image: DynamicImage::ImageRgb8(r.image.to_rgb8()), source: r.source, fit: r.fit, flat: Ghost(true) }
}

/// `DynamicImage::write_to` into an in-memory buffer, in the `image` format
/// that `format` names; the error is turned into its text.
#[verifier::external_body]
fn write_raster(r: &Raster, format: OutFormat) -> (out: Result<Vec<u8>, String>)
    ensures
        match raster_encoding(r.source(), r.fit(), r.flat(), format) {
            Ok(b) => out matches Ok(v) && v@ == b,
            Err(m) => out matches Err(s) && s@ == m,
        },
{
    let target = match format {
        OutFormat::Jpeg => ImageFormat::Jpeg, OutFormat::Png => ImageFormat::Png,
        OutFormat::WebP => ImageFormat::WebP, OutFormat::Gif => ImageFormat::Gif,
        OutFormat::Bmp => ImageFormat::Bmp, OutFormat::Tiff => ImageFormat::Tiff,
    };
    let mut buffer = Cursor::new(Vec::new());
    match r.image.write_to(&mut buffer, target) {
        Ok(()) => Ok(buffer.into_inner()),
        Err(e) => Err(e.to_string()),
    }
}


/// Decoded structural facts about an image, the payload of `image_info`.
#[derive(Debug, Clone, PartialEq)]
pub struct ImageInfo {
    pub format: String,
    pub width: u32,
    pub height: u32,
    /// A human-readable color model, e.g. `rgb8`, `rgba8`, `l8`, `la16`.
    pub color: String,
    pub has_alpha: bool,
}

/// `ImageInfo` with its strings as character sequences.
pub struct ImageInfoView {
    pub format: Seq<char>,
    pub width: u32,
    pub height: u32,
    pub color: Seq<char>,
    pub has_alpha: bool,
}

impl View for ImageInfo {
    type V = ImageInfoView;

    open spec fn view(&self) -> ImageInfoView {
        ImageInfoView {
            format: self.format@,
            width: self.width,
            height: self.height,
            color: self.color@,
            has_alpha: self.has_alpha,
        }
    }
}

/// A result with its value taken by its view and its error by its message.
pub open spec fn result_view<T: View>(r: Result<T, ImgError>) -> Result<T::V, Seq<char>> {
    match r {
        Ok(v) => Ok(v@),
        Err(e) => Err(e.0@),
    }
}

/// The message for a blob that does not decode.
pub open spec fn decode_message(reason: Seq<char>) -> Seq<char> {
    "could not decode image: "@ + reason
}

/// The message for an image that does not encode.
pub open spec fn encode_message(reason: Seq<char>) -> Seq<char> {
    "could not encode image: "@ + reason
}

/// The message for a thumbnail box with a zero side.
pub open spec fn empty_box_message() -> Seq<char> {
    "thumbnail width and height must be positive"@
}

/// The format token reported for a blob: that of its guessed format, or
/// `unknown` when none is recognised.
pub open spec fn guessed_token(blob: Seq<u8>) -> Seq<char> {
    match guessed_format(blob) {
        Some(f) => format_token(f),
        None => "unknown"@,
    }
}

/// What `image_info` reports for a blob.
pub open spec fn info_outcome(blob: Seq<u8>) -> Result<ImageInfoView, Seq<char>> {
    match decode_failure(blob) {
        Some(reason) => Err(decode_message(reason)),
        None => Ok(
            ImageInfoView {
                format: guessed_token(blob),
                width: decoded_width(blob),
                height: decoded_height(blob),
                color: color_token(decoded_color(blob)),
                has_alpha: model_has_alpha(decoded_color(blob)),
            },
        ),
    }
}

/// Whether `r` is a result that `perceptual_hash` may give for a blob and a
/// kind of hash. A blob that does not decode gives its decode error. Otherwise
/// the result is the packed word of some hash bytes that `image_hasher` may
/// compute for the decoded image under the kind's settings (8×8; mean,
/// gradient, or double gradient over DCT-preprocessed pixels).
pub open spec fn hash_admits(blob: Seq<u8>, kind: HashKind, r: Result<u64, Seq<char>>) -> bool {
    match decode_failure(blob) {
        Some(reason) => r == Err::<u64, Seq<char>>(decode_message(reason)),
        None => {
            let s = settings_for(kind);
            r matches Ok(h) && exists|b: Seq<u8>|
                #[trigger] hash_bytes_possible(blob, s.width, s.height, s.algorithm, s.dct, b) && h
                    == packed_hash(b)
        },
    }
}

/// What encoding the image decoded from `blob` (shrunk to `fit` when given)
/// in `format` gives: JPEG output is flattened to 8-bit RGB first.
pub open spec fn encoded_outcome(blob: Seq<u8>, fit: Option<(u32, u32)>, format: OutFormat) -> Result<
    Seq<u8>,
    Seq<char>,
> {
    match raster_encoding(blob, fit, format == OutFormat::Jpeg, format) {
        Ok(bytes) => Ok(bytes),
        Err(reason) => Err(encode_message(reason)),
    }
}

/// Whether the image decoded from `blob` already fits a `max_w` × `max_h` box.
pub open spec fn fits_box(blob: Seq<u8>, max_w: u32, max_h: u32) -> bool {
    decoded_width(blob) <= max_w && decoded_height(blob) <= max_h
}

/// What `thumbnail` returns: a zero box side is refused before anything else;
/// an image that already fits the box is re-encoded as it is (never
/// upscaled), any other is scaled down to fit the box first.
pub open spec fn thumbnail_outcome(blob: Seq<u8>, max_w: u32, max_h: u32, format: OutFormat) -> Result<
    Seq<u8>,
    Seq<char>,
> {
    if max_w == 0 || max_h == 0 {
        Err(empty_box_message())
    } else {
        match decode_failure(blob) {
            Some(reason) => Err(decode_message(reason)),
            None => if fits_box(blob, max_w, max_h) {
                encoded_outcome(blob, None, format)
            } else {
                encoded_outcome(blob, Some((max_w, max_h)), format)
            },
        }
    }
}

/// What `convert` returns.
pub open spec fn convert_outcome(blob: Seq<u8>, format: OutFormat) -> Result<Seq<u8>, Seq<char>> {
    match decode_failure(blob) {
        Some(reason) => Err(decode_message(reason)),
        None => encoded_outcome(blob, None, format),
    }
}

/// Guess the format and read dimensions/color of an image.
pub fn image_info(blob: &[u8]) -> (r: Result<ImageInfo, ImgError>)
    ensures
        result_view(r) == info_outcome(blob@),
        r is Ok ==> guessed_format(blob@) is Some,
        blob@.len() == 0 || !signature_lead(blob@[0]) ==> r is Err,
        blob@.len() >= 8 && blob@.subrange(0, 8) == png_signature() ==> (r matches Ok(info) ==> info.format@
            == "png"@),
{
    let guessed = guess_format(blob);
    let format = match guessed {
        Some(f) => format_name(f),
        None => "unknown",
    };
    let raster = match decode(blob) {
        Ok(raster) => raster,
        Err(e) => return Err(e),
    };
    let color = raster_color(&raster);
    Ok(
        ImageInfo {
            format: String::from_str(format),
            width: raster_width(&raster),
            height: raster_height(&raster),
            color: String::from_str(color_name(color)),
            has_alpha: color.has_alpha(),
        },
    )
}

/// Compute a 64-bit perceptual hash of `blob` using `kind`. The 8×8 hash bytes
/// are packed big-endian into a `u64` so Hamming distance over the integers
/// matches bitwise distance over the hash.
pub fn perceptual_hash(blob: &[u8], kind: HashKind) -> (r: Result<u64, ImgError>)
    ensures
        hash_admits(blob@, kind, result_view(r)),
{
    let raster = match decode(blob) {
        Ok(raster) => raster,
        Err(e) => return Err(e),
    };
    let settings = hash_settings(kind);
    let bytes = if settings.dct {
        hash_raster_dct(&raster, &settings)
    } else {
        hash_raster(&raster, &settings)
    };
    let word = pack_hash_bytes(bytes.as_slice());
    assert(word == packed_hash(bytes@));
    Ok(word)
}

/// Resize `blob` to fit within `max_w` × `max_h` preserving aspect ratio, then
/// re-encode to `format`. Never upscales beyond the source resolution: an
/// image that already fits the box keeps its size.
pub fn thumbnail(blob: &[u8], max_w: u32, max_h: u32, format: OutFormat) -> (r: Result<Vec<u8>, ImgError>)
    ensures
        result_view(r) == thumbnail_outcome(blob@, max_w, max_h, format),
        max_w > 0 && max_h > 0 && decode_failure(blob@) is None ==> result_view(r) == (if decoded_width(blob@)
            <= max_w && decoded_height(blob@) <= max_h {
            encoded_outcome(blob@, None, format)
        } else {
            encoded_outcome(blob@, Some((max_w, max_h)), format)
        }),
{
    if max_w == 0 || max_h == 0 {
        return Err(ImgError(String::from_str("thumbnail width and height must be positive")));
    }
    let raster = match decode(blob) {
        Ok(raster) => raster,
        Err(e) => return Err(e),
    };
    if raster_width(&raster) <= max_w && raster_height(&raster) <= max_h {
        encode(&raster, format)
    } else {
        let thumb = shrink_raster(&raster, max_w, max_h);
        encode(&thumb, format)
    }
}

/// Decode `blob` and re-encode it to `format` (full resolution, no resize).
pub fn convert(blob: &[u8], format: OutFormat) -> (r: Result<Vec<u8>, ImgError>)
    ensures
        result_view(r) == convert_outcome(blob@, format),
{
    let raster = match decode(blob) {
        Ok(raster) => raster,
        Err(e) => return Err(e),
    };
    encode(&raster, format)
}

fn decode(blob: &[u8]) -> (r: Result<Raster, ImgError>)
    ensures
        match decode_failure(blob@) {
            Some(reason) => r matches Err(e) && e.0@ == decode_message(reason),
            None => r matches Ok(x) && x.is_decoded_from(blob@),
        },
        r is Ok ==> guessed_format(blob@) is Some,
{
    match load_raster(blob) {
        Ok(raster) => Ok(raster),
        Err(reason) => Err(ImgError(concat2("could not decode image: ", reason.as_str()))),
    }
}

fn encode(img: &Raster, format: OutFormat) -> (r: Result<Vec<u8>, ImgError>)
    requires
        !img.flat(),
    ensures
        result_view(r) == match raster_encoding(img.source(), img.fit(), format == OutFormat::Jpeg, format) {
            Ok(bytes) => Ok(bytes),
            Err(reason) => Err(encode_message(reason)),
        },
{
    // JPEG has no alpha; drop it to RGB8 first so encoding can't fail on RGBA.
    let written = match format {
        OutFormat::Jpeg => write_raster(&flatten_raster(img), format),
        _ => write_raster(img, format),
    };
    match written {
        Ok(bytes) => Ok(bytes),
        Err(reason) => Err(ImgError(concat2("could not encode image: ", reason.as_str()))),
    }
}

/// Law: an image fits a box exactly when its width is at most the box's width
/// and its height at most the box's height.
pub proof fn lemma_fits_box_both_sides(blob: Seq<u8>, max_w: u32, max_h: u32)
    ensures
        fits_box(blob, max_w, max_h) <==> (decoded_width(blob) <= max_w && decoded_height(blob) <= max_h),
{
}

/// Law: a thumbnail of a decodable image in a non-empty box is the image at
/// its own size exactly when it is no wider than the box and no taller than the
/// box; an image over the box on either side is always scaled to fit the box.
pub proof fn lemma_thumbnail_shrinks_unless_it_fits(blob: Seq<u8>, max_w: u32, max_h: u32, format: OutFormat)
    requires
        max_w > 0,
        max_h > 0,
        decode_failure(blob) is None,
    ensures
        decoded_width(blob) <= max_w && decoded_height(blob) <= max_h ==> thumbnail_outcome(blob, max_w, max_h, format)
            == encoded_outcome(blob, None, format),
        decoded_width(blob) > max_w ==> thumbnail_outcome(blob, max_w, max_h, format) == encoded_outcome(
            blob,
            Some((max_w, max_h)),
            format,
        ),
        decoded_height(blob) > max_h ==> thumbnail_outcome(blob, max_w, max_h, format) == encoded_outcome(
            blob,
            Some((max_w, max_h)),
            format,
        ),
{
}

/// Law: output is flattened to 8-bit RGB (alpha dropped) exactly when it is
/// JPEG, and encoding failures carry the encoder's reason.
pub proof fn lemma_only_jpeg_is_flattened(blob: Seq<u8>, fit: Option<(u32, u32)>, format: OutFormat)
    ensures
        format == OutFormat::Jpeg ==> encoded_outcome(blob, fit, format) == match raster_encoding(blob, fit, true, format) {
            Ok(bytes) => Ok::<Seq<u8>, Seq<char>>(bytes),
            Err(reason) => Err("could not encode image: "@ + reason),
        },
        format != OutFormat::Jpeg ==> encoded_outcome(blob, fit, format) == match raster_encoding(blob, fit, false, format) {
            Ok(bytes) => Ok::<Seq<u8>, Seq<char>>(bytes),
            Err(reason) => Err("could not encode image: "@ + reason),
        },
{
}

/// Law: a box with a zero side is refused, whatever the blob, with the same
/// message; the blob is not even decoded.
pub proof fn lemma_thumbnail_refuses_empty_box(blob: Seq<u8>, max_w: u32, max_h: u32, format: OutFormat)
    requires
        max_w == 0 || max_h == 0,
    ensures
        thumbnail_outcome(blob, max_w, max_h, format) == Err::<Seq<u8>, Seq<char>>(
            "thumbnail width and height must be positive"@,
        ),
{
}

/// Law: a blob that does not decode is refused by every operation with the
/// decoder's reason after "could not decode image: ", thumbnails in a
/// non-empty box included.
pub proof fn lemma_undecodable_is_refused(blob: Seq<u8>, max_w: u32, max_h: u32, format: OutFormat, kind: HashKind)
    requires
        decode_failure(blob) is Some,
    ensures
        info_outcome(blob) == Err::<ImageInfoView, Seq<char>>("could not decode image: "@ + decode_failure(blob)->Some_0),
        convert_outcome(blob, format) == Err::<Seq<u8>, Seq<char>>("could not decode image: "@ + decode_failure(blob)->Some_0),
        hash_admits(blob, kind, Err("could not decode image: "@ + decode_failure(blob)->Some_0)),
        forall|h: u64| !hash_admits(blob, kind, Ok(h)),
        max_w > 0 && max_h > 0 ==> thumbnail_outcome(blob, max_w, max_h, format) == Err::<Seq<u8>, Seq<char>>(
            "could not decode image: "@ + decode_failure(blob)->Some_0,
        ),
{
}

/// Law: conversion of a decodable blob keeps the image at full size: it is the
/// encoding of the decoded image with no box.
pub proof fn lemma_convert_keeps_full_size(blob: Seq<u8>, format: OutFormat)
    requires
        decode_failure(blob) is None,
    ensures
        convert_outcome(blob, format) == encoded_outcome(blob, None, format),
{
}

/// Law: a hash of a decodable blob always succeeds and is the packed word of
/// some bytes the hasher may give on an 8×8 grid, with the kind's algorithm
/// (average: mean; difference: gradient; perceptual: double gradient), DCT
/// preprocessing for the perceptual hash alone; a hash that could come from no
/// such bytes is never given.
pub proof fn lemma_hash_is_an_8x8_hash(blob: Seq<u8>, kind: HashKind, r: Result<u64, Seq<char>>)
    requires
        decode_failure(blob) is None,
        hash_admits(blob, kind, r),
    ensures
        r is Ok,
        kind == HashKind::Average ==> exists|b: Seq<u8>|
            #[trigger] hash_bytes_possible(blob, 8, 8, HashAlgorithm::Mean, false, b) && r->Ok_0 == packed_hash(b),
        kind == HashKind::Difference ==> exists|b: Seq<u8>|
            #[trigger] hash_bytes_possible(blob, 8, 8, HashAlgorithm::Gradient, false, b) && r->Ok_0 == packed_hash(b),
        kind == HashKind::Perceptual ==> exists|b: Seq<u8>|
            #[trigger] hash_bytes_possible(blob, 8, 8, HashAlgorithm::DoubleGradient, true, b) && r->Ok_0
                == packed_hash(b),
{
}

} // verus!
