//! `thumbnail(blob)` (128×128 JPEG default), `thumbnail_fit(blob, width, height,
//! format)` (explicit box + format), and `convert(blob, format)` — each decodes
//! the BLOB and emits a re-encoded BLOB.

use vstd::prelude::*;

use crate::columns::{BlobFunction, column_fits, column_view, exactly, run_column};
use crate::error::ImgError;
use crate::formats::{OutFormat, out_format_named, unsupported_format_message};
use crate::imaging::{convert, convert_outcome, result_view, thumbnail, thumbnail_outcome};
use crate::text::{ascii_lower, concat2, concat3, decimal_text, push_decimal};

verus! {

/// The thumbnail box side used when the caller gives none.
pub const DEFAULT_DIM: u32 = 128;

/// The message for a box dimension that is not a positive `u32`.
pub open spec fn dim_message(name: Seq<char>, n: i64) -> Seq<char> {
    "thumbnail_fit: '"@ + name + "' must be a positive integer, got "@ + decimal_text(n as int)
}

/// What a dimension constant gives: itself when it is a positive integer in
/// `u32` range, an error otherwise.
pub open spec fn dim_outcome(n: i64, name: Seq<char>) -> Result<u32, Seq<char>> {
    if 0 < n && n <= u32::MAX {
        Ok(n as u32)
    } else {
        Err(dim_message(name, n))
    }
}

/// Validate a bind-time dimension constant: a positive integer in `u32` range.
pub fn parse_dim(n: i64, name: &str) -> (r: Result<u32, ImgError>)
    ensures
        result_view(r) == dim_outcome(n, name@),
{
    if n > 0 && n <= u32::MAX as i64 {
        Ok(n as u32)
    } else {
        let mut message = concat3("thumbnail_fit: '", name, "' must be a positive integer, got ");
        push_decimal(&mut message, n);
        Err(ImgError(message))
    }
}

/// What an optional dimension constant gives: the default when absent.
pub open spec fn dim_at_outcome(arg: Option<i64>, name: Seq<char>) -> Result<u32, Seq<char>> {
    match arg {
        None => Ok(DEFAULT_DIM),
        Some(n) => dim_outcome(n, name),
    }
}

/// Read the positional const dimension (`width`/`height`), defaulting to 128
/// when the caller omits it.
pub fn dim_at(arg: Option<i64>, name: &str) -> (r: Result<u32, ImgError>)
    ensures
        result_view(r) == dim_at_outcome(arg, name@),
{
    match arg {
        None => Ok(DEFAULT_DIM),
        Some(n) => parse_dim(n, name),
    }
}

/// An optional string taken by its characters.
pub open spec fn opt_text(s: Option<String>) -> Option<Seq<char>> {
    match s {
        Some(t) => Some(t@),
        None => None,
    }
}

/// What a required output-format constant gives, `function` naming the
/// scalar function for the message when it is missing.
pub open spec fn format_arg_outcome(format: Option<Seq<char>>, function: Seq<char>) -> Result<
    OutFormat,
    Seq<char>,
> {
    match format {
        None => Err(function + ": a target format string is required"@),
        Some(s) => match out_format_named(ascii_lower(s)) {
            Some(f) => Ok(f),
            None => Err(unsupported_format_message(ascii_lower(s))),
        },
    }
}

fn format_arg(format: &Option<String>, function: &str) -> (r: Result<OutFormat, ImgError>)
    ensures
        result_view(r) == format_arg_outcome(opt_text(*format), function@),
{
    match format {
        None => Err(ImgError(concat2(function, ": a target format string is required"))),
        Some(s) => OutFormat::parse(s.as_str()),
    }
}

/// The `thumbnail` scalar function: a 128×128 JPEG thumbnail.
pub struct Thumbnail;

impl BlobFunction for Thumbnail {
    type Output = Vec<u8>;

    open spec fn admits(&self, blob: Seq<u8>, r: Result<Seq<u8>, Seq<char>>) -> bool {
        r == thumbnail_outcome(blob, DEFAULT_DIM, DEFAULT_DIM, OutFormat::Jpeg)
    }

    fn apply(&self, blob: &[u8]) -> (r: Result<Vec<u8>, ImgError>) {
        thumbnail(blob, DEFAULT_DIM, DEFAULT_DIM, OutFormat::Jpeg)
    }
}

impl Thumbnail {
    /// The thumbnail of every row: NULL for a NULL row; the first row that
    /// fails fails the column.
    pub fn thumbnail_column(&self, rows: &Vec<Option<Vec<u8>>>) -> (r: Result<Vec<Option<Vec<u8>>>, ImgError>)
        ensures
            column_fits(rows.deep_view(), exactly(|b: Seq<u8>| thumbnail_outcome(b, DEFAULT_DIM, DEFAULT_DIM, OutFormat::Jpeg)), column_view(r)),
    {
        let r = run_column(rows, self);
        assert((|b: Seq<u8>, x: Result<Seq<u8>, Seq<char>>| self.admits(b, x)) =~= exactly(|b: Seq<u8>| thumbnail_outcome(b, DEFAULT_DIM, DEFAULT_DIM, OutFormat::Jpeg)));
        r
    }
}

/// The `thumbnail_fit` scalar function: a thumbnail with an explicit bounding
/// box and output format, given as positional constants.
pub struct ThumbnailFit;

/// The resolved constants of a `thumbnail_fit` call.
#[derive(Debug, Clone, Copy, PartialEq, Eq, Structural)]
pub struct FitArguments {
    pub width: u32,
    pub height: u32,
    pub format: OutFormat,
}

impl View for FitArguments {
    type V = FitArguments;

    open spec fn view(&self) -> FitArguments {
        *self
    }
}

/// What the constants of a `thumbnail_fit` call resolve to: width and height
/// (128 when absent, else checked), then the required format, in that order.
pub open spec fn fit_arguments_outcome(
    width: Option<i64>,
    height: Option<i64>,
    format: Option<Seq<char>>,
) -> Result<FitArguments, Seq<char>> {
    match dim_at_outcome(width, "width"@) {
        Err(m) => Err(m),
        Ok(w) => match dim_at_outcome(height, "height"@) {
            Err(m) => Err(m),
            Ok(h) => match format_arg_outcome(format, "thumbnail_fit"@) {
                Err(m) => Err(m),
                Ok(f) => Ok(FitArguments { width: w, height: h, format: f }),
            },
        },
    }
}

impl ThumbnailFit {
    /// Resolve the positional constants `(width, height, format)`.
    pub fn arguments(&self, width: Option<i64>, height: Option<i64>, format: &Option<String>) -> (r:
        Result<FitArguments, ImgError>)
        ensures
            result_view(r) == fit_arguments_outcome(width, height, opt_text(*format)),
    {
        let w = match dim_at(width, "width") {
            Ok(w) => w,
            Err(e) => return Err(e),
        };
        let h = match dim_at(height, "height") {
            Ok(h) => h,
            Err(e) => return Err(e),
        };
        let f = match format_arg(format, "thumbnail_fit") {
            Ok(f) => f,
            Err(e) => return Err(e),
        };
        Ok(FitArguments { width: w, height: h, format: f })
    }

    /// Validate the constants eagerly at bind time: fails exactly when
    /// resolving them fails, with the same message.
    pub fn bind(&self, width: Option<i64>, height: Option<i64>, format: &Option<String>) -> (r: Result<
        (),
        ImgError,
    >)
        ensures
            r is Ok <==> fit_arguments_outcome(width, height, opt_text(*format)) is Ok,
            r matches Err(e) ==> fit_arguments_outcome(width, height, opt_text(*format)) == Err::<
                FitArguments,
                Seq<char>,
            >(e.0@),
    {
        match self.arguments(width, height, format) {
            Ok(_) => Ok(()),
            Err(e) => Err(e),
        }
    }

    /// The fitted thumbnail of every row: NULL for a NULL row; the first row
    /// that fails fails the column.
    pub fn fit_column(&self, args: &FitArguments, rows: &Vec<Option<Vec<u8>>>) -> (r: Result<
        Vec<Option<Vec<u8>>>,
        ImgError,
    >)
        ensures
            column_fits(rows.deep_view(), exactly(|b: Seq<u8>| thumbnail_outcome(b, args.width, args.height, args.format)), column_view(r)),
    {
        let r = run_column(rows, args);
        assert((|b: Seq<u8>, x: Result<Seq<u8>, Seq<char>>| args.admits(b, x)) =~= exactly(|b: Seq<u8>| thumbnail_outcome(b, args.width, args.height, args.format)));
        r
    }
}

impl BlobFunction for FitArguments {
    type Output = Vec<u8>;

    open spec fn admits(&self, blob: Seq<u8>, r: Result<Seq<u8>, Seq<char>>) -> bool {
        r == thumbnail_outcome(blob, self.width, self.height, self.format)
    }

    fn apply(&self, blob: &[u8]) -> (r: Result<Vec<u8>, ImgError>) {
        thumbnail(blob, self.width, self.height, self.format)
    }
}

/// The `convert` scalar function: re-encode to another format.
pub struct Convert;

/// Conversion to one output format.
#[derive(Debug, Clone, Copy, PartialEq, Eq, Structural)]
pub struct ConvertTo {
    pub format: OutFormat,
}

impl BlobFunction for ConvertTo {
    type Output = Vec<u8>;

    open spec fn admits(&self, blob: Seq<u8>, r: Result<Seq<u8>, Seq<char>>) -> bool {
        r == convert_outcome(blob, self.format)
    }

    fn apply(&self, blob: &[u8]) -> (r: Result<Vec<u8>, ImgError>) {
        convert(blob, self.format)
    }
}

impl Convert {
    /// Resolve the positional format constant.
    pub fn arguments(&self, format: &Option<String>) -> (r: Result<ConvertTo, ImgError>)
        ensures
            match format_arg_outcome(opt_text(*format), "convert"@) {
                Ok(f) => r == Ok::<ConvertTo, ImgError>(ConvertTo { format: f }),
                Err(m) => r matches Err(e) && e.0@ == m,
            },
    {
        match format_arg(format, "convert") {
            Ok(f) => Ok(ConvertTo { format: f }),
            Err(e) => Err(e),
        }
    }

    /// Validate the format constant eagerly at bind time.
    pub fn bind(&self, format: &Option<String>) -> (r: Result<(), ImgError>)
        ensures
            r is Ok <==> format_arg_outcome(opt_text(*format), "convert"@) is Ok,
            r matches Err(e) ==> format_arg_outcome(opt_text(*format), "convert"@) == Err::<
                OutFormat,
                Seq<char>,
            >(e.0@),
    {
        match format_arg(format, "convert") {
            Ok(_) => Ok(()),
            Err(e) => Err(e),
        }
    }

    /// The converted image of every row: NULL for a NULL row; the first row
    /// that fails fails the column.
    pub fn convert_column(&self, to: &ConvertTo, rows: &Vec<Option<Vec<u8>>>) -> (r: Result<
        Vec<Option<Vec<u8>>>,
        ImgError,
    >)
        ensures
            column_fits(rows.deep_view(), exactly(|b: Seq<u8>| convert_outcome(b, to.format)), column_view(r)),
    {
        let r = run_column(rows, to);
        assert((|b: Seq<u8>, x: Result<Seq<u8>, Seq<char>>| to.admits(b, x)) =~= exactly(|b: Seq<u8>| convert_outcome(b, to.format)));
        r
    }
}

/// A dimension constant as the caller gave it, 128 when absent.
pub open spec fn given_or_default(arg: Option<i64>) -> int {
    match arg {
        None => 128,
        Some(n) => n as int,
    }
}

/// A dimension constant that is usable: absent, or a positive integer that
/// fits in 32 bits.
pub open spec fn usable_dim(arg: Option<i64>) -> bool {
    match arg {
        None => true,
        Some(n) => 1 <= n <= 0xffff_ffff,
    }
}

/// Law: a dimension constant resolves exactly when it is absent or a positive
/// 32-bit integer, and then to the given value, or to 128 when absent; a
/// resolved dimension is never zero.
pub proof fn lemma_dimension_resolves(arg: Option<i64>, name: Seq<char>)
    ensures
        dim_at_outcome(arg, name) is Ok <==> usable_dim(arg),
        dim_at_outcome(arg, name) matches Ok(d) ==> d as int == given_or_default(arg) && d >= 1,
        DEFAULT_DIM == 128,
{
}

/// Law: the constants of `thumbnail_fit` resolve exactly when both dimensions
/// are usable and the format names an output format (case-insensitively); the
/// box then has the given width and height (128 for an absent one), in that
/// order, and the named format.
pub proof fn lemma_fit_arguments_resolve(width: Option<i64>, height: Option<i64>, format: Option<Seq<char>>)
    ensures
        fit_arguments_outcome(width, height, format) is Ok <==> usable_dim(width) && usable_dim(height)
            && format is Some && out_format_named(ascii_lower(format->Some_0)) is Some,
        fit_arguments_outcome(width, height, format) matches Ok(a) ==> a.width as int == given_or_default(width)
            && a.height as int == given_or_default(height) && Some(a.format) == out_format_named(
            ascii_lower(format->Some_0),
        ),
{
}

/// Law: the one-argument thumbnail is the thumbnail in a 128 × 128 box,
/// written as JPEG.
pub proof fn lemma_default_thumbnail(blob: Seq<u8>)
    ensures
        Thumbnail.admits(blob, thumbnail_outcome(blob, 128, 128, OutFormat::Jpeg)),
        forall|r: Result<Seq<u8>, Seq<char>>| Thumbnail.admits(blob, r) ==> r == thumbnail_outcome(blob, 128, 128, OutFormat::Jpeg),
{
}

} // verus!
