//! Image formats and color models: the output formats a caller may name, the
//! canonical tokens reported for a guessed input format, and color-model names.

use vstd::prelude::*;

use crate::error::ImgError;
use crate::text::{ascii_lower, concat3, lower_char, str_eq, to_ascii_lower};

verus! {

/// An output image format for `thumbnail` / `convert`.
#[derive(Debug, Clone, Copy, PartialEq, Eq, Structural)]
pub enum OutFormat {
    Jpeg,
    Png,
    WebP,
    Gif,
    Bmp,
    Tiff,
}

impl View for OutFormat {
    type V = OutFormat;

    open spec fn view(&self) -> OutFormat {
        *self
    }
}

/// The output format a lower-case name denotes, if any.
pub open spec fn out_format_named(name: Seq<char>) -> Option<OutFormat> {
    if name == "jpeg"@ || name == "jpg"@ {
        Some(OutFormat::Jpeg)
    } else if name == "png"@ {
        Some(OutFormat::Png)
    } else if name == "webp"@ {
        Some(OutFormat::WebP)
    } else if name == "gif"@ {
        Some(OutFormat::Gif)
    } else if name == "bmp"@ {
        Some(OutFormat::Bmp)
    } else if name == "tiff"@ || name == "tif"@ {
        Some(OutFormat::Tiff)
    } else {
        None
    }
}

/// The message for an output format name that is not supported.
pub open spec fn unsupported_format_message(lowered: Seq<char>) -> Seq<char> {
    "unsupported output format '"@ + lowered + "'"@
}

impl OutFormat {
    /// Parse a case-insensitive format name (`jpeg`/`jpg`, `png`, …).
    pub fn parse(s: &str) -> (r: Result<OutFormat, ImgError>)
        ensures
            out_format_named(ascii_lower(s@)) matches Some(f) ==> r == Ok::<OutFormat, ImgError>(f),
            out_format_named(ascii_lower(s@)) is None ==> (r matches Err(e) && e.0@
                == unsupported_format_message(ascii_lower(s@))),
    {
        let lowered = to_ascii_lower(s);
        let name = lowered.as_str();
        if str_eq(name, "jpeg") || str_eq(name, "jpg") {
            Ok(OutFormat::Jpeg)
        } else if str_eq(name, "png") {
            Ok(OutFormat::Png)
        } else if str_eq(name, "webp") {
            Ok(OutFormat::WebP)
        } else if str_eq(name, "gif") {
            Ok(OutFormat::Gif)
        } else if str_eq(name, "bmp") {
            Ok(OutFormat::Bmp)
        } else if str_eq(name, "tiff") || str_eq(name, "tif") {
            Ok(OutFormat::Tiff)
        } else {
            Err(ImgError(concat3("unsupported output format '", name, "'")))
        }
    }

    /// Every lower-case spelling that `parse` accepts, for discovery-facing
    /// argument constraints: the list names a format exactly when `parse`
    /// accepts the name.
    pub fn accepted() -> (names: Vec<&'static str>)
        ensures
            names.len() == 8,
            forall|i: int| 0 <= i < names.len() ==> (#[trigger] out_format_named(names[i]@)) is Some,
            forall|name: Seq<char>|
                (#[trigger] out_format_named(name)) is Some ==> exists|i: int|
                    0 <= i < names.len() && names[i]@ == name,
    {
        let names: Vec<&'static str> = vec!["jpeg", "jpg", "png", "webp", "gif", "bmp", "tiff", "tif"];
        proof {
            reveal_strlit("jpeg");
            reveal_strlit("jpg");
            reveal_strlit("png");
            reveal_strlit("webp");
            reveal_strlit("gif");
            reveal_strlit("bmp");
            reveal_strlit("tiff");
            reveal_strlit("tif");
            assert forall|name: Seq<char>| (#[trigger] out_format_named(name)) is Some implies exists|i: int|
                0 <= i < names.len() && names[i]@ == name by {
                if name == "jpeg"@ {
                    assert(names[0]@ == name);
                } else if name == "jpg"@ {
                    assert(names[1]@ == name);
                } else if name == "png"@ {
                    assert(names[2]@ == name);
                } else if name == "webp"@ {
                    assert(names[3]@ == name);
                } else if name == "gif"@ {
                    assert(names[4]@ == name);
                } else if name == "bmp"@ {
                    assert(names[5]@ == name);
                } else if name == "tiff"@ {
                    assert(names[6]@ == name);
                } else {
                    assert(names[7]@ == name);
                }
            }
        }
        names
    }
}


/// Law: output-format names are case-insensitive — a name and its ASCII
/// lower-cased form denote the same format (lower-casing is idempotent).
pub proof fn lemma_parse_ignores_case(s: Seq<char>)
    ensures
        ascii_lower(ascii_lower(s)) == ascii_lower(s),
        out_format_named(ascii_lower(ascii_lower(s))) == out_format_named(ascii_lower(s)),
{
    assert forall|i: int| 0 <= i < s.len() implies #[trigger] lower_char(lower_char(s[i])) == lower_char(s[i]) by {
        let c = s[i];
        if 'A' <= c && c <= 'Z' {
            assert((((c as u32) + 32) as char) as u32 == (c as u32) + 32);
        }
    }
    assert(ascii_lower(ascii_lower(s)) =~= ascii_lower(s));
}

/// An input image format, as recognised from a blob's magic bytes.
#[derive(Debug, Clone, Copy, PartialEq, Eq, Structural)]
pub enum ImgFormat {
    Png,
    Jpeg,
    Gif,
    WebP,
    Pnm,
    Tiff,
    Tga,
    Dds,
    Bmp,
    Ico,
    Hdr,
    OpenExr,
    Farbfeld,
    Avif,
    Qoi,
    /// A format the library has no name for.
    Unknown,
}

/// Canonical lowercase token of an input format.
pub open spec fn format_token(f: ImgFormat) -> Seq<char> {
    match f {
        ImgFormat::Png => "png"@,
        ImgFormat::Jpeg => "jpeg"@,
        ImgFormat::Gif => "gif"@,
        ImgFormat::WebP => "webp"@,
        ImgFormat::Tiff => "tiff"@,
        ImgFormat::Bmp => "bmp"@,
        ImgFormat::Ico => "ico"@,
        ImgFormat::Hdr => "hdr"@,
        ImgFormat::OpenExr => "exr"@,
        ImgFormat::Pnm => "pnm"@,
        ImgFormat::Tga => "tga"@,
        ImgFormat::Dds => "dds"@,
        ImgFormat::Farbfeld => "farbfeld"@,
        ImgFormat::Avif => "avif"@,
        ImgFormat::Qoi => "qoi"@,
        ImgFormat::Unknown => "unknown"@,
    }
}

/// Canonical lowercase format token for an input format.
pub fn format_name(f: ImgFormat) -> (name: &'static str)
    ensures
        name@ == format_token(f),
{
    match f {
        ImgFormat::Png => "png",
        ImgFormat::Jpeg => "jpeg",
        ImgFormat::Gif => "gif",
        ImgFormat::WebP => "webp",
        ImgFormat::Tiff => "tiff",
        ImgFormat::Bmp => "bmp",
        ImgFormat::Ico => "ico",
        ImgFormat::Hdr => "hdr",
        ImgFormat::OpenExr => "exr",
        ImgFormat::Pnm => "pnm",
        ImgFormat::Tga => "tga",
        ImgFormat::Dds => "dds",
        ImgFormat::Farbfeld => "farbfeld",
        ImgFormat::Avif => "avif",
        ImgFormat::Qoi => "qoi",
        ImgFormat::Unknown => "unknown",
    }
}

/// The color model of a decoded image: channels and bit depth.
#[derive(Debug, Clone, Copy, PartialEq, Eq, Structural)]
pub enum ColorModel {
    L8,
    La8,
    Rgb8,
    Rgba8,
    L16,
    La16,
    Rgb16,
    Rgba16,
    Rgb32F,
    Rgba32F,
    /// A model the library has no name for.
    Other,
}

/// Human-readable name of a color model.
pub open spec fn color_token(c: ColorModel) -> Seq<char> {
    match c {
        ColorModel::L8 => "l8"@,
        ColorModel::La8 => "la8"@,
        ColorModel::Rgb8 => "rgb8"@,
        ColorModel::Rgba8 => "rgba8"@,
        ColorModel::L16 => "l16"@,
        ColorModel::La16 => "la16"@,
        ColorModel::Rgb16 => "rgb16"@,
        ColorModel::Rgba16 => "rgba16"@,
        ColorModel::Rgb32F => "rgb32f"@,
        ColorModel::Rgba32F => "rgba32f"@,
        ColorModel::Other => "other"@,
    }
}

/// Human-readable color-model name.
pub fn color_name(c: ColorModel) -> (name: &'static str)
    ensures
        name@ == color_token(c),
{
    match c {
        ColorModel::L8 => "l8",
        ColorModel::La8 => "la8",
        ColorModel::Rgb8 => "rgb8",
        ColorModel::Rgba8 => "rgba8",
        ColorModel::L16 => "l16",
        ColorModel::La16 => "la16",
        ColorModel::Rgb16 => "rgb16",
        ColorModel::Rgba16 => "rgba16",
        ColorModel::Rgb32F => "rgb32f",
        ColorModel::Rgba32F => "rgba32f",
        ColorModel::Other => "other",
    }
}

/// Whether a color model carries an alpha channel: the luma-alpha and RGBA
/// models do, the others do not.
pub open spec fn model_has_alpha(c: ColorModel) -> bool {
    match c {
        ColorModel::La8 | ColorModel::Rgba8 | ColorModel::La16 | ColorModel::Rgba16
        | ColorModel::Rgba32F => true,
        _ => false,
    }
}

impl ColorModel {
    /// Returns if there is an alpha channel.
    pub fn has_alpha(self) -> (alpha: bool)
        ensures
            alpha == model_has_alpha(self),
    {
        match self {
            ColorModel::La8 | ColorModel::Rgba8 | ColorModel::La16 | ColorModel::Rgba16
            | ColorModel::Rgba32F => true,
            _ => false,
        }
    }
}

} // verus!

verus! {

/// The number of channels of a color model (`ColorType::channel_count`):
/// one for luma, two for luma with alpha, three for RGB, four for RGBA.
pub open spec fn channel_count(c: ColorModel) -> nat {
    match c {
        ColorModel::L8 | ColorModel::L16 => 1,
        ColorModel::La8 | ColorModel::La16 => 2,
        ColorModel::Rgb8 | ColorModel::Rgb16 | ColorModel::Rgb32F => 3,
        ColorModel::Rgba8 | ColorModel::Rgba16 | ColorModel::Rgba32F => 4,
        ColorModel::Other => 0,
    }
}

/// The bits of one channel of a color model, and whether it is a float.
pub open spec fn channel_bits(c: ColorModel) -> (nat, bool) {
    match c {
        ColorModel::L8 | ColorModel::La8 | ColorModel::Rgb8 | ColorModel::Rgba8 => (8, false),
        ColorModel::L16 | ColorModel::La16 | ColorModel::Rgb16 | ColorModel::Rgba16 => (16, false),
        ColorModel::Rgb32F | ColorModel::Rgba32F => (32, true),
        ColorModel::Other => (0, false),
    }
}

/// The letters naming a number of channels: `l`, `la`, `rgb`, `rgba`.
pub open spec fn channel_letters(n: nat) -> Seq<char> {
    if n == 1 {
        "l"@
    } else if n == 2 {
        "la"@
    } else if n == 3 {
        "rgb"@
    } else {
        "rgba"@
    }
}

/// The text naming a channel depth: the bits in decimal, then `f` for a float.
pub open spec fn depth_text(bits: (nat, bool)) -> Seq<char> {
    let digits = if bits.0 == 8 {
        "8"@
    } else if bits.0 == 16 {
        "16"@
    } else {
        "32"@
    };
    if bits.1 {
        digits + "f"@
    } else {
        digits
    }
}

/// Law: a named color model's name spells out what it is — the letters of its
/// channels (`l`, `la`, `rgb`, `rgba`) followed by its channel depth in bits
/// (`f` after a float depth); the model with no name is `other`.
pub proof fn lemma_color_token_spells_model(c: ColorModel)
    ensures
        c != ColorModel::Other ==> color_token(c) == channel_letters(channel_count(c)) + depth_text(channel_bits(c)),
        c == ColorModel::Other ==> color_token(c) == "other"@,
{
    reveal_strlit("l");
    reveal_strlit("la");
    reveal_strlit("rgb");
    reveal_strlit("rgba");
    reveal_strlit("8");
    reveal_strlit("16");
    reveal_strlit("32");
    reveal_strlit("f");
    reveal_strlit("l8");
    reveal_strlit("la8");
    reveal_strlit("rgb8");
    reveal_strlit("rgba8");
    reveal_strlit("l16");
    reveal_strlit("la16");
    reveal_strlit("rgb16");
    reveal_strlit("rgba16");
    reveal_strlit("rgb32f");
    reveal_strlit("rgba32f");
    if c != ColorModel::Other {
        assert(color_token(c) =~= channel_letters(channel_count(c)) + depth_text(channel_bits(c)));
    }
}

/// Law: different color models have different names, so a name tells the
/// model apart.
pub proof fn lemma_color_token_one_to_one(a: ColorModel, b: ColorModel)
    ensures
        color_token(a) == color_token(b) ==> a == b,
{
    lemma_color_token_spells_model(a);
    lemma_color_token_spells_model(b);
    reveal_strlit("other");
    reveal_strlit("l");
    reveal_strlit("la");
    reveal_strlit("rgb");
    reveal_strlit("rgba");
    reveal_strlit("8");
    reveal_strlit("16");
    reveal_strlit("32");
    reveal_strlit("f");
    if color_token(a) == color_token(b) && a != b {
        let ta = color_token(a);
        let tb = color_token(b);
        if a == ColorModel::Other || b == ColorModel::Other {
            assert(ta[0] == tb[0] && ta.len() == tb.len());
        } else {
            assert(ta.len() == tb.len());
            assert(ta[0] == tb[0]);
            assert(ta[1] == tb[1]);
            assert(ta[ta.len() - 1] == tb[tb.len() - 1]);
        }
    }
}

/// Law: a color model has alpha exactly when it has two or four channels.
pub proof fn lemma_alpha_is_even_channels(c: ColorModel)
    ensures
        model_has_alpha(c) <==> (channel_count(c) == 2 || channel_count(c) == 4),
{
}

} // verus!

verus! {

/// The input format that an image written in an output format is read as.
pub open spec fn written_format(f: OutFormat) -> ImgFormat {
    match f {
        OutFormat::Jpeg => ImgFormat::Jpeg,
        OutFormat::Png => ImgFormat::Png,
        OutFormat::WebP => ImgFormat::WebP,
        OutFormat::Gif => ImgFormat::Gif,
        OutFormat::Bmp => ImgFormat::Bmp,
        OutFormat::Tiff => ImgFormat::Tiff,
    }
}

/// Law: the (lower-case) name reported for an image written in an output
/// format is a name of that same output format, so a reported format can be
/// fed back as a target format.
pub proof fn lemma_reported_name_parses_back(f: OutFormat)
    ensures
        out_format_named(format_token(written_format(f))) == Some(f),
{
    reveal_strlit("jpeg");
    reveal_strlit("jpg");
    reveal_strlit("png");
    reveal_strlit("webp");
    reveal_strlit("gif");
    reveal_strlit("bmp");
    reveal_strlit("tiff");
    reveal_strlit("tif");
    let t = format_token(written_format(f));
    match f {
        OutFormat::Jpeg => {},
        OutFormat::Png => {
            assert(t[0] == 'p' && "jpeg"@[0] == 'j' && "jpg"@[0] == 'j');
        },
        OutFormat::WebP => {
            assert(t[0] == 'w' && "jpeg"@[0] == 'j' && "jpg"@[0] == 'j' && "png"@[0] == 'p');
        },
        OutFormat::Gif => {
            assert(t[0] == 'g' && "jpeg"@[0] == 'j' && "jpg"@[0] == 'j' && "png"@[0] == 'p' && "webp"@[0] == 'w');
        },
        OutFormat::Bmp => {
            assert(t[0] == 'b' && "jpeg"@[0] == 'j' && "jpg"@[0] == 'j' && "png"@[0] == 'p' && "webp"@[0] == 'w'
                && "gif"@[0] == 'g');
        },
        OutFormat::Tiff => {
            assert(t[0] == 't' && "jpeg"@[0] == 'j' && "jpg"@[0] == 'j' && "png"@[0] == 'p' && "webp"@[0] == 'w'
                && "gif"@[0] == 'g' && "bmp"@[0] == 'b');
        },
    }
}

/// Law: different input formats have different names.
pub proof fn lemma_format_token_one_to_one(a: ImgFormat, b: ImgFormat)
    ensures
        format_token(a) == format_token(b) ==> a == b,
{
    reveal_strlit("png");
    reveal_strlit("jpeg");
    reveal_strlit("gif");
    reveal_strlit("webp");
    reveal_strlit("tiff");
    reveal_strlit("bmp");
    reveal_strlit("ico");
    reveal_strlit("hdr");
    reveal_strlit("exr");
    reveal_strlit("pnm");
    reveal_strlit("tga");
    reveal_strlit("dds");
    reveal_strlit("farbfeld");
    reveal_strlit("avif");
    reveal_strlit("qoi");
    reveal_strlit("unknown");
    if format_token(a) == format_token(b) && a != b {
        let ta = format_token(a);
        let tb = format_token(b);
        assert(ta.len() == tb.len());
        assert(ta[0] == tb[0]);
        assert(ta[1] == tb[1]);
        assert(ta[2] == tb[2]);
    }
}

} // verus!
