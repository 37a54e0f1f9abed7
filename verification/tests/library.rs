use std::io::Cursor;

use image::{DynamicImage, ImageFormat, Rgb, RgbImage, Rgba, RgbaImage};
use image_worker::formats::{color_name, format_name, ColorModel, ImgFormat, OutFormat};
use image_worker::hashing::{hamming_distance, hash_settings, pack_hash_bytes, HashAlgorithm, HashKind};
use image_worker::imaging::{convert, image_info, perceptual_hash, thumbnail};
use image_worker::meta::{
    agent_test_tasks_json, keywords_json, object_tags, sample_png_expr, SAMPLE_PNG_HEX,
    SAMPLE_PNG_HEX_B,
};
use image_worker::metadata::{coordinate, FieldValue, Ratio};
use image_worker::scalar::hash::{HashCell, PerceptualHash};
use image_worker::scalar::transform::{dim_at, parse_dim, Convert, ThumbnailFit, DEFAULT_DIM};
use image_worker::version;

fn make_png(w: u32, h: u32) -> Vec<u8> {
    let mut img = RgbImage::new(w, h);
    for y in 0..h {
        for x in 0..w {
            let v = ((x + y) * 255 / (w + h)) as u8;
            img.put_pixel(x, y, Rgb([v, 255 - v, (x * 13 % 256) as u8]));
        }
    }
    let mut buf = Cursor::new(Vec::new());
    DynamicImage::ImageRgb8(img)
        .write_to(&mut buf, ImageFormat::Png)
        .unwrap();
    buf.into_inner()
}

fn make_rgba_png(w: u32, h: u32) -> Vec<u8> {
    let mut img = RgbaImage::new(w, h);
    for y in 0..h {
        for x in 0..w {
            img.put_pixel(x, y, Rgba([(x * 7) as u8, (y * 5) as u8, 90, 128]));
        }
    }
    let mut buf = Cursor::new(Vec::new());
    DynamicImage::ImageRgba8(img)
        .write_to(&mut buf, ImageFormat::Png)
        .unwrap();
    buf.into_inner()
}

fn bits_between(x: &[u8], y: &[u8]) -> u32 {
    (0..8)
        .map(|i| {
            let a = x.get(i).copied().unwrap_or(0);
            let b = y.get(i).copied().unwrap_or(0);
            (a ^ b).count_ones()
        })
        .sum()
}

#[test]
fn hamming_is_symmetric_and_zero_only_on_equal() {
    let pairs = [(0u64, 1u64), (0xdead_beef, 0x1234_5678), (u64::MAX, 0x8000_0000_0000_0001)];
    for (a, b) in pairs {
        assert_eq!(hamming_distance(a, b), hamming_distance(b, a));
        assert!(hamming_distance(a, b) > 0);
        assert_eq!(hamming_distance(a, a), 0);
        assert!(hamming_distance(a, b) <= 64);
    }
}

#[test]
fn hamming_obeys_triangle_inequality() {
    let (a, b, c) = (0x0f0f_0f0f_0f0f_0f0fu64, 0x00ff_00ff_00ff_00ffu64, 0xffff_0000_ffff_0000u64);
    assert!(hamming_distance(a, c) <= hamming_distance(a, b) + hamming_distance(b, c));
    assert_eq!(hamming_distance(0x0f, 0xf0), 8);
}

#[test]
fn hash_bytes_pack_big_endian() {
    assert_eq!(pack_hash_bytes(&[1, 2, 3, 4, 5, 6, 7, 8]), 0x0102_0304_0506_0708);
    // Missing bytes count as zero; bytes past the eighth are ignored.
    assert_eq!(pack_hash_bytes(&[0xff]), 0xff00_0000_0000_0000);
    assert_eq!(pack_hash_bytes(&[]), 0);
    assert_eq!(pack_hash_bytes(&[0, 0, 0, 0, 0, 0, 0, 9, 0xaa]), 9);
}

#[test]
fn packed_distance_is_bitwise_distance() {
    let x = [0x12u8, 0x34, 0x56, 0x78, 0x9a, 0xbc, 0xde, 0xf0];
    let y = [0xffu8, 0x00, 0x56, 0x77];
    assert_eq!(
        hamming_distance(pack_hash_bytes(&x), pack_hash_bytes(&y)),
        bits_between(&x, &y)
    );
}

#[test]
fn hash_settings_are_eight_by_eight() {
    let p = hash_settings(HashKind::Perceptual);
    assert_eq!((p.width, p.height, p.algorithm, p.dct), (8, 8, HashAlgorithm::DoubleGradient, true));
    let a = hash_settings(HashKind::Average);
    assert_eq!((a.width, a.height, a.algorithm, a.dct), (8, 8, HashAlgorithm::Mean, false));
    let d = hash_settings(HashKind::Difference);
    assert_eq!((d.algorithm, d.dct), (HashAlgorithm::Gradient, false));
}

#[test]
fn perceptual_hash_of_undecodable_bytes_names_the_cause() {
    let e = perceptual_hash(b"nope", HashKind::Average).unwrap_err();
    assert!(e.message().starts_with("could not decode image: "));
}

#[test]
fn kinds_of_hash_differ_on_a_gradient() {
    let png = make_png(64, 64);
    let a = perceptual_hash(&png, HashKind::Average).unwrap();
    let d = perceptual_hash(&png, HashKind::Difference).unwrap();
    let p = perceptual_hash(&png, HashKind::Perceptual).unwrap();
    assert!(a != d || d != p);
}

#[test]
fn out_format_parse_all_spellings() {
    let cases = [
        ("jpeg", OutFormat::Jpeg),
        ("JPG", OutFormat::Jpeg),
        ("Png", OutFormat::Png),
        ("WEBP", OutFormat::WebP),
        ("gif", OutFormat::Gif),
        ("bMp", OutFormat::Bmp),
        ("TIFF", OutFormat::Tiff),
        ("tif", OutFormat::Tiff),
    ];
    for (name, expected) in cases {
        assert_eq!(OutFormat::parse(name).unwrap(), expected);
    }
    let e = OutFormat::parse("XYZ").unwrap_err();
    assert_eq!(e.message(), "unsupported output format 'xyz'");
    assert!(OutFormat::parse("").is_err());
    assert!(OutFormat::parse("jpeg ").is_err());
}

#[test]
fn accepted_spellings_all_parse() {
    let names = OutFormat::accepted();
    assert_eq!(
        names,
        vec!["jpeg", "jpg", "png", "webp", "gif", "bmp", "tiff", "tif"]
    );
    for name in names {
        assert!(OutFormat::parse(name).is_ok(), "{name} should parse");
    }
}

#[test]
fn format_and_color_names() {
    assert_eq!(format_name(ImgFormat::OpenExr), "exr");
    assert_eq!(format_name(ImgFormat::Jpeg), "jpeg");
    assert_eq!(format_name(ImgFormat::Unknown), "unknown");
    assert_eq!(color_name(ColorModel::La16), "la16");
    assert_eq!(color_name(ColorModel::Rgb32F), "rgb32f");
    assert!(ColorModel::Rgba8.has_alpha());
    assert!(ColorModel::La8.has_alpha());
    assert!(!ColorModel::Rgb16.has_alpha());
    assert!(!ColorModel::L8.has_alpha());
}

#[test]
fn info_reports_alpha_for_rgba() {
    let png = make_rgba_png(6, 5);
    let info = image_info(&png).unwrap();
    assert_eq!(info.color, "rgba8");
    assert!(info.has_alpha);
    assert_eq!((info.width, info.height), (6, 5));
}

#[test]
fn info_of_a_jpeg_and_garbage_message() {
    let jpeg = convert(&make_png(10, 7), OutFormat::Jpeg).unwrap();
    let info = image_info(&jpeg).unwrap();
    assert_eq!(info.format, "jpeg");
    assert_eq!((info.width, info.height), (10, 7));
    let e = image_info(b"").unwrap_err();
    assert!(e.message().starts_with("could not decode image: "));
}

#[test]
fn jpeg_output_drops_alpha() {
    let jpeg = convert(&make_rgba_png(8, 8), OutFormat::Jpeg).unwrap();
    let info = image_info(&jpeg).unwrap();
    assert!(!info.has_alpha);
    let png = convert(&make_rgba_png(8, 8), OutFormat::Png).unwrap();
    assert!(image_info(&png).unwrap().has_alpha);
}

#[test]
fn thumbnail_rejects_an_empty_box() {
    let png = make_png(10, 10);
    let e = thumbnail(&png, 0, 10, OutFormat::Png).unwrap_err();
    assert_eq!(e.message(), "thumbnail width and height must be positive");
    assert!(thumbnail(&png, 10, 0, OutFormat::Png).is_err());
    // An empty box is refused before the bytes are looked at.
    let e = thumbnail(b"garbage", 0, 0, OutFormat::Png).unwrap_err();
    assert_eq!(e.message(), "thumbnail width and height must be positive");
}

#[test]
fn thumbnail_never_scales_up() {
    // An image that already fits the box keeps its size: 100x50 into 128x128.
    let png = make_png(100, 50);
    let out = thumbnail(&png, 128, 128, OutFormat::Png).unwrap();
    let info = image_info(&out).unwrap();
    assert_eq!(info.format, "png");
    assert_eq!((info.width, info.height), (100, 50));
    // One side over the box: scaled down to fit, aspect kept.
    let wide = make_png(200, 50);
    let out = thumbnail(&wide, 128, 128, OutFormat::Png).unwrap();
    let info = image_info(&out).unwrap();
    assert_eq!((info.width, info.height), (128, 32));
}

#[test]
fn convert_to_each_format_round_trips_dimensions() {
    let png = make_png(12, 9);
    for (f, token) in [
        (OutFormat::Png, "png"),
        (OutFormat::Gif, "gif"),
        (OutFormat::Bmp, "bmp"),
        (OutFormat::Tiff, "tiff"),
        (OutFormat::WebP, "webp"),
        (OutFormat::Jpeg, "jpeg"),
    ] {
        let out = convert(&png, f).unwrap();
        let info = image_info(&out).unwrap();
        assert_eq!(info.format, token);
        assert_eq!((info.width, info.height), (12, 9));
    }
}

#[test]
fn keywords_json_examples() {
    assert_eq!(keywords_json("a, b"), "[\"a\",\"b\"]");
    assert_eq!(keywords_json(""), "[]");
    assert_eq!(keywords_json(" , ,"), "[]");
    assert_eq!(keywords_json("x"), "[\"x\"]");
    assert_eq!(keywords_json("  spaced out ,\tTab\n"), "[\"spaced out\",\"Tab\"]");
    assert_eq!(keywords_json("q\"uote, back\\slash"), "[\"q\\\"uote\",\"back\\\\slash\"]");
    assert_eq!(keywords_json("\u{3000}wide\u{a0},,z"), "[\"wide\",\"z\"]");
    assert_eq!(keywords_json("é, ü"), "[\"é\",\"ü\"]");
    assert_eq!(keywords_json(" ,a,, b "), r#"["a","b"]"#);
}

#[test]
fn object_tags_carry_the_five_tags() {
    let tags = object_tags("T", "llm", "md", "a,b", "hashing", "scalar/hash.rs");
    let expected: Vec<(String, String)> = vec![
        ("vgi.title".into(), "T".into()),
        ("vgi.doc_llm".into(), "llm".into()),
        ("vgi.doc_md".into(), "md".into()),
        ("vgi.keywords".into(), "[\"a\",\"b\"]".into()),
        ("vgi.category".into(), "hashing".into()),
    ];
    assert_eq!(tags, expected);
}

#[test]
fn sample_expression_and_agent_tasks() {
    assert_eq!(sample_png_expr(), format!("from_hex('{SAMPLE_PNG_HEX}')"));
    let tasks = agent_test_tasks_json();
    assert!(!tasks.contains("__HEX"));
    assert!(tasks.contains(SAMPLE_PNG_HEX_B));
    assert!(tasks.contains(&format!("from_hex('{SAMPLE_PNG_HEX}')")));
    assert!(tasks.starts_with('[') && tasks.trim_end().ends_with(']'));
}

#[test]
fn hash_function_identities() {
    let p = PerceptualHash::phash();
    assert_eq!((p.name, p.kind), ("phash", HashKind::Perceptual));
    let d = PerceptualHash::dhash();
    assert_eq!((d.name, d.kind), ("dhash", HashKind::Difference));
    let a = PerceptualHash::ahash();
    assert_eq!((a.name, a.kind), ("ahash", HashKind::Average));
}

#[test]
fn hash_cells_reinterpret_as_u64_bits() {
    assert_eq!(HashCell::U64(u64::MAX).bits(), u64::MAX);
    assert_eq!(HashCell::I64(-1).bits(), u64::MAX);
    assert_eq!(HashCell::I32(-2).bits(), 0xffff_ffff_ffff_fffe);
    assert_eq!(HashCell::U32(7).bits(), 7);
    assert_eq!(HashCell::I16(-1).bits(), u64::MAX);
    assert_eq!(HashCell::U16(0xabcd).bits(), 0xabcd);
    assert_eq!(HashCell::I8(i8::MIN).bits(), 0xffff_ffff_ffff_ff80);
    assert_eq!(HashCell::U8(200).bits(), 200);
}

#[test]
fn dimension_constants() {
    assert_eq!(parse_dim(64, "width").unwrap(), 64);
    assert_eq!(parse_dim(u32::MAX as i64, "width").unwrap(), u32::MAX);
    assert_eq!(
        parse_dim(0, "width").unwrap_err().message(),
        "thumbnail_fit: 'width' must be a positive integer, got 0"
    );
    assert_eq!(
        parse_dim(-17, "height").unwrap_err().message(),
        "thumbnail_fit: 'height' must be a positive integer, got -17"
    );
    assert_eq!(
        parse_dim(i64::MIN, "height").unwrap_err().message(),
        "thumbnail_fit: 'height' must be a positive integer, got -9223372036854775808"
    );
    assert_eq!(
        parse_dim(4294967296, "width").unwrap_err().message(),
        "thumbnail_fit: 'width' must be a positive integer, got 4294967296"
    );
    assert_eq!(dim_at(None, "width").unwrap(), DEFAULT_DIM);
    assert_eq!(DEFAULT_DIM, 128);
    assert_eq!(dim_at(Some(5), "width").unwrap(), 5);
}

#[test]
fn argument_resolution() {
    let args = ThumbnailFit.arguments(None, Some(10), &Some("TIF".to_string())).unwrap();
    assert_eq!((args.width, args.height, args.format), (128, 10, OutFormat::Tiff));
    let missing = ThumbnailFit.arguments(Some(1), Some(1), &None).unwrap_err();
    assert_eq!(missing.message(), "thumbnail_fit: a target format string is required");
    // Width is checked before height, and both before the format.
    let e = ThumbnailFit.bind(Some(0), Some(-1), &None).unwrap_err();
    assert_eq!(e.message(), "thumbnail_fit: 'width' must be a positive integer, got 0");
    assert!(ThumbnailFit.bind(None, None, &Some("png".to_string())).is_ok());
    let e = Convert.arguments(&None).unwrap_err();
    assert_eq!(e.message(), "convert: a target format string is required");
    assert_eq!(Convert.arguments(&Some("Webp".to_string())).unwrap().format, OutFormat::WebP);
    assert_eq!(
        Convert.bind(&Some("svg".to_string())).unwrap_err().message(),
        "unsupported output format 'svg'"
    );
}

#[test]
fn coordinates_from_field_values() {
    let r = |n: u32, d: u32| Ratio { num: n, denom: d };
    let value = Some(FieldValue::Rational(vec![r(1, 1), r(2, 1), r(3, 2), r(9, 9)]));
    let south = Some(FieldValue::Ascii(vec![b"S".to_vec()]));
    let c = coordinate(&value, &south, b'S').unwrap();
    assert_eq!((c.degrees, c.minutes, c.seconds, c.negative), (r(1, 1), r(2, 1), r(3, 2), true));
    let c = coordinate(&value, &None, b'S').unwrap();
    assert!(!c.negative);
    let north = Some(FieldValue::Ascii(vec![b"N".to_vec()]));
    assert!(!coordinate(&value, &north, b'S').unwrap().negative);
    let empty_ref = Some(FieldValue::Ascii(vec![]));
    assert!(!coordinate(&value, &empty_ref, b'S').unwrap().negative);
    let short = Some(FieldValue::Rational(vec![r(1, 1), r(2, 1)]));
    assert!(coordinate(&short, &south, b'S').is_none());
    assert!(coordinate(&Some(FieldValue::Other), &south, b'S').is_none());
    assert!(coordinate(&None, &south, b'S').is_none());
}

#[test]
fn version_is_semver() {
    let v = version();
    let parts: Vec<&str> = v.split('.').collect();
    assert_eq!(parts.len(), 3);
    assert!(parts.iter().all(|p| p.parse::<u32>().is_ok()));
}
