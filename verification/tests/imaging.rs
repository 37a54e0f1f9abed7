use std::io::Cursor;

use image::{DynamicImage, ImageFormat, Rgb, RgbImage};
use image_worker::formats::OutFormat;
use image_worker::hashing::{hamming_distance, HashKind};
use image_worker::imaging::{convert, image_info, perceptual_hash, thumbnail};
use image_worker::metadata::{exif_gps_reading, exif_tags};

/// Build a tiny PNG in memory: a `w`×`h` image with a diagonal gradient so
/// perceptual hashes are non-degenerate.
fn make_png(w: u32, h: u32) -> Vec<u8> {
    let mut img = RgbImage::new(w, h);
    for y in 0..h {
        for x in 0..w {
            let v = ((x + y) * 255 / (w + h)) as u8;
            img.put_pixel(x, y, Rgb([v, 255 - v, (x * 13 % 256) as u8]));
        }
    }
    let mut buf = Cursor::new(Vec::new());
    DynamicImage::ImageRgb8(img)
        .write_to(&mut buf, ImageFormat::Png)
        .unwrap();
    buf.into_inner()
}

#[test]
fn info_reports_format_and_dimensions() {
    let png = make_png(32, 24);
    let info = image_info(&png).unwrap();
    assert_eq!(info.format, "png");
    assert_eq!(info.width, 32);
    assert_eq!(info.height, 24);
    assert_eq!(info.color, "rgb8");
    assert!(!info.has_alpha);
}

#[test]
fn info_rejects_garbage() {
    assert!(image_info(b"not an image at all").is_err());
}

#[test]
fn exif_absent_is_empty_not_error() {
    let png = make_png(16, 16);
    assert!(exif_tags(&png).unwrap().is_empty());
    assert!(exif_gps_reading(&png).is_none());
}

#[test]
fn hashes_roundtrip_and_are_stable() {
    let png = make_png(64, 64);
    // Re-encoding to JPEG should produce a perceptually-close image: small
    // Hamming distance, not identical bits necessarily.
    let jpeg = convert(&png, OutFormat::Jpeg).unwrap();
    for kind in [
        HashKind::Average,
        HashKind::Difference,
        HashKind::Perceptual,
    ] {
        let h1 = perceptual_hash(&png, kind).unwrap();
        let h1_again = perceptual_hash(&png, kind).unwrap();
        assert_eq!(h1, h1_again, "hash must be deterministic");
        let h2 = perceptual_hash(&jpeg, kind).unwrap();
        assert!(
            hamming_distance(h1, h2) <= 20,
            "png vs jpeg hash distance too large: {}",
            hamming_distance(h1, h2)
        );
    }
}

#[test]
fn hamming_distance_basics() {
    assert_eq!(hamming_distance(0, 0), 0);
    assert_eq!(hamming_distance(0b1011, 0b0001), 2);
    assert_eq!(hamming_distance(u64::MAX, 0), 64);
}

#[test]
fn thumbnail_preserves_aspect_and_reencodes() {
    let png = make_png(100, 50);
    let thumb = thumbnail(&png, 20, 20, OutFormat::Png).unwrap();
    let info = image_info(&thumb).unwrap();
    assert_eq!(info.format, "png");
    // 100x50 fit into 20x20 → 20x10 (aspect preserved).
    assert_eq!(info.width, 20);
    assert_eq!(info.height, 10);
}

#[test]
fn thumbnail_to_jpeg_works() {
    let png = make_png(80, 80);
    let thumb = thumbnail(&png, 32, 32, OutFormat::Jpeg).unwrap();
    let info = image_info(&thumb).unwrap();
    assert_eq!(info.format, "jpeg");
    assert!(info.width <= 32 && info.height <= 32);
}

#[test]
fn convert_changes_format_keeps_size() {
    let png = make_png(40, 30);
    let bmp = convert(&png, OutFormat::Bmp).unwrap();
    let info = image_info(&bmp).unwrap();
    assert_eq!(info.format, "bmp");
    assert_eq!((info.width, info.height), (40, 30));
}

#[test]
fn out_format_parse() {
    assert_eq!(OutFormat::parse("JPG").unwrap(), OutFormat::Jpeg);
    assert_eq!(OutFormat::parse("png").unwrap(), OutFormat::Png);
    assert!(OutFormat::parse("xyz").is_err());
}
