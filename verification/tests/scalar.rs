use std::io::Cursor;

use image::{DynamicImage, ImageFormat, Rgb, RgbImage};
use image_worker::imaging::image_info;
use image_worker::scalar::exif_data::{ExifGps, ExifMap};
use image_worker::scalar::hash::{PerceptualHash, PhashDistance};
use image_worker::scalar::info::ImageInfo;
use image_worker::scalar::transform::{Convert, Thumbnail, ThumbnailFit};

/// A tiny in-memory PNG (`w`×`h`, diagonal gradient) for decode-path tests.
fn make_png(w: u32, h: u32) -> Vec<u8> {
    let mut img = RgbImage::new(w, h);
    for y in 0..h {
        for x in 0..w {
            let v = ((x + y) * 255 / (w + h)) as u8;
            img.put_pixel(x, y, Rgb([v, 255 - v, (x * 13 % 256) as u8]));
        }
    }
    let mut buf = Cursor::new(Vec::new());
    DynamicImage::ImageRgb8(img)
        .write_to(&mut buf, ImageFormat::Png)
        .unwrap();
    buf.into_inner()
}

fn rows(cells: &[Option<&[u8]>]) -> Vec<Option<Vec<u8>>> {
    cells.iter().map(|c| c.map(|b| b.to_vec())).collect()
}

fn text(s: &str) -> Option<String> {
    Some(s.to_string())
}

#[test]
fn exif_on_png_is_empty_map_not_null() {
    let png = make_png(16, 16);
    let out = ExifMap.exif_column(&rows(&[Some(&png)]));
    let m = out[0].as_ref();
    assert!(m.is_some(), "no-EXIF input → empty (non-null) map");
    assert_eq!(m.unwrap().len(), 0);
}

#[test]
fn exif_null_element_is_null_map() {
    let png = make_png(8, 8);
    let out = ExifMap.exif_column(&rows(&[Some(&png), None]));
    assert!(out[0].is_some());
    assert!(out[1].is_none(), "NULL input → NULL map row");
}

#[test]
fn exif_garbage_is_empty_map_not_error() {
    // EXIF parse is best-effort: non-image bytes simply carry no EXIF.
    let out = ExifMap.exif_column(&rows(&[Some(b"not an image")]));
    assert!(out[0].is_some());
    assert_eq!(out[0].as_ref().unwrap().len(), 0);
}

#[test]
fn exif_gps_absent_is_null_struct() {
    let png = make_png(16, 16);
    let out = ExifGps.gps_column(&rows(&[Some(&png), None]));
    assert_eq!(out.len(), 2);
    assert!(out[0].is_none(), "no GPS → NULL struct");
    assert!(out[1].is_none(), "NULL input → NULL struct");
}

#[test]
fn phash_of_png_is_deterministic_and_u64() {
    let png = make_png(40, 40);
    let h1 = PerceptualHash::phash().hash_column(&rows(&[Some(&png)])).unwrap();
    let h2 = PerceptualHash::phash().hash_column(&rows(&[Some(&png)])).unwrap();
    let a: u64 = h1[0].unwrap();
    let b: u64 = h2[0].unwrap();
    assert_eq!(a, b, "phash must be deterministic across calls");
}

#[test]
fn null_and_garbage_handling() {
    let png = make_png(16, 16);
    // NULL element → NULL hash, valid element alongside still works.
    let out = PerceptualHash::phash()
        .hash_column(&rows(&[Some(&png), None]))
        .unwrap();
    assert!(out[0].is_some());
    assert!(out[1].is_none());
    // Garbage / empty / truncated → error.
    for bad in [&b""[..], &b"nope"[..], &png[..30.min(png.len())]] {
        assert!(
            PerceptualHash::phash().hash_column(&rows(&[Some(bad)])).is_err(),
            "expected error for {} bytes",
            bad.len()
        );
    }
}

#[test]
fn distance_basics_and_nulls() {
    let a = vec![Some(0), Some(0b1011), Some(u64::MAX), Some(7), None];
    let b = vec![Some(0), Some(0b0001), Some(0), None, Some(0)];
    let d = PhashDistance.distance_column(&a, &b);
    assert_eq!(d[0], Some(0));
    assert_eq!(d[1], Some(2));
    assert_eq!(d[2], Some(64));
    assert!(d[3].is_none(), "NULL operand → NULL distance");
    assert!(d[4].is_none());
}

#[test]
fn process_decodes_a_png_into_struct_fields() {
    let png = make_png(20, 12);
    let out = ImageInfo.info_column(&rows(&[Some(&png)])).unwrap();
    let info = out[0].as_ref().unwrap();
    assert_eq!(info.format, "png");
    assert_eq!(info.width, 20);
    assert_eq!(info.height, 12);
}

#[test]
fn null_element_yields_null_struct_row() {
    let png = make_png(8, 8);
    let out = ImageInfo.info_column(&rows(&[Some(&png), None])).unwrap();
    assert!(out[0].is_some());
    assert!(out[1].is_none(), "NULL input must produce a NULL struct row");
}

#[test]
fn garbage_bytes_surface_an_error() {
    let err = ImageInfo.info_column(&rows(&[Some(b"not an image")]));
    assert!(err.is_err(), "garbage bytes must error");
}

#[test]
fn empty_blob_errors() {
    assert!(ImageInfo.info_column(&rows(&[Some(b"")])).is_err());
}

#[test]
fn truncated_image_errors() {
    // First 40 bytes of a real PNG: header present, pixel data missing.
    let png = make_png(16, 16);
    let truncated = &png[..40.min(png.len())];
    assert!(ImageInfo.info_column(&rows(&[Some(truncated)])).is_err());
}

#[test]
fn thumbnail_and_convert_bind_binary() {
    // Convert validates its format constant at bind, so it needs the args.
    assert!(Convert.bind(&text("png")).is_ok());
}

#[test]
fn thumbnail_produces_a_smaller_valid_image() {
    let png = make_png(160, 120);
    let out = Thumbnail.thumbnail_column(&rows(&[Some(&png)])).unwrap();
    let bytes = out[0].as_ref().unwrap();
    // Re-feed the produced BLOB into the decoder: it must be a real image
    // that fits within the default 128x128 box (default format is jpeg).
    let info = image_info(bytes).unwrap();
    assert_eq!(info.format, "jpeg");
    assert!(info.width <= 128 && info.height <= 128);
    assert!(info.width < 160, "thumbnail should have shrunk the source");
}

#[test]
fn thumbnail_null_and_garbage() {
    let png = make_png(32, 32);
    let out = Thumbnail.thumbnail_column(&rows(&[Some(&png), None])).unwrap();
    assert!(out[0].is_some());
    assert!(out[1].is_none());
    assert!(Thumbnail.thumbnail_column(&rows(&[Some(b"")])).is_err());
    assert!(Thumbnail.thumbnail_column(&rows(&[Some(b"nope")])).is_err());
}

#[test]
fn convert_changes_format_and_keeps_dimensions() {
    let png = make_png(40, 30);
    let to = Convert.arguments(&text("bmp")).unwrap();
    let out = Convert.convert_column(&to, &rows(&[Some(&png)])).unwrap();
    let info = image_info(out[0].as_ref().unwrap()).unwrap();
    assert_eq!(info.format, "bmp");
    assert_eq!((info.width, info.height), (40, 30));
}

#[test]
fn convert_bad_format_errors_at_bind() {
    // bind validates the format constant eagerly.
    assert!(Convert.bind(&text("xyz")).is_err());
}

#[test]
fn convert_null_and_garbage() {
    let to = Convert.arguments(&text("png")).unwrap();
    let out = Convert.convert_column(&to, &rows(&[None])).unwrap();
    assert!(out[0].is_none());
    assert!(Convert.convert_column(&to, &rows(&[Some(b"")])).is_err());
}

#[test]
fn thumbnail_fit_honors_size_and_format() {
    let png = make_png(160, 120);
    let args = ThumbnailFit.arguments(Some(64), Some(64), &text("png")).unwrap();
    let out = ThumbnailFit.fit_column(&args, &rows(&[Some(&png)])).unwrap();
    let info = image_info(out[0].as_ref().unwrap()).unwrap();
    assert_eq!(info.format, "png", "output format must be the requested one");
    assert!(
        info.width <= 64 && info.height <= 64,
        "thumbnail_fit must fit within the requested 64x64 box"
    );
}

#[test]
fn thumbnail_fit_bad_format_errors_at_bind() {
    assert!(ThumbnailFit.bind(Some(64), Some(64), &text("xyz")).is_err());
}

#[test]
fn thumbnail_fit_non_positive_dimension_errors_at_bind() {
    assert!(ThumbnailFit.bind(Some(0), Some(64), &text("png")).is_err());
}

#[test]
fn thumbnail_fit_null_and_garbage() {
    let png = make_png(48, 48);
    let args = ThumbnailFit.arguments(Some(32), Some(32), &text("bmp")).unwrap();
    let out = ThumbnailFit.fit_column(&args, &rows(&[Some(&png), None])).unwrap();
    assert!(out[0].is_some());
    assert!(out[1].is_none());
    let png_args = ThumbnailFit.arguments(Some(32), Some(32), &text("png")).unwrap();
    assert!(ThumbnailFit.fit_column(&png_args, &rows(&[Some(b"")])).is_err());
    assert!(ThumbnailFit.fit_column(&png_args, &rows(&[Some(b"nope")])).is_err());
}
