//! EXIF + GPS extraction against a hand-built JPEG carrying an EXIF APP1
//! segment with GPS tags: the smallest valid structure the EXIF parser accepts.

use image_worker::metadata::{exif_gps_reading, exif_tags, Coordinate, Ratio};

/// Build a little-endian TIFF block with an IFD0 that has a single GPS-IFD
/// pointer, and a GPS IFD carrying LatitudeRef/Latitude/LongitudeRef/Longitude.
fn build_exif_tiff() -> Vec<u8> {
    fn u16le(v: u16) -> [u8; 2] {
        v.to_le_bytes()
    }
    fn u32le(v: u32) -> [u8; 4] {
        v.to_le_bytes()
    }

    let mut tiff = Vec::new();
    // TIFF header: "II" (little-endian), 0x002A, offset to IFD0 = 8.
    tiff.extend_from_slice(b"II");
    tiff.extend_from_slice(&u16le(0x002A));
    tiff.extend_from_slice(&u32le(8));

    // IFD0: 1 entry (GPS IFD pointer, tag 0x8825, type LONG, count 1).
    let ifd0_next_offset = 0u32;
    let gps_ifd_offset: u32 = 8 + 2 + 12 + 4;
    tiff.extend_from_slice(&u16le(1));
    tiff.extend_from_slice(&u16le(0x8825));
    tiff.extend_from_slice(&u16le(4));
    tiff.extend_from_slice(&u32le(1));
    tiff.extend_from_slice(&u32le(gps_ifd_offset));
    tiff.extend_from_slice(&u32le(ifd0_next_offset));

    // GPS IFD: 4 entries; the rationals go into a data area after the IFD.
    let gps_entries = 4u16;
    let gps_ifd_size = 2 + (gps_entries as u32) * 12 + 4;
    let data_start = gps_ifd_offset + gps_ifd_size;

    // Latitude = 37° 48' 30" → three rationals (24 bytes).
    // Longitude = 122° 25' 9" (W) → three rationals (24 bytes).
    let lat_off = data_start;
    let lon_off = data_start + 24;

    tiff.extend_from_slice(&u16le(gps_entries));

    // GPSLatitudeRef (0x0001), ASCII, count 2 ("N\0"), fits inline.
    tiff.extend_from_slice(&u16le(0x0001));
    tiff.extend_from_slice(&u16le(2));
    tiff.extend_from_slice(&u32le(2));
    tiff.extend_from_slice(b"N\0\0\0");

    // GPSLatitude (0x0002), RATIONAL, count 3, offset to data.
    tiff.extend_from_slice(&u16le(0x0002));
    tiff.extend_from_slice(&u16le(5));
    tiff.extend_from_slice(&u32le(3));
    tiff.extend_from_slice(&u32le(lat_off));

    // GPSLongitudeRef (0x0003), ASCII, count 2 ("W\0").
    tiff.extend_from_slice(&u16le(0x0003));
    tiff.extend_from_slice(&u16le(2));
    tiff.extend_from_slice(&u32le(2));
    tiff.extend_from_slice(b"W\0\0\0");

    // GPSLongitude (0x0004), RATIONAL, count 3, offset to data.
    tiff.extend_from_slice(&u16le(0x0004));
    tiff.extend_from_slice(&u16le(5));
    tiff.extend_from_slice(&u32le(3));
    tiff.extend_from_slice(&u32le(lon_off));

    tiff.extend_from_slice(&u32le(0)); // next IFD = none

    let push_rat = |buf: &mut Vec<u8>, n: u32, d: u32| {
        buf.extend_from_slice(&u32le(n));
        buf.extend_from_slice(&u32le(d));
    };
    push_rat(&mut tiff, 37, 1);
    push_rat(&mut tiff, 48, 1);
    push_rat(&mut tiff, 30, 1);
    push_rat(&mut tiff, 122, 1);
    push_rat(&mut tiff, 25, 1);
    push_rat(&mut tiff, 9, 1);

    tiff
}

/// Wrap the TIFF block in a JPEG EXIF APP1 segment inside a minimal JPEG.
fn build_jpeg_with_exif() -> Vec<u8> {
    let tiff = build_exif_tiff();
    let mut exif_payload = Vec::new();
    exif_payload.extend_from_slice(b"Exif\0\0");
    exif_payload.extend_from_slice(&tiff);

    let mut jpeg = Vec::new();
    jpeg.extend_from_slice(&[0xFF, 0xD8]); // SOI
    jpeg.extend_from_slice(&[0xFF, 0xE1]);
    let len = (exif_payload.len() + 2) as u16;
    jpeg.extend_from_slice(&len.to_be_bytes());
    jpeg.extend_from_slice(&exif_payload);
    jpeg.extend_from_slice(&[0xFF, 0xD9]); // EOI
    jpeg
}

fn ratio(r: Ratio) -> f64 {
    r.num as f64 / r.denom as f64
}

fn decimal(c: &Coordinate) -> f64 {
    let dms = ratio(c.degrees) + ratio(c.minutes) / 60.0 + ratio(c.seconds) / 3600.0;
    if c.negative {
        -dms
    } else {
        dms
    }
}

#[test]
fn parses_gps_from_handbuilt_exif() {
    let jpeg = build_jpeg_with_exif();
    let gps = exif_gps_reading(&jpeg).expect("EXIF should parse");

    // Latitude present, north.
    assert_eq!(gps.lat.degrees, Ratio { num: 37, denom: 1 });
    assert!(!gps.lat.negative);
    let lat = decimal(&gps.lat);
    assert!((lat - (37.0 + 48.0 / 60.0 + 30.0 / 3600.0)).abs() < 1e-9);

    // Longitude present and W → negative.
    assert!(gps.lon.negative, "longitude ref should be W");
    let lon = decimal(&gps.lon);
    assert!((lon - -(122.0 + 25.0 / 60.0 + 9.0 / 3600.0)).abs() < 1e-9);
}

#[test]
fn exif_map_lists_the_gps_tags() {
    let jpeg = build_jpeg_with_exif();
    let pairs = exif_tags(&jpeg).unwrap();
    let names: Vec<&str> = pairs.iter().map(|(k, _)| k.as_str()).collect();
    assert!(names.contains(&"GPSLatitude"));
    assert!(names.contains(&"GPSLongitudeRef"));
}
