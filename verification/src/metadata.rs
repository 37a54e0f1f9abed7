//! EXIF metadata: all tags flattened to `(name, display-value)` pairs, and the
//! GPS position read from the latitude/longitude tags. Parsing and rendering of
//! the EXIF block is done by the `kamadak-exif` crate; the library decides what
//! an absent block yields and how a GPS coordinate is assembled.

use std::io::Cursor;

use exif::{In, Reader, Tag, Value};
use vstd::prelude::*;

use crate::error::ImgError;
use crate::text::pairs_view;

verus! {

#[verifier::external_type_specification]
#[verifier::external_body]
pub struct ExExifData(exif::Exif);

/// The GPS tags the library reads.
#[derive(Debug, Clone, Copy, PartialEq, Eq, Structural)]
pub enum GpsTag {
    Latitude,
    LatitudeRef,
    Longitude,
    LongitudeRef,
}

/// An unsigned rational number: a pair of 32-bit unsigned integers.
#[derive(Debug, Clone, Copy, PartialEq, Eq, Structural)]
pub struct Ratio {
    pub num: u32,
    pub denom: u32,
}

/// The value of an EXIF field as far as the library reads it.
#[derive(Debug, Clone, PartialEq)]
pub enum FieldValue {
    /// Unsigned rationals.
    Rational(Vec<Ratio>),
    /// ASCII strings, without their trailing NULs.
    Ascii(Vec<Vec<u8>>),
    /// Any other type of value.
    Other,
}

/// `FieldValue` with its vectors as sequences.
pub enum FieldValueView {
    Rational(Seq<Ratio>),
    Ascii(Seq<Seq<u8>>),
    Other,
}

impl View for FieldValue {
    type V = FieldValueView;

    open spec fn view(&self) -> FieldValueView {
        match self {
            FieldValue::Rational(r) => FieldValueView::Rational(r@),
            FieldValue::Ascii(a) => FieldValueView::Ascii(a.deep_view()),
            FieldValue::Other => FieldValueView::Other,
        }
    }
}

/// An optional field value taken by its view.
pub open spec fn field_view(v: Option<FieldValue>) -> Option<FieldValueView> {
    match v {
        Some(f) => Some(f@),
        None => None,
    }
}

/// Whether `exif::Reader::read_from_container` finds and parses an EXIF block
/// in a blob.
pub uninterp spec fn exif_present(blob: Seq<u8>) -> bool;

/// The fields of the EXIF block of a blob, in order, each as its tag's name
/// and its value rendered with its unit (`Field::display_value().with_unit`).
pub uninterp spec fn exif_listing(blob: Seq<u8>) -> Seq<(Seq<char>, Seq<char>)>;

/// The value of a tag in the primary IFD of a blob's EXIF block
/// (`Exif::get_field(tag, In::PRIMARY)`), if the field is there.
pub uninterp spec fn primary_value(blob: Seq<u8>, tag: GpsTag) -> Option<FieldValueView>;

/// A parsed EXIF block together with the bytes it was read from; the ghost
/// field is set by `read_exif` and by nothing else.
pub struct ExifBlock {
    data: exif::Exif,
    source: Ghost<Seq<u8>>,
}

impl ExifBlock {
    /// The bytes this block was read from.
    pub closed spec fn source(&self) -> Seq<u8> {
        self.source@
    }
}

/// `exif::Reader::read_from_container` over the blob; a failure of any kind
/// (no container recognised, no EXIF, malformed EXIF) is `None`.
#[verifier::external_body]
fn read_exif(blob: &[u8]) -> (block: Option<ExifBlock>)
    ensures
        block is Some <==> exif_present(blob@),
        block matches Some(b) ==> b.source() == blob@,
{
    let read = Reader::new().read_from_container(&mut Cursor::new(blob));
    read.ok().map(|data| ExifBlock { data, source: Ghost(blob@) })
}

/// `ExactSizeIterator::len` of `Exif::fields`: how many fields the block has.
#[verifier::external_body]
fn field_count(block: &ExifBlock) -> (n: usize)
    ensures
        n == exif_listing(block.source()).len(),
{
    block.data.fields().len()
}

/// `Iterator::nth` of `Exif::fields`: the field at `index`, converted to its
/// tag's name and its value rendered with its unit.
#[verifier::external_body]
fn field_at(block: &ExifBlock, index: usize) -> (pair: (String, String))
    requires
        index < exif_listing(block.source()).len(),
    ensures
        (pair.0@, pair.1@) == exif_listing(block.source())[index as int],
{
    let f = block.data.fields().nth(index).unwrap();
    (f.tag.to_string(), f.display_value().with_unit(&block.data).to_string())
}

/// `Exif::get_field(tag, In::PRIMARY)`, the field's value converted variant by
/// variant.
#[verifier::external_body]
fn primary_field(block: &ExifBlock, tag: GpsTag) -> (value: Option<FieldValue>)
    ensures
        field_view(value) == primary_value(block.source(), tag),
{
    let tag = match tag {
        GpsTag::Latitude => Tag::GPSLatitude,
        GpsTag::LatitudeRef => Tag::GPSLatitudeRef,
        GpsTag::Longitude => Tag::GPSLongitude,
        GpsTag::LongitudeRef => Tag::GPSLongitudeRef,
    };
    block.data.get_field(tag, In::PRIMARY).map(|f| match &f.value {
        Value::Rational(r) => FieldValue::Rational(r.iter().map(|x| Ratio { num: x.num, denom: x.denom }).collect()),
        Value::Ascii(a) => FieldValue::Ascii(a.clone()),
        _ => FieldValue::Other,
    })
}


/// The EXIF pairs of a blob: all its fields when it carries an EXIF block, and
/// none otherwise.
pub open spec fn exif_outcome(blob: Seq<u8>) -> Seq<(Seq<char>, Seq<char>)> {
    if exif_present(blob) {
        exif_listing(blob)
    } else {
        Seq::empty()
    }
}

/// Parse all EXIF tags into flat `(name, display-value)` pairs. Returns an empty
/// vector when the blob carries no EXIF (not an error — many PNGs have none).
pub fn exif_tags(blob: &[u8]) -> (r: Result<Vec<(String, String)>, ImgError>)
    ensures
        r matches Ok(pairs) && pairs_view(pairs@) == exif_outcome(blob@),
        r matches Ok(pairs) && (exif_present(blob@) ==> pairs@.len() == exif_listing(blob@).len()),
        r matches Ok(pairs) && (exif_present(blob@) ==> forall|i: int|
            0 <= i < pairs@.len() ==> (#[trigger] pairs@[i].0@, pairs@[i].1@) == exif_listing(blob@)[i]),
        r matches Ok(pairs) && (!exif_present(blob@) ==> pairs@.len() == 0),
{
    let block = match read_exif(blob) {
        Some(b) => b,
        None => {
            let empty: Vec<(String, String)> = Vec::new();
            assert(pairs_view(empty@) =~= Seq::empty());
            return Ok(empty);
        },
    };
    let n = field_count(&block);
    let mut pairs: Vec<(String, String)> = Vec::new();
    let mut i: usize = 0;
    assert(pairs_view(pairs@) =~= exif_listing(blob@).take(0));
    while i < n
        invariant
            i <= n,
            n == exif_listing(block.source()).len(),
            exif_present(blob@),
            block.source() == blob@,
            pairs.len() == i,
            pairs_view(pairs@) == exif_listing(blob@).take(i as int),
        decreases n - i,
    {
        let pair = field_at(&block, i);
        let ghost before = pairs@;
        pairs.push(pair);
        assert forall|j: int| 0 <= j < i + 1 implies #[trigger] pairs_view(pairs@)[j]
            == exif_listing(blob@).take(i + 1)[j] by {
            if j < i {
                assert(pairs@[j] == before[j]);
                assert(pairs_view(before)[j] == exif_listing(blob@).take(i as int)[j]);
            }
        }
        assert(pairs_view(pairs@) =~= exif_listing(blob@).take(i + 1));
        i = i + 1;
    }
    assert(exif_listing(blob@).take(n as int) =~= exif_listing(blob@));
    Ok(pairs)
}

/// The latitude reference byte that makes a latitude negative (`S`).
pub const SOUTH: u8 = 0x53;

/// The longitude reference byte that makes a longitude negative (`W`).
pub const WEST: u8 = 0x57;

/// One GPS coordinate as EXIF stores it: degrees, minutes and seconds as
/// unsigned rationals, and whether the hemisphere
/// reference makes it negative (south or west).
#[derive(Debug, Clone, Copy, PartialEq, Eq, Structural)]
pub struct Coordinate {
    pub degrees: Ratio,
    pub minutes: Ratio,
    pub seconds: Ratio,
    pub negative: bool,
}

/// A GPS position: latitude and longitude.
#[derive(Debug, Clone, Copy, PartialEq, Eq, Structural)]
pub struct GpsReading {
    pub lat: Coordinate,
    pub lon: Coordinate,
}

/// Whether a hemisphere reference names the negative hemisphere: it is an
/// ASCII value whose first string starts with the byte `negative`.
pub open spec fn reference_is(reference: Option<FieldValueView>, negative: u8) -> bool {
    match reference {
        Some(FieldValueView::Ascii(strings)) => strings.len() > 0 && strings[0].len() > 0
            && strings[0][0] == negative,
        _ => false,
    }
}

/// The coordinate that a value and its hemisphere reference give: present when
/// the value holds at least three rationals (degrees, minutes, seconds).
pub open spec fn coordinate_of(
    value: Option<FieldValueView>,
    reference: Option<FieldValueView>,
    negative: u8,
) -> Option<Coordinate> {
    match value {
        Some(FieldValueView::Rational(r)) => if r.len() >= 3 {
            Some(
                Coordinate {
                    degrees: r[0],
                    minutes: r[1],
                    seconds: r[2],
                    negative: reference_is(reference, negative),
                },
            )
        } else {
            None
        },
        _ => None,
    }
}

/// Read a single GPS coordinate (degrees/minutes/seconds), applying the
/// hemisphere reference (`negative` is the byte that flips the sign: `S` or `W`).
pub fn coordinate(value: &Option<FieldValue>, reference: &Option<FieldValue>, negative: u8) -> (c:
    Option<Coordinate>)
    ensures
        c == coordinate_of(field_view(*value), field_view(*reference), negative),
{
    let dms = match value {
        Some(FieldValue::Rational(r)) => {
            if r.len() >= 3 {
                (r[0], r[1], r[2])
            } else {
                return None;
            }
        },
        _ => return None,
    };
    let negative_side = match reference {
        Some(FieldValue::Ascii(strings)) => {
            if strings.len() > 0 && strings[0].len() > 0 {
                strings[0][0] == negative
            } else {
                false
            }
        },
        _ => false,
    };
    proof {
        if let Some(FieldValue::Ascii(strings)) = reference {
            if strings.len() > 0 {
                assert(strings.deep_view()[0] == strings[0]@);
            }
        }
    }
    Some(Coordinate { degrees: dms.0, minutes: dms.1, seconds: dms.2, negative: negative_side })
}

/// The GPS position of a blob: present when it carries an EXIF block whose
/// primary IFD holds both a usable latitude and a usable longitude.
pub open spec fn gps_outcome(blob: Seq<u8>) -> Option<GpsReading> {
    if !exif_present(blob) {
        None
    } else {
        let lat = coordinate_of(
            primary_value(blob, GpsTag::Latitude),
            primary_value(blob, GpsTag::LatitudeRef),
            SOUTH,
        );
        let lon = coordinate_of(
            primary_value(blob, GpsTag::Longitude),
            primary_value(blob, GpsTag::LongitudeRef),
            WEST,
        );
        match (lat, lon) {
            (Some(lat), Some(lon)) => Some(GpsReading { lat, lon }),
            _ => None,
        }
    }
}

/// Extract the GPS latitude and longitude from EXIF GPS tags. `None` when
/// absent or incomplete.
pub fn exif_gps_reading(blob: &[u8]) -> (r: Option<GpsReading>)
    ensures
        r == gps_outcome(blob@),
        r is Some <==> exif_present(blob@) && rational_triple(primary_value(blob@, GpsTag::Latitude)) is Some
            && rational_triple(primary_value(blob@, GpsTag::Longitude)) is Some,
        r matches Some(g) ==> reads_position(blob@, g),
{
    let block = match read_exif(blob) {
        Some(b) => b,
        None => return None,
    };
    let lat = coordinate(
        &primary_field(&block, GpsTag::Latitude),
        &primary_field(&block, GpsTag::LatitudeRef),
        SOUTH,
    );
    let lon = coordinate(
        &primary_field(&block, GpsTag::Longitude),
        &primary_field(&block, GpsTag::LongitudeRef),
        WEST,
    );
    match (lat, lon) {
        (Some(lat), Some(lon)) => Some(GpsReading { lat, lon }),
        _ => None,
    }
}

/// The first three rationals of a value (degrees, minutes, seconds), when it
/// is a rational value holding at least three.
pub open spec fn rational_triple(v: Option<FieldValueView>) -> Option<(Ratio, Ratio, Ratio)> {
    match v {
        Some(FieldValueView::Rational(r)) => if r.len() >= 3 {
            Some((r[0], r[1], r[2]))
        } else {
            None
        },
        _ => None,
    }
}

/// The first byte of the first string of a value, when it is an ASCII value
/// whose first string is not empty.
pub open spec fn first_ascii_byte(v: Option<FieldValueView>) -> Option<u8> {
    match v {
        Some(FieldValueView::Ascii(strings)) => if strings.len() > 0 && strings[0].len() > 0 {
            Some(strings[0][0])
        } else {
            None
        },
        _ => None,
    }
}

/// A position as the blob's primary GPS tags give it: the latitude's degrees,
/// minutes and seconds are the first three rationals of `GPSLatitude`, and it
/// is negative exactly when `GPSLatitudeRef` starts with `S` (0x53); the
/// longitude likewise from `GPSLongitude`, negative exactly when
/// `GPSLongitudeRef` starts with `W` (0x57).
pub open spec fn reads_position(blob: Seq<u8>, g: GpsReading) -> bool {
    &&& rational_triple(primary_value(blob, GpsTag::Latitude)) == Some((g.lat.degrees, g.lat.minutes, g.lat.seconds))
    &&& rational_triple(primary_value(blob, GpsTag::Longitude)) == Some((g.lon.degrees, g.lon.minutes, g.lon.seconds))
    &&& g.lat.negative == (first_ascii_byte(primary_value(blob, GpsTag::LatitudeRef)) == Some(0x53u8))
    &&& g.lon.negative == (first_ascii_byte(primary_value(blob, GpsTag::LongitudeRef)) == Some(0x57u8))
}

/// Law: a blob has a GPS position exactly when it carries EXIF whose primary
/// latitude and longitude each hold degrees, minutes and seconds; the position
/// is read from those tags, south (`S`) latitudes and west (`W`) longitudes
/// negative and every other hemisphere reference positive.
pub proof fn lemma_gps_position_from_tags(blob: Seq<u8>)
    ensures
        gps_outcome(blob) is Some <==> exif_present(blob) && rational_triple(primary_value(blob, GpsTag::Latitude))
            is Some && rational_triple(primary_value(blob, GpsTag::Longitude)) is Some,
        gps_outcome(blob) matches Some(g) ==> reads_position(blob, g),
{
}

/// Law: a blob with EXIF yields one pair per field of its block, pair `i`
/// being field `i` (none dropped, none added, in order); a blob without EXIF
/// yields no pairs.
pub proof fn lemma_exif_pairs_are_the_fields(blob: Seq<u8>)
    ensures
        exif_present(blob) ==> exif_outcome(blob).len() == exif_listing(blob).len(),
        exif_present(blob) ==> forall|i: int|
            0 <= i < exif_listing(blob).len() ==> #[trigger] exif_outcome(blob)[i] == exif_listing(blob)[i],
        !exif_present(blob) ==> exif_outcome(blob).len() == 0,
{
}

} // verus!
