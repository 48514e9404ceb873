//! EXIF metadata extraction and orientation handling.
//!
//! # Privacy
//!
//! Every encode path in this crate starts from raw pixels, so all EXIF/GPS
//! metadata is stripped from output by default — including GPS coordinates
//! and serial numbers embedded by cameras. To keep metadata anyway, extract
//! what you need with [`read_exif`] and/or re-inject the original EXIF block
//! into a JPEG output with [`app1_segment`] (opt-in preservation).
//!
//! # Orientation
//!
//! Camera photos store pixels rotated with an EXIF orientation tag instead
//! of upright. [`read_orientation`] reads that tag and [`Orientation::apply`]
//! turns pixels upright (all 8 orientations).

use vstd::prelude::*;

use exif::{In, Tag, Value};

use crate::bitmap::{
    flip_h, flip_v, lemma_shuffles, lemma_view_ext, rotate180, rotate270, rotate90, Bitmap,
    BitmapView,
};
use crate::error::{result_view, MediaError, MediaErrorView};

verus! {

/// EXIF orientation tag (values 1–8): how stored pixels relate to the
/// intended upright scene.
///
/// [`Orientation::apply`] converts stored pixels into upright pixels using
/// only lossless pixel shuffles (rotations and mirrors).
#[derive(Debug, Clone, Copy, PartialEq, Eq, Structural, Hash)]
pub enum Orientation {
    /// Row 0 = visual top, column 0 = visual left. No transform.
    Up,
    /// Row 0 = top, column 0 = right: stored image is mirrored horizontally.
    MirrorHorizontal,
    /// Row 0 = bottom, column 0 = right: rotate 180°.
    Rotate180,
    /// Row 0 = bottom, column 0 = left: mirrored vertically.
    MirrorVertical,
    /// Row 0 = left, column 0 = top: transpose (flip across the main
    /// diagonal). Output dimensions are swapped.
    Transpose,
    /// Row 0 = right, column 0 = top: rotate 90° clockwise. Output
    /// dimensions are swapped.
    Rotate90Cw,
    /// Row 0 = right, column 0 = bottom: anti-transpose (flip across the
    /// anti-diagonal). Output dimensions are swapped.
    AntiTranspose,
    /// Row 0 = left, column 0 = bottom: rotate 90° counter-clockwise
    /// (270° clockwise). Output dimensions are swapped.
    Rotate270Cw,
}

/// The orientation a raw EXIF tag value denotes (1–8), if any.
pub open spec fn orientation_of(v: int) -> Option<Orientation> {
    if v == 1 {
        Some(Orientation::Up)
    } else if v == 2 {
        Some(Orientation::MirrorHorizontal)
    } else if v == 3 {
        Some(Orientation::Rotate180)
    } else if v == 4 {
        Some(Orientation::MirrorVertical)
    } else if v == 5 {
        Some(Orientation::Transpose)
    } else if v == 6 {
        Some(Orientation::Rotate90Cw)
    } else if v == 7 {
        Some(Orientation::AntiTranspose)
    } else if v == 8 {
        Some(Orientation::Rotate270Cw)
    } else {
        None
    }
}

/// The raw EXIF tag value of an orientation.
pub open spec fn tag_value(o: Orientation) -> u16 {
    match o {
        Orientation::Up => 1,
        Orientation::MirrorHorizontal => 2,
        Orientation::Rotate180 => 3,
        Orientation::MirrorVertical => 4,
        Orientation::Transpose => 5,
        Orientation::Rotate90Cw => 6,
        Orientation::AntiTranspose => 7,
        Orientation::Rotate270Cw => 8,
    }
}

/// Orientations 5–8 exchange width and height.
pub open spec fn swaps(o: Orientation) -> bool {
    match o {
        Orientation::Transpose | Orientation::Rotate90Cw | Orientation::AntiTranspose
        | Orientation::Rotate270Cw => true,
        _ => false,
    }
}

/// Upright pixels for stored pixels `m` under orientation `o`, as the
/// composition of the `image` crate's shuffles that [`Orientation::apply`]
/// performs.
pub open spec fn oriented(o: Orientation, m: BitmapView) -> BitmapView {
    match o {
        Orientation::Up => m,
        Orientation::MirrorHorizontal => flip_h(m),
        Orientation::Rotate180 => rotate180(m),
        Orientation::MirrorVertical => flip_v(m),
        Orientation::Transpose => rotate270(flip_h(m)),
        Orientation::Rotate90Cw => rotate90(m),
        Orientation::AntiTranspose => rotate270(flip_v(m)),
        Orientation::Rotate270Cw => rotate270(m),
    }
}

/// The stored pixel that upright pixel `(x, y)` of a `w` x `h` stored image
/// comes from under orientation `o`.
pub open spec fn stored_position(o: Orientation, w: int, h: int, x: int, y: int) -> (int, int) {
    match o {
        Orientation::Up => (x, y),
        Orientation::MirrorHorizontal => (w - 1 - x, y),
        Orientation::Rotate180 => (w - 1 - x, h - 1 - y),
        Orientation::MirrorVertical => (x, h - 1 - y),
        Orientation::Transpose => (y, x),
        Orientation::Rotate90Cw => (y, h - 1 - x),
        Orientation::AntiTranspose => (w - 1 - y, h - 1 - x),
        Orientation::Rotate270Cw => (w - 1 - y, x),
    }
}

/// The orientation that undoes `o`.
pub open spec fn inverse(o: Orientation) -> Orientation {
    match o {
        Orientation::Rotate90Cw => Orientation::Rotate270Cw,
        Orientation::Rotate270Cw => Orientation::Rotate90Cw,
        _ => o,
    }
}

impl Orientation {
    /// Map a raw EXIF orientation tag value (1–8). Returns [`None`] for
    /// anything else.
    pub fn from_u16(v: u16) -> (r: Option<Self>)
        ensures
            r == orientation_of(v as int),
    {
        match v {
            1 => Some(Self::Up),
            2 => Some(Self::MirrorHorizontal),
            3 => Some(Self::Rotate180),
            4 => Some(Self::MirrorVertical),
            5 => Some(Self::Transpose),
            6 => Some(Self::Rotate90Cw),
            7 => Some(Self::AntiTranspose),
            8 => Some(Self::Rotate270Cw),
            _ => None,
        }
    }

    /// The raw EXIF tag value (1–8).
    pub fn to_u16(self) -> (r: u16)
        ensures
            r == tag_value(self),
    {
        match self {
            Self::Up => 1,
            Self::MirrorHorizontal => 2,
            Self::Rotate180 => 3,
            Self::MirrorVertical => 4,
            Self::Transpose => 5,
            Self::Rotate90Cw => 6,
            Self::AntiTranspose => 7,
            Self::Rotate270Cw => 8,
        }
    }

    /// `true` when applying this orientation swaps width and height
    /// (orientations 5–8).
    pub fn swaps_dimensions(self) -> (r: bool)
        ensures
            r == swaps(self),
    {
        matches!(
            self,
            Self::Transpose | Self::Rotate90Cw | Self::AntiTranspose | Self::Rotate270Cw
        )
    }

    /// Transform stored pixels into upright pixels (lossless pixel shuffle).
    pub fn apply(self, img: &Bitmap) -> (r: Bitmap)
        ensures
            r@ == oriented(self, img@),
    {
        match self {
            Self::Up => img.clone(),
            Self::MirrorHorizontal => img.fliph(),
            Self::Rotate180 => img.rotate180(),
            Self::MirrorVertical => img.flipv(),
            Self::Transpose => img.fliph().rotate270(),
            Self::Rotate90Cw => img.rotate90(),
            Self::AntiTranspose => img.flipv().rotate270(),
            Self::Rotate270Cw => img.rotate270(),
        }
    }
}

/// Tag values and orientations correspond one to one: decoding a value in
/// 1–8 and encoding it again gives the value back, every orientation's
/// value decodes to it, and nothing outside 1–8 decodes.
pub proof fn lemma_tag_roundtrip(v: int, o: Orientation)
    ensures
        1 <= v <= 8 ==> (orientation_of(v) matches Some(p) && tag_value(p) == v),
        !(1 <= v <= 8) ==> orientation_of(v) is None,
        orientation_of(tag_value(o) as int) == Some(o),
{
}

/// Dimensions after orientation: orientations 5–8 exchange width and height,
/// 1–4 keep them; applying the orientation samples the stored pixel that
/// [`stored_position`] names, and the result is well formed.
pub proof fn lemma_oriented_shape(o: Orientation, m: BitmapView)
    requires
        m.wf(),
    ensures
        oriented(o, m).wf(),
        oriented(o, m).kind == m.kind,
        swaps(o) ==> oriented(o, m).width == m.height && oriented(o, m).height == m.width,
        !swaps(o) ==> oriented(o, m).width == m.width && oriented(o, m).height == m.height,
        forall|x: int, y: int, c: int| #[trigger] oriented(o, m).in_bounds(x, y, c) ==>
            oriented(o, m).sample(x, y, c) == m.sample(
                stored_position(o, m.width as int, m.height as int, x, y).0,
                stored_position(o, m.width as int, m.height as int, x, y).1,
                c,
            ),
{
    lemma_shuffles(m);
    lemma_shuffles(flip_h(m));
    lemma_shuffles(flip_v(m));
    let r = oriented(o, m);
    assert forall|x: int, y: int, c: int| #[trigger] r.in_bounds(x, y, c) implies r.sample(x, y, c) == m.sample(
        stored_position(o, m.width as int, m.height as int, x, y).0,
        stored_position(o, m.width as int, m.height as int, x, y).1,
        c,
    ) by {
        match o {
            Orientation::Up => {},
            Orientation::MirrorHorizontal => {
                assert(m.in_bounds(x, y, c));
            },
            Orientation::Rotate180 => {
                assert(m.in_bounds(x, y, c));
            },
            Orientation::MirrorVertical => {
                assert(m.in_bounds(x, y, c));
            },
            Orientation::Transpose => {
                let f = flip_h(m);
                assert(rotate270(f).sample(x, y, c) == f.sample(f.width - 1 - y, x, c));
                assert(m.in_bounds(f.width - 1 - y, x, c));
            },
            Orientation::Rotate90Cw => {
                assert(rotate90(m).sample(x, y, c) == m.sample(y, m.height - 1 - x, c));
            },
            Orientation::AntiTranspose => {
                let f = flip_v(m);
                assert(rotate270(f).sample(x, y, c) == f.sample(f.width - 1 - y, x, c));
                assert(m.in_bounds(f.width - 1 - y, x, c));
            },
            Orientation::Rotate270Cw => {
                assert(rotate270(m).sample(x, y, c) == m.sample(m.width - 1 - y, x, c));
            },
        }
    }
}

/// Orientation is lossless: applying an orientation and then its inverse
/// ([`inverse`]: 90° and 270° undo each other, every other orientation
/// undoes itself) restores the stored pixels exactly.
pub proof fn lemma_inverse_restores(o: Orientation, m: BitmapView)
    requires
        m.wf(),
    ensures
        oriented(inverse(o), oriented(o, m)) == m,
{
    let r = oriented(o, m);
    lemma_oriented_shape(o, m);
    lemma_oriented_shape(inverse(o), r);
    let back = oriented(inverse(o), r);
    assert forall|x: int, y: int, c: int| back.in_bounds(x, y, c) implies #[trigger] back.sample(x, y, c) == m.sample(x, y, c) by {
        let p = stored_position(inverse(o), r.width as int, r.height as int, x, y);
        assert(r.in_bounds(p.0, p.1, c));
    }
    lemma_view_ext(back, m);
}


/// The EXIF tags this library reads.
#[derive(Debug, Clone, Copy, PartialEq, Eq, Structural)]
pub enum ExifTag {
    /// `Make`.
    Make,
    /// `Model`.
    Model,
    /// `DateTimeOriginal`.
    DateTimeOriginal,
    /// `GPSLatitude`.
    GpsLatitude,
    /// `GPSLongitude`.
    GpsLongitude,
    /// `Orientation`.
    Orientation,
}

/// The value forms of an EXIF field that this library distinguishes.
#[derive(Debug, Clone, PartialEq, Eq)]
pub enum ExifValue {
    /// Unsigned 16-bit values.
    Short(Vec<u16>),
    /// Unsigned rationals as `(numerator, denominator)`.
    Rational(Vec<(u32, u32)>),
    /// Any other value type.
    Other,
}

/// One field of the primary image's EXIF directory.
#[derive(Debug, Clone, PartialEq, Eq)]
pub struct ExifField {
    /// The field's value rendered for display by the EXIF reader.
    pub display: String,
    /// The field's raw value.
    pub value: ExifValue,
}

/// [`ExifValue`] as a mathematical value.
pub enum ExifValueView {
    Short(Seq<u16>),
    Rational(Seq<(u32, u32)>),
    Other,
}

/// [`ExifField`] as a mathematical value.
pub struct ExifFieldView {
    pub display: Seq<char>,
    pub value: ExifValueView,
}

impl View for ExifField {
    type V = ExifFieldView;

    open spec fn view(&self) -> ExifFieldView {
        ExifFieldView {
            display: self.display@,
            value: match self.value {
                ExifValue::Short(v) => ExifValueView::Short(v@),
                ExifValue::Rational(v) => ExifValueView::Rational(v@),
                ExifValue::Other => ExifValueView::Other,
            },
        }
    }
}

/// How the EXIF reader fared on a container.
pub enum ExifStatus {
    /// An EXIF block was found and parsed.
    Found,
    /// The container holds no EXIF block.
    Absent,
    /// An EXIF block (or the container) could not be parsed; the reader's
    /// message.
    Broken(Seq<char>),
}

/// How `exif::Reader::read_from_container` fares on these bytes.
pub uninterp spec fn exif_status(bytes: Seq<u8>) -> ExifStatus;

/// The field that `Exif::get_field(tag, In::PRIMARY)` finds in the EXIF
/// block of these bytes, with its display rendering and value.
pub uninterp spec fn exif_field_of(bytes: Seq<u8>, tag: ExifTag) -> Option<ExifFieldView>;

/// The raw TIFF block (`Exif::buf`) of the EXIF block in these bytes.
pub uninterp spec fn exif_tiff_of(bytes: Seq<u8>) -> Seq<u8>;

/// The `kamadak-exif` reader's parsed EXIF block.
#[verifier::external_type_specification]
#[verifier::external_body]
pub struct ExExif(exif::Exif);

/// A parsed EXIF block together with the container bytes it was read from.
pub struct ExifBlock {
    exif: exif::Exif,
    source: Ghost<Seq<u8>>,
}

impl ExifBlock {
    /// The container bytes the block was read from.
    pub closed spec fn source(&self) -> Seq<u8> {
        self.source@
    }
}

/// Why no EXIF block came back.
pub enum ExifFailure {
    /// The container holds no EXIF block.
    NotFound,
    /// The reader failed; its message.
    Invalid(String),
}

/// Reads the EXIF block of a JPEG/TIFF/PNG/WebP/HEIF container with
/// `exif::Reader::new().read_from_container`. Trusted: the outcome is
/// whatever the reader reports for these bytes ([`exif_status`]); a
/// returned block remembers the bytes it was read from.
#[verifier::external_body]
fn open_exif(bytes: &[u8]) -> (r: Result<ExifBlock, ExifFailure>)
    ensures
        match exif_status(bytes@) {
            ExifStatus::Found => r matches Ok(b) && b.source() == bytes@,
            ExifStatus::Absent => r matches Err(ExifFailure::NotFound),
            ExifStatus::Broken(m) => r matches Err(ExifFailure::Invalid(s)) && s@ == m,
        },
{
    match exif::Reader::new().read_from_container(&mut std::io::Cursor::new(bytes)) {
        Ok(exif) => Ok(ExifBlock { exif, source: Ghost(bytes@) }),
        Err(exif::Error::NotFound(_)) => Err(ExifFailure::NotFound),
        Err(e) => Err(ExifFailure::Invalid(e.to_string())),
    }
}

/// Looks a tag up in the primary image directory with `Exif::get_field`
/// and renders it with `Field::display_value`. Trusted: the field is a
/// function of the container bytes and the tag ([`exif_field_of`]).
#[verifier::external_body]
fn exif_field(block: &ExifBlock, tag: ExifTag) -> (r: Option<ExifField>)
    ensures
        match r {
            Some(f) => exif_field_of(block.source(), tag) == Some(f@),
            None => exif_field_of(block.source(), tag) is None,
        },
{
    let t = match tag {
        ExifTag::Make => Tag::Make,
        ExifTag::Model => Tag::Model,
        ExifTag::DateTimeOriginal => Tag::DateTimeOriginal,
        ExifTag::GpsLatitude => Tag::GPSLatitude,
        ExifTag::GpsLongitude => Tag::GPSLongitude,
        ExifTag::Orientation => Tag::Orientation,
    };
    let f = block.exif.get_field(t, In::PRIMARY)?;
    let value = match &f.value {
        Value::Short(v) => ExifValue::Short(v.clone()),
        Value::Rational(v) => ExifValue::Rational(v.iter().map(|q| (q.num, q.denom)).collect()),
        _ => ExifValue::Other,
    };
    Some(ExifField { display: f.display_value().to_string(), value })
}

/// The raw TIFF block with `Exif::buf`. Trusted: a function of the
/// container bytes ([`exif_tiff_of`]).
#[verifier::external_body]
fn exif_tiff(block: &ExifBlock) -> (r: Vec<u8>)
    ensures
        r@ == exif_tiff_of(block.source()),
{
    block.exif.buf().to_vec()
}


/// An unsigned EXIF rational `num / denom`.
#[derive(Debug, Clone, Copy, PartialEq, Eq, Structural)]
pub struct Rational {
    /// Numerator.
    pub num: u32,
    /// Denominator.
    pub denom: u32,
}

/// A GPS coordinate as the three unsigned rationals EXIF stores: degrees,
/// minutes and seconds.
#[derive(Debug, Clone, Copy, PartialEq, Eq, Structural)]
pub struct GpsCoordinate {
    /// Degrees.
    pub degrees: Rational,
    /// Minutes.
    pub minutes: Rational,
    /// Seconds.
    pub seconds: Rational,
}

/// The rational a `(numerator, denominator)` pair denotes.
pub open spec fn rational(p: (u32, u32)) -> Rational {
    Rational { num: p.0, denom: p.1 }
}

fn to_rational(p: (u32, u32)) -> (r: Rational)
    ensures
        r == rational(p),
{
    Rational { num: p.0, denom: p.1 }
}

/// Flattened EXIF fields of interest.
#[derive(Debug, Clone, PartialEq, Eq)]
pub struct ExifData {
    /// Camera manufacturer (`Make`).
    pub camera_make: Option<String>,
    /// Camera model (`Model`).
    pub camera_model: Option<String>,
    /// Capture date (`DateTimeOriginal`), as a raw string.
    pub date_taken: Option<String>,
    /// GPS latitude, when tagged with at least three rationals.
    pub gps_lat: Option<GpsCoordinate>,
    /// GPS longitude, when tagged with at least three rationals.
    pub gps_lon: Option<GpsCoordinate>,
    /// Raw `Orientation` tag value, when tagged (see [`Orientation`]).
    pub orientation: Option<u8>,
}

/// [`ExifData`] as a mathematical value.
pub struct ExifDataView {
    pub camera_make: Option<Seq<char>>,
    pub camera_model: Option<Seq<char>>,
    pub date_taken: Option<Seq<char>>,
    pub gps_lat: Option<GpsCoordinate>,
    pub gps_lon: Option<GpsCoordinate>,
    pub orientation: Option<u8>,
}

/// A string option by its view.
pub open spec fn text_view(t: Option<String>) -> Option<Seq<char>> {
    match t {
        Some(s) => Some(s@),
        None => None,
    }
}

impl View for ExifData {
    type V = ExifDataView;

    open spec fn view(&self) -> ExifDataView {
        ExifDataView {
            camera_make: text_view(self.camera_make),
            camera_model: text_view(self.camera_model),
            date_taken: text_view(self.date_taken),
            gps_lat: self.gps_lat,
            gps_lon: self.gps_lon,
            orientation: self.orientation,
        }
    }
}

/// A field's display rendering.
pub open spec fn field_text(f: Option<ExifFieldView>) -> Option<Seq<char>> {
    match f {
        Some(f) => Some(f.display),
        None => None,
    }
}

/// The first three rationals of a rational-valued field.
pub open spec fn field_gps(f: Option<ExifFieldView>) -> Option<GpsCoordinate> {
    match f {
        Some(f) => match f.value {
            ExifValueView::Rational(r) => if r.len() >= 3 {
                Some(
                    GpsCoordinate {
                        degrees: rational(r[0]),
                        minutes: rational(r[1]),
                        seconds: rational(r[2]),
                    },
                )
            } else {
                None
            },
            _ => None,
        },
        None => None,
    }
}

/// The low byte of the first value of a non-empty short-valued field.
pub open spec fn field_first_short_byte(f: Option<ExifFieldView>) -> Option<u8> {
    match f {
        Some(f) => match f.value {
            ExifValueView::Short(v) => if v.len() > 0 {
                Some((v[0] % 256) as u8)
            } else {
                None
            },
            _ => None,
        },
        None => None,
    }
}

/// The orientation a short-valued field's first value denotes.
pub open spec fn field_orientation(f: Option<ExifFieldView>) -> Option<Orientation> {
    match f {
        Some(f) => match f.value {
            ExifValueView::Short(v) => if v.len() > 0 {
                orientation_of(v[0] as int)
            } else {
                None
            },
            _ => None,
        },
        None => None,
    }
}

/// The six fields [`read_exif`] looks up, as the EXIF reader found them.
pub struct ExifFields {
    /// `Make`.
    pub make: Option<ExifField>,
    /// `Model`.
    pub model: Option<ExifField>,
    /// `DateTimeOriginal`.
    pub date_taken: Option<ExifField>,
    /// `GPSLatitude`.
    pub gps_lat: Option<ExifField>,
    /// `GPSLongitude`.
    pub gps_lon: Option<ExifField>,
    /// `Orientation`.
    pub orientation: Option<ExifField>,
}

/// The data the six looked-up fields carry: the display renderings of the
/// text fields, the first three rationals of each GPS field, and the low
/// byte of the first orientation value.
pub open spec fn fields_data(
    make: Option<ExifFieldView>,
    model: Option<ExifFieldView>,
    date_taken: Option<ExifFieldView>,
    gps_lat: Option<ExifFieldView>,
    gps_lon: Option<ExifFieldView>,
    orientation: Option<ExifFieldView>,
) -> ExifDataView {
    ExifDataView {
        camera_make: field_text(make),
        camera_model: field_text(model),
        date_taken: field_text(date_taken),
        gps_lat: field_gps(gps_lat),
        gps_lon: field_gps(gps_lon),
        orientation: field_first_short_byte(orientation),
    }
}

/// The fields [`read_exif`] extracts from these bytes.
pub open spec fn exif_data_of(bytes: Seq<u8>) -> ExifDataView {
    fields_data(
        exif_field_of(bytes, ExifTag::Make),
        exif_field_of(bytes, ExifTag::Model),
        exif_field_of(bytes, ExifTag::DateTimeOriginal),
        exif_field_of(bytes, ExifTag::GpsLatitude),
        exif_field_of(bytes, ExifTag::GpsLongitude),
        exif_field_of(bytes, ExifTag::Orientation),
    )
}

/// Every field absent.
pub open spec fn exif_data_empty(d: ExifDataView) -> bool {
    &&& d.camera_make is None
    &&& d.camera_model is None
    &&& d.date_taken is None
    &&& d.gps_lat is None
    &&& d.gps_lon is None
    &&& d.orientation is None
}

/// The data, or `None` when every field is absent.
pub open spec fn collected(d: ExifDataView) -> Option<ExifDataView> {
    if exif_data_empty(d) {
        None
    } else {
        Some(d)
    }
}

/// What [`read_exif`] returns: no EXIF block or no field of interest gives
/// `None`, an unparsable block the reader's message.
pub open spec fn read_exif_spec(bytes: Seq<u8>) -> Result<Option<ExifDataView>, MediaErrorView> {
    match exif_status(bytes) {
        ExifStatus::Absent => Ok(None),
        ExifStatus::Broken(m) => Err(MediaErrorView::Exif(m)),
        ExifStatus::Found => Ok(collected(exif_data_of(bytes))),
    }
}

fn display_of(f: Option<ExifField>) -> (r: Option<String>)
    ensures
        text_view(r) == field_text(
            match f {
                Some(x) => Some(x@),
                None => None,
            },
        ),
{
    match f {
        Some(x) => Some(x.display),
        None => None,
    }
}

/// The view of an optional field.
pub open spec fn field_view(f: Option<ExifField>) -> Option<ExifFieldView> {
    match f {
        Some(x) => Some(x@),
        None => None,
    }
}

fn gps_of(f: Option<ExifField>) -> (r: Option<GpsCoordinate>)
    ensures
        r == field_gps(field_view(f)),
{
    match f {
        Some(x) => match x.value {
            ExifValue::Rational(v) => if v.len() >= 3 {
                Some(
                    GpsCoordinate {
                        degrees: to_rational(v[0]),
                        minutes: to_rational(v[1]),
                        seconds: to_rational(v[2]),
                    },
                )
            } else {
                None
            },
            _ => None,
        },
        None => None,
    }
}

fn first_short_byte(f: Option<ExifField>) -> (r: Option<u8>)
    ensures
        r == field_first_short_byte(field_view(f)),
{
    match f {
        Some(x) => match x.value {
            ExifValue::Short(v) => if v.len() > 0 {
                Some((v[0] % 256) as u8)
            } else {
                None
            },
            _ => None,
        },
        None => None,
    }
}

/// The orientation an `Orientation` field denotes: the first of its short
/// values, when it has one and it lies in 1–8.
pub fn orientation_field(f: Option<ExifField>) -> (r: Option<Orientation>)
    ensures
        r == field_orientation(field_view(f)),
{
    match f {
        Some(x) => match x.value {
            ExifValue::Short(v) => if v.len() > 0 {
                Orientation::from_u16(v[0])
            } else {
                None
            },
            _ => None,
        },
        None => None,
    }
}

/// The view of an optional [`ExifData`].
pub open spec fn exif_data_option_view(d: Option<ExifData>) -> Option<ExifDataView> {
    match d {
        Some(d) => Some(d@),
        None => None,
    }
}

/// The [`ExifData`] that looked-up fields carry (see [`fields_data`]), or
/// `None` when none of them carries anything.
pub fn collect_exif(fields: ExifFields) -> (r: Option<ExifData>)
    ensures
        exif_data_option_view(r) == collected(
            fields_data(
                field_view(fields.make),
                field_view(fields.model),
                field_view(fields.date_taken),
                field_view(fields.gps_lat),
                field_view(fields.gps_lon),
                field_view(fields.orientation),
            ),
        ),
{
    let data = ExifData {
        camera_make: display_of(fields.make),
        camera_model: display_of(fields.model),
        date_taken: display_of(fields.date_taken),
        gps_lat: gps_of(fields.gps_lat),
        gps_lon: gps_of(fields.gps_lon),
        orientation: first_short_byte(fields.orientation),
    };
    if data.camera_make.is_none() && data.camera_model.is_none() && data.date_taken.is_none()
        && data.gps_lat.is_none() && data.gps_lon.is_none() && data.orientation.is_none() {
        None
    } else {
        Some(data)
    }
}

/// Read EXIF metadata from JPEG or TIFF bytes. Returns [`None`] when the
/// container carries no EXIF or none of the fields of interest; returns an
/// error when EXIF exists but cannot be parsed.
///
/// # Errors
///
/// [`MediaError::Exif`] when the reader fails to parse a present EXIF segment.
pub fn read_exif(bytes: &[u8]) -> (r: Result<Option<ExifData>, MediaError>)
    ensures
        result_view(r, |d: Option<ExifData>| exif_data_option_view(d)) == read_exif_spec(bytes@),
{
    let block = match open_exif(bytes) {
        Ok(b) => b,
        Err(ExifFailure::NotFound) => return Ok(None),
        Err(ExifFailure::Invalid(m)) => return Err(MediaError::Exif(m)),
    };
    let fields = ExifFields {
        make: exif_field(&block, ExifTag::Make),
        model: exif_field(&block, ExifTag::Model),
        date_taken: exif_field(&block, ExifTag::DateTimeOriginal),
        gps_lat: exif_field(&block, ExifTag::GpsLatitude),
        gps_lon: exif_field(&block, ExifTag::GpsLongitude),
        orientation: exif_field(&block, ExifTag::Orientation),
    };
    Ok(collect_exif(fields))
}

/// Each field [`read_exif`] reports comes from its own tag: for bytes whose
/// EXIF block the reader finds, a `Some` result carries the display text of
/// `Make`, `Model` and `DateTimeOriginal`, the first three rationals of
/// `GPSLatitude` and of `GPSLongitude`, and the low byte of the first
/// `Orientation` value; the result is `None` exactly when none of those six
/// carries anything. Without an EXIF block the result is `None`, and an
/// unreadable block gives the reader's message.
pub proof fn lemma_read_exif_fields(bytes: Seq<u8>)
    ensures
        exif_status(bytes) is Absent ==> read_exif_spec(bytes) == Ok::<Option<ExifDataView>, MediaErrorView>(None),
        exif_status(bytes) matches ExifStatus::Broken(m) ==> read_exif_spec(bytes) == Err::<
            Option<ExifDataView>,
            MediaErrorView,
        >(MediaErrorView::Exif(m)),
        exif_status(bytes) is Found ==> match read_exif_spec(bytes) {
            Ok(Some(d)) => {
                &&& d.camera_make == field_text(exif_field_of(bytes, ExifTag::Make))
                &&& d.camera_model == field_text(exif_field_of(bytes, ExifTag::Model))
                &&& d.date_taken == field_text(exif_field_of(bytes, ExifTag::DateTimeOriginal))
                &&& d.gps_lat == field_gps(exif_field_of(bytes, ExifTag::GpsLatitude))
                &&& d.gps_lon == field_gps(exif_field_of(bytes, ExifTag::GpsLongitude))
                &&& d.orientation == field_first_short_byte(exif_field_of(bytes, ExifTag::Orientation))
            },
            Ok(None) => {
                &&& field_text(exif_field_of(bytes, ExifTag::Make)) is None
                &&& field_text(exif_field_of(bytes, ExifTag::Model)) is None
                &&& field_text(exif_field_of(bytes, ExifTag::DateTimeOriginal)) is None
                &&& field_gps(exif_field_of(bytes, ExifTag::GpsLatitude)) is None
                &&& field_gps(exif_field_of(bytes, ExifTag::GpsLongitude)) is None
                &&& field_first_short_byte(exif_field_of(bytes, ExifTag::Orientation)) is None
            },
            Err(_) => false,
        },
{
}

/// What [`read_orientation`] returns.
pub open spec fn read_orientation_spec(bytes: Seq<u8>) -> Result<Option<Orientation>, MediaErrorView> {
    match exif_status(bytes) {
        ExifStatus::Absent => Ok(None),
        ExifStatus::Broken(m) => Err(MediaErrorView::Exif(m)),
        ExifStatus::Found => Ok(field_orientation(exif_field_of(bytes, ExifTag::Orientation))),
    }
}

/// [`read_orientation`] and [`read_exif`] agree: they fail alike, and when
/// the orientation reader finds orientation `o`, the metadata reader reports
/// EXIF data whose raw orientation byte is `o`'s tag value.
pub proof fn lemma_orientation_agrees_with_exif(bytes: Seq<u8>)
    ensures
        read_orientation_spec(bytes) is Err <==> read_exif_spec(bytes) is Err,
        read_orientation_spec(bytes) matches Ok(Some(o)) ==> (read_exif_spec(bytes) matches Ok(Some(d))
            && d.orientation == Some(tag_value(o) as u8)),
{
    if let Ok(Some(o)) = read_orientation_spec(bytes) {
        let f = exif_field_of(bytes, ExifTag::Orientation);
        lemma_tag_roundtrip(f->Some_0.value->Short_0[0] as int, o);
    }
}

/// Read only the EXIF orientation tag from JPEG or TIFF bytes. Returns
/// [`None`] when the container has no EXIF or no orientation tag.
///
/// # Errors
///
/// [`MediaError::Exif`] when EXIF exists but cannot be parsed.
pub fn read_orientation(bytes: &[u8]) -> (r: Result<Option<Orientation>, MediaError>)
    ensures
        result_view(r, |o: Option<Orientation>| o) == read_orientation_spec(bytes@),
{
    let block = match open_exif(bytes) {
        Ok(b) => b,
        Err(ExifFailure::NotFound) => return Ok(None),
        Err(ExifFailure::Invalid(m)) => return Err(MediaError::Exif(m)),
    };
    Ok(orientation_field(exif_field(&block, ExifTag::Orientation)))
}

/// Largest TIFF block that fits a JPEG APP1 segment: the segment length is
/// a 16-bit count covering itself (2), the `Exif\0\0` signature (6) and
/// the block.
pub const MAX_APP1_TIFF: usize = 65527;

/// The JPEG APP1 segment carrying `tiff`: marker `FF E1`, the big-endian
/// 16-bit length (which counts itself, the signature and the block), the
/// signature `Exif\0\0`, then the block.
pub open spec fn app1_bytes(tiff: Seq<u8>) -> Seq<u8> {
    let len = tiff.len() + 8;
    seq![0xFFu8, 0xE1u8, (len / 256) as u8, (len % 256) as u8, 0x45u8, 0x78u8, 0x69u8, 0x66u8, 0u8, 0u8]
        + tiff
}

/// What [`app1_segment`] returns.
pub open spec fn app1_spec(source: Seq<u8>) -> Result<Option<Seq<u8>>, MediaErrorView> {
    match exif_status(source) {
        ExifStatus::Absent => Ok(None),
        ExifStatus::Broken(m) => Err(MediaErrorView::Exif(m)),
        ExifStatus::Found => if exif_field_of(source, ExifTag::Orientation) is None
            && exif_field_of(source, ExifTag::Make) is None
            && exif_field_of(source, ExifTag::Model) is None
            && exif_field_of(source, ExifTag::DateTimeOriginal) is None
            && exif_field_of(source, ExifTag::GpsLatitude) is None {
            Ok(None)
        } else {
            match app1_framing(exif_tiff_of(source)) {
                Ok(seg) => Ok(Some(seg)),
                Err(e) => Err(e),
            }
        },
    }
}

/// The view of an optional byte vector.
pub open spec fn bytes_option_view(b: Option<Vec<u8>>) -> Option<Seq<u8>> {
    match b {
        Some(v) => Some(v@),
        None => None,
    }
}

/// Extract the raw EXIF block from JPEG/TIFF `source` bytes and wrap it as a
/// JPEG APP1 segment, suitable for re-injection into an encoded JPEG right
/// after the SOI marker.
///
/// This is the opt-in counterpart of the default metadata stripping: call it
/// *before* running the pipeline and splice the result (when `Some`) into
/// your JPEG output if you explicitly want to preserve camera metadata.
///
/// # Privacy
///
/// Preserved EXIF can contain GPS coordinates and device serial numbers.
/// Never attach this to third-party-visible output without review. Note that
/// if pixels were auto-oriented, the preserved orientation tag (0x0112) no
/// longer matches the transformed pixels.
///
/// # Errors
///
/// [`MediaError::Exif`] when EXIF exists but cannot be parsed, or the block
/// does not fit an APP1 segment.
pub fn app1_segment(source: &[u8]) -> (r: Result<Option<Vec<u8>>, MediaError>)
    ensures
        result_view(r, |b: Option<Vec<u8>>| bytes_option_view(b)) == app1_spec(source@),
{
    let block = match open_exif(source) {
        Ok(b) => b,
        Err(ExifFailure::NotFound) => return Ok(None),
        Err(ExifFailure::Invalid(m)) => return Err(MediaError::Exif(m)),
    };
    // A TIFF block with only zeroed padding carries nothing worth keeping.
    if exif_field(&block, ExifTag::Orientation).is_none() && exif_field(&block, ExifTag::Make).is_none()
        && exif_field(&block, ExifTag::Model).is_none() && exif_field(
        &block,
        ExifTag::DateTimeOriginal,
    ).is_none() && exif_field(&block, ExifTag::GpsLatitude).is_none() {
        return Ok(None);
    }
    let tiff = exif_tiff(&block);
    match app1_from_tiff(tiff.as_slice()) {
        Ok(seg) => Ok(Some(seg)),
        Err(e) => Err(e),
    }
}

/// [`app1_segment`] keeps the camera metadata: when the reader finds an EXIF
/// block in which any of `Orientation`, `Make`, `Model`, `DateTimeOriginal`
/// or `GPSLatitude` is present, the result is the APP1 framing of the raw
/// TIFF block (or, for a block over [`MAX_APP1_TIFF`] bytes, an EXIF
/// error); it is `None` only when the container has no EXIF block or all
/// five tags are absent, and an unreadable block gives the reader's message.
pub proof fn lemma_app1_keeps_metadata(source: Seq<u8>)
    ensures
        ({
            let any_tag = exif_field_of(source, ExifTag::Orientation) is Some || exif_field_of(
                source,
                ExifTag::Make,
            ) is Some || exif_field_of(source, ExifTag::Model) is Some || exif_field_of(
                source,
                ExifTag::DateTimeOriginal,
            ) is Some || exif_field_of(source, ExifTag::GpsLatitude) is Some;
            let tiff = exif_tiff_of(source);
            &&& exif_status(source) is Found && any_tag && tiff.len() <= MAX_APP1_TIFF ==> app1_spec(source)
                == Ok::<Option<Seq<u8>>, MediaErrorView>(Some(app1_bytes(tiff)))
            &&& exif_status(source) is Found && any_tag && tiff.len() > MAX_APP1_TIFF ==> app1_spec(source) == Err::<
                Option<Seq<u8>>,
                MediaErrorView,
            >(MediaErrorView::Exif("exif block too large for a JPEG APP1 segment"@))
            &&& exif_status(source) is Found && !any_tag ==> app1_spec(source) == Ok::<
                Option<Seq<u8>>,
                MediaErrorView,
            >(None)
            &&& exif_status(source) is Absent ==> app1_spec(source) == Ok::<Option<Seq<u8>>, MediaErrorView>(None)
            &&& exif_status(source) matches ExifStatus::Broken(m) ==> app1_spec(source) == Err::<
                Option<Seq<u8>>,
                MediaErrorView,
            >(MediaErrorView::Exif(m))
        }),
{
}

/// The APP1 framing of a TIFF block, or the error for a block too large
/// for one.
pub open spec fn app1_framing(tiff: Seq<u8>) -> Result<Seq<u8>, MediaErrorView> {
    if tiff.len() > MAX_APP1_TIFF {
        Err(MediaErrorView::Exif("exif block too large for a JPEG APP1 segment"@))
    } else {
        Ok(app1_bytes(tiff))
    }
}

/// The layout of an APP1 segment: marker `FF E1`, a big-endian length that
/// counts itself, the signature and the block (`tiff.len() + 8`), the
/// signature `Exif\0\0`, then the block itself, byte for byte.
pub proof fn lemma_app1_layout(tiff: Seq<u8>)
    requires
        tiff.len() <= MAX_APP1_TIFF,
    ensures
        ({
            let seg = app1_bytes(tiff);
            &&& seg.len() == tiff.len() + 10
            &&& seg[0] == 0xFF && seg[1] == 0xE1
            &&& seg[2] * 256 + seg[3] == tiff.len() + 8
            &&& seg[4] == 0x45 && seg[5] == 0x78 && seg[6] == 0x69 && seg[7] == 0x66 && seg[8] == 0 && seg[9] == 0
            &&& seg.subrange(10, seg.len() as int) == tiff
        }),
{
    let seg = app1_bytes(tiff);
    assert(seg.subrange(10, seg.len() as int) =~= tiff);
}

/// Wrap a raw TIFF block as a JPEG APP1 segment ([`app1_bytes`]).
///
/// # Errors
///
/// [`MediaError::Exif`] when the block does not fit an APP1 segment (more
/// than [`MAX_APP1_TIFF`] bytes).
pub fn app1_from_tiff(tiff: &[u8]) -> (r: Result<Vec<u8>, MediaError>)
    ensures
        result_view(r, |b: Vec<u8>| b@) == app1_framing(tiff@),
{
    if tiff.len() > MAX_APP1_TIFF {
        return Err(MediaError::Exif("exif block too large for a JPEG APP1 segment".to_owned()));
    }
    let len = tiff.len() + 8;
    let mut out: Vec<u8> = Vec::with_capacity(len + 2);
    out.push(0xFF);
    out.push(0xE1);
    out.push((len / 256) as u8);
    out.push((len % 256) as u8);
    out.push(0x45);
    out.push(0x78);
    out.push(0x69);
    out.push(0x66);
    out.push(0);
    out.push(0);
    let ghost head = out@;
    let mut i: usize = 0;
    while i < tiff.len()
        invariant
            i <= tiff.len(),
            head.len() == 10,
            out@ == head + tiff@.take(i as int),
        decreases tiff.len() - i,
    {
        out.push(tiff[i]);
        i = i + 1;
        assert(out@ =~= head + tiff@.take(i as int));
    }
    assert(tiff@.take(tiff.len() as int) =~= tiff@);
    assert(head =~= seq![0xFFu8, 0xE1u8, (len / 256) as u8, (len % 256) as u8, 0x45u8, 0x78u8, 0x69u8, 0x66u8, 0u8, 0u8]);
    Ok(out)
}

/// Documentation string describing how stripping works in this crate.
///
/// The pipeline never copies metadata to its output: every encode step starts
/// from raw pixels, so EXIF/GPS data is dropped implicitly. `Op::StripExif`
/// exists purely as an explicit marker of that intent.
pub fn strip_note() -> (r: &'static str)
    ensures
        r@ == "media-kit re-encodes from raw pixels, so all EXIF/GPS metadata is stripped implicitly. Op::StripExif is an explicit no-op marker for pipelines that must document metadata removal."@,
{
    "media-kit re-encodes from raw pixels, so all EXIF/GPS metadata is stripped implicitly. Op::StripExif is an explicit no-op marker for pipelines that must document metadata removal."
}

} // verus!
