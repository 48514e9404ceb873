use media_kit::bitmap::{Bitmap, Pixels};
use media_kit::exif::{
    app1_from_tiff, app1_segment, collect_exif, orientation_field, read_exif, read_orientation,
    strip_note, ExifField, ExifFields, ExifValue, GpsCoordinate, Orientation, Rational,
    MAX_APP1_TIFF,
};
use media_kit::MediaError;
use media_kit::testutil::{noise_image, tiny_jpeg, tiny_png};

/// An APP1 segment holding a big-endian EXIF block with one IFD entry:
/// the `Orientation` tag (SHORT) with value `v`.
fn orientation_app1(v: u16) -> Vec<u8> {
    let mut tiff = vec![b'M', b'M', 0x00, 0x2A, 0x00, 0x00, 0x00, 0x08];
    tiff.extend_from_slice(&[0x00, 0x01]);
    tiff.extend_from_slice(&[0x01, 0x12, 0x00, 0x03, 0x00, 0x00, 0x00, 0x01]);
    tiff.extend_from_slice(&v.to_be_bytes());
    tiff.extend_from_slice(&[0x00, 0x00]);
    tiff.extend_from_slice(&[0x00, 0x00, 0x00, 0x00]);
    let mut payload = b"Exif\0\0".to_vec();
    payload.extend_from_slice(&tiff);
    let len = (payload.len() + 2) as u16;
    let mut seg = vec![0xFF, 0xE1];
    seg.extend_from_slice(&len.to_be_bytes());
    seg.extend_from_slice(&payload);
    seg
}

/// The 8x8 sample JPEG with an EXIF orientation tag `v` right after SOI.
fn jpeg_with_orientation(v: u16) -> Vec<u8> {
    let jpg = tiny_jpeg().unwrap();
    let mut out = jpg[..2].to_vec();
    out.extend_from_slice(&orientation_app1(v));
    out.extend_from_slice(&jpg[2..]);
    out
}

fn luma(w: u32, h: u32, rows: &[&[u8]]) -> Bitmap {
    let mut px = Vec::new();
    for r in rows {
        px.extend_from_slice(r);
    }
    Bitmap::new(w, h, Pixels::L8(px)).unwrap()
}

fn raw(b: &Bitmap) -> Vec<u16> {
    let mut out = Vec::new();
    for y in 0..b.height() {
        for x in 0..b.width() {
            for c in 0..b.kind().channels() {
                out.push(b.sample(x, y, c));
            }
        }
    }
    out
}

#[test]
fn plain_jpeg_has_no_exif() {
    // The image crate's encoder writes no EXIF segment.
    assert_eq!(read_exif(&tiny_jpeg().unwrap()).unwrap(), None);
}

#[test]
fn png_has_no_exif() {
    assert_eq!(read_exif(&tiny_png(4, 4).unwrap()).unwrap(), None);
}

#[test]
fn garbage_is_error() {
    assert!(read_exif(b"garbage").is_err());
}

#[test]
fn strip_note_mentions_implicit() {
    assert!(strip_note().contains("implicitly"));
}

#[test]
fn orientation_from_u16_roundtrip() {
    for v in 1u16..=8 {
        let o = Orientation::from_u16(v).unwrap();
        assert_eq!(o.to_u16(), v);
    }
}

#[test]
fn orientation_from_u16_rejects_out_of_range() {
    for v in [0u16, 9, 100, u16::MAX] {
        assert_eq!(Orientation::from_u16(v), None, "value {v}");
    }
}

#[test]
fn orientation_swaps_dims_for_5_to_8() {
    for (v, swaps) in [
        (1, false),
        (2, false),
        (3, false),
        (4, false),
        (5, true),
        (6, true),
        (7, true),
        (8, true),
    ] {
        assert_eq!(Orientation::from_u16(v).unwrap().swaps_dimensions(), swaps);
    }
}

#[test]
fn read_orientation_of_plain_jpeg_is_none() {
    assert_eq!(read_orientation(&tiny_jpeg().unwrap()).unwrap(), None);
}

#[test]
fn read_orientation_roundtrips_all_8() {
    for v in 1u16..=8 {
        let jpg = jpeg_with_orientation(v);
        assert_eq!(
            read_orientation(&jpg).unwrap(),
            Orientation::from_u16(v),
            "tag value {v}"
        );
    }
}

#[test]
fn read_orientation_garbage_is_error() {
    assert!(read_orientation(b"junk").is_err());
}

#[test]
fn read_exif_includes_orientation() {
    let jpg = jpeg_with_orientation(6);
    let data = read_exif(&jpg).unwrap().expect("orientation-only EXIF");
    assert_eq!(data.orientation, Some(6));
    assert_eq!(data.gps_lat, None);
}

/// Scene (2 wide, 3 tall); applying orientation `v` to the hand-written
/// stored matrix for `v` must reproduce this exact scene.
#[test]
fn orientation_transforms_are_correct() {
    let scene: Vec<u16> = vec![1, 2, 3, 4, 5, 6];
    let stored: [(u16, [[u8; 2]; 3]); 4] = [
        (1, [[1, 2], [3, 4], [5, 6]]),
        (2, [[2, 1], [4, 3], [6, 5]]),
        (3, [[6, 5], [4, 3], [2, 1]]),
        (4, [[5, 6], [3, 4], [1, 2]]),
    ];
    let stored_swapped: [(u16, [[u8; 3]; 2]); 4] = [
        (5, [[1, 3, 5], [2, 4, 6]]),
        (6, [[2, 4, 6], [1, 3, 5]]),
        (7, [[6, 4, 2], [5, 3, 1]]),
        (8, [[5, 3, 1], [6, 4, 2]]),
    ];
    for (v, m) in stored {
        let img = luma(2, 3, &[&m[0], &m[1], &m[2]]);
        let out = Orientation::from_u16(v).unwrap().apply(&img);
        assert_eq!((out.width(), out.height()), (2, 3), "orientation {v}");
        assert_eq!(raw(&out), scene, "orientation {v}");
    }
    for (v, m) in stored_swapped {
        let img = luma(3, 2, &[&m[0], &m[1]]);
        let out = Orientation::from_u16(v).unwrap().apply(&img);
        assert_eq!((out.width(), out.height()), (2, 3), "orientation {v}");
        assert_eq!(raw(&out), scene, "orientation {v}");
    }
}

#[test]
fn apply_is_lossless_for_pixels() {
    // Applying an orientation then its inverse restores pixels exactly
    // (all transforms are lossless pixel shuffles).
    let img = noise_image(17, 9);
    let pairs = [
        (Orientation::Rotate90Cw, Orientation::Rotate270Cw),
        (Orientation::Transpose, Orientation::Transpose),
        (Orientation::MirrorHorizontal, Orientation::MirrorHorizontal),
        (Orientation::AntiTranspose, Orientation::AntiTranspose),
    ];
    for (a, b) in pairs {
        let out = b.apply(&a.apply(&img));
        assert_eq!(out.pixels(), img.pixels());
    }
}

#[test]
fn app1_segment_none_for_plain_jpeg() {
    assert_eq!(app1_segment(&tiny_jpeg().unwrap()).unwrap(), None);
}

#[test]
fn app1_segment_roundtrip_preserves_orientation() {
    let src = jpeg_with_orientation(6);
    let app1 = app1_segment(&src).unwrap().expect("exif present");
    // Simulate the strip-then-preserve flow: pipeline output has no EXIF;
    // splicing the APP1 back restores it for the *opt-in* case.
    let stripped = tiny_jpeg().unwrap();
    let mut out = Vec::new();
    out.extend_from_slice(&stripped[..2]);
    out.extend_from_slice(&app1);
    out.extend_from_slice(&stripped[2..]);
    assert_eq!(
        read_orientation(&out).unwrap(),
        Some(Orientation::Rotate90Cw)
    );
}

#[test]
fn app1_segment_frames_the_exif_block() {
    let src = jpeg_with_orientation(3);
    let app1 = app1_segment(&src).unwrap().unwrap();
    // Marker, big-endian length covering itself and the payload, then the
    // "Exif\0\0" header and the TIFF block.
    assert_eq!(&app1[..2], &[0xFF, 0xE1]);
    let len = u16::from_be_bytes([app1[2], app1[3]]) as usize;
    assert_eq!(len, app1.len() - 2);
    assert_eq!(&app1[4..10], b"Exif\0\0");
    assert_eq!(&app1[10..12], b"MM");
}

#[test]
fn every_orientation_inverse_restores_pixels() {
    let img = noise_image(5, 3);
    let inverse = |o: Orientation| match o {
        Orientation::Rotate90Cw => Orientation::Rotate270Cw,
        Orientation::Rotate270Cw => Orientation::Rotate90Cw,
        other => other,
    };
    for v in 1u16..=8 {
        let o = Orientation::from_u16(v).unwrap();
        let back = inverse(o).apply(&o.apply(&img));
        assert_eq!((back.width(), back.height()), (5, 3), "orientation {v}");
        assert_eq!(back.pixels(), img.pixels(), "orientation {v}");
    }
}

#[test]
fn apply_swaps_dimensions_exactly_when_told() {
    let img = noise_image(7, 4);
    for v in 1u16..=8 {
        let o = Orientation::from_u16(v).unwrap();
        let out = o.apply(&img);
        if o.swaps_dimensions() {
            assert_eq!((out.width(), out.height()), (4, 7));
        } else {
            assert_eq!((out.width(), out.height()), (7, 4));
        }
    }
}

fn field(display: &str, value: ExifValue) -> Option<ExifField> {
    Some(ExifField { display: display.to_owned(), value })
}

fn no_fields() -> ExifFields {
    ExifFields { make: None, model: None, date_taken: None, gps_lat: None, gps_lon: None, orientation: None }
}

#[test]
fn collect_exif_of_nothing_is_none() {
    assert_eq!(collect_exif(no_fields()), None);
}

#[test]
fn collect_exif_keeps_text_gps_and_orientation_byte() {
    let fields = ExifFields {
        make: field("Canon", ExifValue::Other),
        date_taken: field("2024-01-02 03:04:05", ExifValue::Other),
        gps_lat: field("", ExifValue::Rational(vec![(52, 1), (30, 1), (1234, 100), (9, 9)])),
        gps_lon: field("", ExifValue::Rational(vec![(13, 1), (24, 1)])),
        orientation: field("", ExifValue::Short(vec![262, 1])),
        ..no_fields()
    };
    let data = collect_exif(fields).unwrap();
    assert_eq!(data.camera_make.as_deref(), Some("Canon"));
    assert_eq!(data.camera_model, None);
    assert_eq!(data.date_taken.as_deref(), Some("2024-01-02 03:04:05"));
    assert_eq!(
        data.gps_lat,
        Some(GpsCoordinate {
            degrees: Rational { num: 52, denom: 1 },
            minutes: Rational { num: 30, denom: 1 },
            seconds: Rational { num: 1234, denom: 100 },
        })
    );
    // Fewer than three rationals carry no coordinate.
    assert_eq!(data.gps_lon, None);
    // The raw tag value is kept as its low byte.
    assert_eq!(data.orientation, Some(6));
}

#[test]
fn collect_exif_with_only_an_unusable_field_is_none() {
    let fields = ExifFields { gps_lat: field("", ExifValue::Short(vec![1])), ..no_fields() };
    assert_eq!(collect_exif(fields), None);
}

#[test]
fn orientation_field_decodes_the_first_short() {
    assert_eq!(orientation_field(field("", ExifValue::Short(vec![3, 1]))), Some(Orientation::Rotate180));
    assert_eq!(orientation_field(field("", ExifValue::Short(vec![9]))), None);
    assert_eq!(orientation_field(field("", ExifValue::Short(vec![]))), None);
    assert_eq!(orientation_field(field("", ExifValue::Rational(vec![(6, 1)]))), None);
    assert_eq!(orientation_field(None), None);
}

#[test]
fn app1_from_tiff_frames_exactly() {
    let seg = app1_from_tiff(b"MM\x00\x2a").unwrap();
    assert_eq!(
        seg,
        vec![0xFF, 0xE1, 0x00, 0x0C, b'E', b'x', b'i', b'f', 0, 0, b'M', b'M', 0x00, 0x2A]
    );
    let largest = vec![0u8; MAX_APP1_TIFF];
    let seg = app1_from_tiff(&largest).unwrap();
    assert_eq!(&seg[2..4], &[0xFF, 0xFF]);
    assert_eq!(seg.len(), MAX_APP1_TIFF + 10);
    let too_big = vec![0u8; MAX_APP1_TIFF + 1];
    assert!(matches!(app1_from_tiff(&too_big), Err(MediaError::Exif(_))));
}

#[test]
fn read_exif_garbage_is_an_exif_error() {
    assert!(matches!(read_exif(b"garbage"), Err(MediaError::Exif(_))));
    assert!(matches!(read_orientation(b"junk"), Err(MediaError::Exif(_))));
}
