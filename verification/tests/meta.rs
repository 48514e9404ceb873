use media_kit::meta::{dimensions, dimensions_verdict, enforce_limits, Limits};
use media_kit::testutil::{tiny_jpeg, tiny_png};
use media_kit::sniff::Format;
use media_kit::MediaError;

#[test]
fn defaults() {
    let l = Limits::default();
    assert_eq!(l.max_bytes, 10 * 1024 * 1024);
    assert_eq!(l.max_width, 8192);
    assert_eq!(l.max_height, 8192);
}

#[test]
fn builder() {
    let l = Limits::new().max_bytes(1024).max_width(100).max_height(200);
    assert_eq!((l.max_bytes, l.max_width, l.max_height), (1024, 100, 200));
}

#[test]
fn dimensions_of_png() {
    let png = tiny_png(64, 32).unwrap();
    assert_eq!(dimensions(&png), Some((64, 32)));
}

#[test]
fn dimensions_of_jpeg() {
    let jpg = tiny_jpeg().unwrap();
    assert_eq!(dimensions(&jpg), Some((8, 8)));
}

#[test]
fn dimensions_garbage_is_none() {
    assert_eq!(dimensions(b"garbage"), None);
    assert_eq!(dimensions(&[]), None);
}

#[test]
fn accept_within_limits() {
    let jpg = tiny_jpeg().unwrap();
    assert!(enforce_limits(&jpg, &Limits::default()).is_ok());
}

#[test]
fn reject_oversize_bytes() {
    let jpg = tiny_jpeg().unwrap();
    let err = enforce_limits(&jpg, &Limits::new().max_bytes(4)).unwrap_err();
    match err {
        MediaError::TooLarge { got, .. } => assert_eq!(got, jpg.len() as u64),
        other => panic!("wrong error: {other:?}"),
    }
}

#[test]
fn reject_oversize_dims() {
    let png = tiny_png(64, 32).unwrap();
    let err = enforce_limits(&png, &Limits::new().max_width(16)).unwrap_err();
    assert!(matches!(
        err,
        MediaError::DimensionsTooLarge { max: 16, got: 64 }
    ));
    let err = enforce_limits(&png, &Limits::new().max_height(8)).unwrap_err();
    assert!(matches!(
        err,
        MediaError::DimensionsTooLarge { max: 8, got: 32 }
    ));
}

#[test]
fn reject_unknown_header() {
    let err = enforce_limits(b"garbage", &Limits::default()).unwrap_err();
    assert!(matches!(err, MediaError::UnsupportedFormat(_)));
}

#[test]
fn enforce_limits_rejects_11mib() {
    let limits = Limits::new().max_bytes(10 * 1024 * 1024);
    // 11 MiB buffer of junk — must fail on size before even sniffing.
    let big = vec![0u8; 11 * 1024 * 1024];
    let err = enforce_limits(&big, &limits).unwrap_err();
    match err {
        MediaError::TooLarge { limit_bytes, got } => {
            assert_eq!(limit_bytes, 10 * 1024 * 1024);
            assert_eq!(got, 11 * 1024 * 1024);
        }
        other => panic!("wrong error: {other:?}"),
    }
}

#[test]
fn dimensions_header_only_works_for_all_enabled() {
    assert_eq!(dimensions(&tiny_jpeg().unwrap()), Some((8, 8)));
    assert_eq!(dimensions(&tiny_png(9, 5).unwrap()), Some((9, 5)));
}

#[test]
fn limits_at_the_exact_bound_are_accepted() {
    let png = tiny_png(64, 32).unwrap();
    let exact = Limits::new()
        .max_bytes(png.len() as u64)
        .max_width(64)
        .max_height(32);
    assert!(enforce_limits(&png, &exact).is_ok());
    let one_short = Limits::new().max_bytes(png.len() as u64 - 1);
    assert!(matches!(
        enforce_limits(&png, &one_short),
        Err(MediaError::TooLarge { .. })
    ));
}

#[test]
fn width_is_checked_before_height() {
    let png = tiny_png(64, 32).unwrap();
    let err = enforce_limits(&png, &Limits::new().max_width(10).max_height(10)).unwrap_err();
    assert!(matches!(
        err,
        MediaError::DimensionsTooLarge { max: 10, got: 64 }
    ));
}

#[test]
fn limits_new_equals_default() {
    assert_eq!(Limits::new(), Limits::default());
}

#[test]
fn dimensions_verdict_judges_in_order() {
    let l = Limits::new().max_width(100).max_height(50);
    assert!(matches!(dimensions_verdict(None, None, &l), Err(MediaError::UnsupportedFormat(_))));
    assert!(matches!(dimensions_verdict(Some(Format::Png), None, &l), Err(MediaError::Decode(_))));
    assert!(dimensions_verdict(Some(Format::Png), Some((100, 50)), &l).is_ok());
    assert!(matches!(
        dimensions_verdict(Some(Format::Jpeg), Some((101, 500)), &l),
        Err(MediaError::DimensionsTooLarge { max: 100, got: 101 })
    ));
    assert!(matches!(
        dimensions_verdict(None, Some((1, 51)), &l),
        Err(MediaError::DimensionsTooLarge { max: 50, got: 51 })
    ));
}

#[test]
fn recognized_format_with_unreadable_header_is_a_decode_error() {
    let err = enforce_limits(&[0xFF, 0xD8, 0xFF], &Limits::default()).unwrap_err();
    assert!(matches!(err, MediaError::Decode(_)));
    let err = enforce_limits(b"%PDF-1.7 ...", &Limits::default()).unwrap_err();
    assert!(matches!(err, MediaError::Decode(_)));
}
