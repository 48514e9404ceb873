use media_kit::bitmap::{decode, Bitmap, Pixels};
use media_kit::encode::{encode, OutFormat};
use media_kit::sniff::{sniff, Format};
use media_kit::testutil::noise_image;

fn img(w: u32, h: u32) -> Bitmap {
    let n = (w * h) as usize;
    let mut px = Vec::with_capacity(n * 4);
    for _ in 0..n {
        px.extend_from_slice(&[10, 200, 30, 255]);
    }
    Bitmap::new(w, h, Pixels::Rgba8(px)).unwrap()
}

#[test]
fn jpeg_quality_roundtrip() {
    let bytes = encode(&img(8, 8), &OutFormat::Jpeg(80)).unwrap();
    assert_eq!(sniff(&bytes), Some(Format::Jpeg));
    let back = image::load_from_memory(&bytes).unwrap();
    assert_eq!((back.width(), back.height()), (8, 8));
}

#[test]
fn png_roundtrip() {
    let bytes = encode(&img(4, 4), &OutFormat::Png).unwrap();
    assert_eq!(sniff(&bytes), Some(Format::Png));
}

#[test]
fn gif_roundtrip() {
    let bytes = encode(&img(4, 4), &OutFormat::Gif).unwrap();
    assert_eq!(sniff(&bytes), Some(Format::Gif));
}

#[test]
fn webp_roundtrip() {
    let bytes = encode(&img(4, 4), &OutFormat::WebP(None)).unwrap();
    assert_eq!(sniff(&bytes), Some(Format::WebP));
}

#[test]
fn webp_lossy_decodes() {
    // The quality is carried but the lossless encoder is used; the output
    // must decode either way.
    let bytes = encode(&noise_image(16, 16), &OutFormat::WebP(Some(75.0f32.to_bits()))).unwrap();
    let back = image::load_from_memory_with_format(&bytes, image::ImageFormat::WebP).unwrap();
    assert_eq!((back.width(), back.height()), (16, 16));
}

#[test]
fn extensions_and_mimes() {
    assert_eq!(OutFormat::Jpeg(90).extension(), "jpg");
    assert_eq!(OutFormat::Png.mime(), "image/png");
    assert_eq!(OutFormat::WebP(None).mime(), "image/webp");
}

#[test]
fn jpeg_quality_changes_output() {
    let noisy = noise_image(64, 64);
    let hi = encode(&noisy, &OutFormat::Jpeg(95)).unwrap();
    let lo = encode(&noisy, &OutFormat::Jpeg(10)).unwrap();
    assert!(hi.len() > lo.len(), "hi {} vs lo {}", hi.len(), lo.len());
}

#[test]
fn roundtrip_jpeg() {
    let src = noise_image(24, 18);
    let bytes = encode(&src, &OutFormat::Jpeg(85)).unwrap();
    assert_eq!(sniff(&bytes), Some(Format::Jpeg));
    let back = image::load_from_memory(&bytes).unwrap();
    assert_eq!((back.width(), back.height()), (24, 18));
}

#[test]
fn roundtrip_png() {
    let src = noise_image(24, 18);
    let bytes = encode(&src, &OutFormat::Png).unwrap();
    assert_eq!(sniff(&bytes), Some(Format::Png));
    let back = image::load_from_memory(&bytes).unwrap();
    assert_eq!((back.width(), back.height()), (24, 18));
}

#[test]
fn roundtrip_gif() {
    let src = noise_image(24, 18);
    let bytes = encode(&src, &OutFormat::Gif).unwrap();
    assert_eq!(sniff(&bytes), Some(Format::Gif));
    let back = image::load_from_memory(&bytes).unwrap();
    assert_eq!((back.width(), back.height()), (24, 18));
}

#[test]
fn roundtrip_webp() {
    let src = noise_image(24, 18);
    let bytes = encode(&src, &OutFormat::WebP(None)).unwrap();
    assert_eq!(sniff(&bytes), Some(Format::WebP));
    let back = image::load_from_memory(&bytes).unwrap();
    assert_eq!((back.width(), back.height()), (24, 18));
}

#[test]
fn jpeg_quality_scales_size() {
    let src = noise_image(128, 128);
    let hi = encode(&src, &OutFormat::Jpeg(95)).unwrap().len();
    let lo = encode(&src, &OutFormat::Jpeg(20)).unwrap().len();
    assert!(hi > lo);
}

#[test]
fn lossless_formats_roundtrip_pixels_exactly() {
    let src = noise_image(12, 7);
    for fmt in [OutFormat::Png, OutFormat::WebP(None)] {
        let bytes = encode(&src, &fmt).unwrap();
        let back = decode(&bytes).unwrap().to_rgba8();
        assert_eq!(back.pixels(), src.pixels(), "{fmt:?}");
    }
}

#[test]
fn every_format_sniffs_as_itself_with_matching_extension() {
    let src = noise_image(6, 5);
    for (fmt, want) in [
        (OutFormat::Jpeg(70), Format::Jpeg),
        (OutFormat::Png, Format::Png),
        (OutFormat::Gif, Format::Gif),
        (OutFormat::WebP(None), Format::WebP),
    ] {
        let bytes = encode(&src, &fmt).unwrap();
        assert_eq!(sniff(&bytes), Some(want));
        assert_eq!(fmt.extension(), want.extension());
    }
}

#[test]
fn all_mimes() {
    assert_eq!(OutFormat::Jpeg(1).mime(), "image/jpeg");
    assert_eq!(OutFormat::Gif.mime(), "image/gif");
    assert_eq!(OutFormat::Gif.extension(), "gif");
    assert_eq!(OutFormat::Png.extension(), "png");
    assert_eq!(OutFormat::WebP(Some(1)).extension(), "webp");
}

#[test]
fn empty_png_is_an_encode_error() {
    let empty = Bitmap::new(0, 0, Pixels::Rgba8(Vec::new())).unwrap();
    assert!(matches!(
        encode(&empty, &OutFormat::Png),
        Err(media_kit::MediaError::Encode(_))
    ));
}

#[test]
fn garbage_is_a_decode_error() {
    assert!(matches!(decode(b"not an image"), Err(media_kit::MediaError::Decode(_))));
}
