use media_kit::bitmap::{decode, Bitmap, Pixels};
use media_kit::encode::{encode, OutFormat};
use media_kit::exif::{app1_segment, read_exif, read_orientation, Orientation};
use media_kit::meta::{dimensions, Limits};
use media_kit::pipeline::{Pipeline, Step};
use media_kit::resize::{Filter, Fit};
use media_kit::sniff::{sniff, Format};
use media_kit::testutil::{noise_image, tiny_jpeg, tiny_png};
use media_kit::MediaError;

/// A run without overlay ops: load, every op in order, encode.
fn run(p: &Pipeline, bytes: &[u8]) -> Result<Vec<u8>, MediaError> {
    let mut img = p.load(bytes)?;
    for i in 0..p.op_count() {
        assert!(p.can_step(&img, i));
        img = match p.step(&img, i) {
            Step::Image(next) => next,
            Step::Blend { .. } => panic!("no overlay ops in these runs"),
        };
    }
    p.finish(&img)
}

fn orientation_app1(v: u16) -> Vec<u8> {
    let mut tiff = vec![b'M', b'M', 0x00, 0x2A, 0x00, 0x00, 0x00, 0x08];
    tiff.extend_from_slice(&[0x00, 0x01]);
    tiff.extend_from_slice(&[0x01, 0x12, 0x00, 0x03, 0x00, 0x00, 0x00, 0x01]);
    tiff.extend_from_slice(&v.to_be_bytes());
    tiff.extend_from_slice(&[0x00, 0x00]);
    tiff.extend_from_slice(&[0x00, 0x00, 0x00, 0x00]);
    let mut payload = b"Exif\0\0".to_vec();
    payload.extend_from_slice(&tiff);
    let len = (payload.len() + 2) as u16;
    let mut seg = vec![0xFF, 0xE1];
    seg.extend_from_slice(&len.to_be_bytes());
    seg.extend_from_slice(&payload);
    seg
}

fn jpeg_with_orientation(v: u16) -> Vec<u8> {
    let jpg = tiny_jpeg().unwrap();
    let mut out = jpg[..2].to_vec();
    out.extend_from_slice(&orientation_app1(v));
    out.extend_from_slice(&jpg[2..]);
    out
}

fn splice_app1(jpg: &[u8], app1: &[u8]) -> Vec<u8> {
    let mut tagged = Vec::new();
    tagged.extend_from_slice(&jpg[..2]);
    tagged.extend_from_slice(app1);
    tagged.extend_from_slice(&jpg[2..]);
    tagged
}

#[test]
fn thumb_to_webp_end_to_end() {
    let jpg = tiny_jpeg().unwrap();
    let p = Pipeline::new(OutFormat::WebP(None))
        .resize(Fit::MaxSide(4), Filter::Lanczos3)
        .strip_exif();
    let out = run(&p, &jpg).unwrap();
    assert_eq!(sniff(&out), Some(Format::WebP));
    let img = image::load_from_memory(&out).unwrap();
    assert_eq!((img.width(), img.height()), (4, 4));
}

#[test]
fn jpeg_output_with_quality() {
    let png = tiny_png(16, 16).unwrap();
    let p = Pipeline::new(OutFormat::Jpeg(90)).resize(Fit::MaxSide(8), Filter::CatmullRom);
    let out = run(&p, &png).unwrap();
    assert_eq!(sniff(&out), Some(Format::Jpeg));
}

#[test]
fn rejects_garbage() {
    let err = run(&Pipeline::new(OutFormat::Png), b"garbage").unwrap_err();
    assert!(matches!(err, MediaError::UnsupportedFormat(_)));
}

#[test]
fn rejects_oversize() {
    let jpg = tiny_jpeg().unwrap();
    let p = Pipeline::new(OutFormat::Png).limits(Limits::new().max_bytes(4));
    let err = run(&p, &jpg).unwrap_err();
    assert!(matches!(err, MediaError::TooLarge { .. }));
}

#[test]
fn overlay_op_is_handed_to_the_caller() {
    let jpg = tiny_jpeg().unwrap();
    let over = Bitmap::new(2, 2, Pixels::Rgba8(vec![0; 16])).unwrap();
    let p = Pipeline::new(OutFormat::Png).overlay(over, 3, -1, 0.5f32.to_bits());
    let img = p.load(&jpg).unwrap();
    match p.step(&img, 0) {
        Step::Blend { over, x, y, opacity } => {
            assert_eq!((over.width(), over.height()), (2, 2));
            assert_eq!((x, y), (3, -1));
            assert_eq!(f32::from_bits(opacity), 0.5);
        }
        Step::Image(_) => panic!("an overlay op must come back as a blend"),
    }
}

#[test]
fn debug_hides_overlay_pixels() {
    let p = Pipeline::new(OutFormat::Png)
        .overlay(Bitmap::new(1, 1, Pixels::Rgba8(vec![0; 4])).unwrap(), 0, 0, 0.5f32.to_bits())
        .strip_exif();
    let dbg = format!("{p:?}");
    assert!(dbg.contains("Overlay"));
    assert!(dbg.contains("StripExif"));
}

#[test]
fn auto_orient_uprights_rotated_input() {
    // Non-square sideways scene: 3 wide x 2 tall upright, stored 2x3 with
    // EXIF orientation 6 (view by rotating 90 degrees clockwise).
    let scene = Bitmap::new(3, 2, Pixels::L8(vec![1, 2, 3, 4, 5, 6])).unwrap();
    let sideways = scene.rotate270();
    let jpg_bytes = encode(&sideways, &OutFormat::Jpeg(90)).unwrap();
    let app1 = app1_segment(&jpeg_with_orientation(6)).unwrap().unwrap();
    let tagged = splice_app1(&jpg_bytes, &app1);

    // With auto-orient the pixels come out upright (matching the scene
    // modulo JPEG loss), 2 tall x 3 wide.
    let out = run(&Pipeline::new(OutFormat::Png).auto_orient(true), &tagged).unwrap();
    let img = decode(&out).unwrap();
    assert_eq!((img.width(), img.height()), (3, 2));
    for y in 0..2u32 {
        for x in 0..3u32 {
            let want = (y * 3 + x + 1) as i32;
            let got = img.sample(x, y, 0) as i32;
            assert!((got - want).abs() <= 8, "({x},{y}): got {got}, want {want}");
        }
    }

    // Without auto-orient the stored (sideways) pixels pass through.
    let out_off = run(&Pipeline::new(OutFormat::Png), &tagged).unwrap();
    let img_off = image::load_from_memory(&out_off).unwrap();
    assert_eq!((img_off.width(), img_off.height()), (2, 3));
}

#[test]
fn auto_orient_non_square_swap() {
    let wide = noise_image(16, 8);
    let jpg_bytes = encode(&wide, &OutFormat::Jpeg(90)).unwrap();
    let app1 = app1_segment(&jpeg_with_orientation(8)).unwrap().unwrap();
    let tagged = splice_app1(&jpg_bytes, &app1);
    assert_eq!(read_orientation(&tagged).unwrap(), Some(Orientation::Rotate270Cw));

    let out = run(&Pipeline::new(OutFormat::Png).auto_orient(true), &tagged).unwrap();
    let img = image::load_from_memory(&out).unwrap();
    assert_eq!((img.width(), img.height()), (8, 16), "dims must swap");
    assert_eq!(read_exif(&out).unwrap(), None, "stripped");

    // Without auto-orient the dims are untouched.
    let out_off = run(&Pipeline::new(OutFormat::Png), &tagged).unwrap();
    let img_off = image::load_from_memory(&out_off).unwrap();
    assert_eq!((img_off.width(), img_off.height()), (16, 8));
}

#[test]
fn auto_orient_without_exif_is_noop() {
    let jpg = tiny_jpeg().unwrap();
    let a = run(&Pipeline::new(OutFormat::Png).auto_orient(true), &jpg).unwrap();
    let b = run(&Pipeline::new(OutFormat::Png), &jpg).unwrap();
    assert_eq!(a, b);
}

#[test]
fn preserve_exif_opt_in_after_strip() {
    let src = jpeg_with_orientation(3);
    let out = run(&Pipeline::new(OutFormat::Jpeg(90)).auto_orient(true), &src).unwrap();
    // Default privacy: nothing survives a re-encode.
    assert_eq!(read_exif(&out).unwrap(), None);

    // Opt-in: splice the original APP1 back.
    let app1 = app1_segment(&src).unwrap().unwrap();
    let preserved = splice_app1(&out, &app1);
    let data = read_exif(&preserved).unwrap().unwrap();
    assert_eq!(data.orientation, Some(3));
}

#[test]
fn pipeline_thumb_to_webp_end_to_end() {
    let jpg = tiny_jpeg().unwrap();
    let p = Pipeline::new(OutFormat::WebP(None))
        .resize(Fit::MaxSide(6), Filter::Lanczos3)
        .strip_exif();
    let out = run(&p, &jpg).unwrap();
    assert_eq!(sniff(&out), Some(Format::WebP));
    let dims = dimensions(&out).unwrap();
    assert!(dims.0 <= 6 && dims.1 <= 6);
}

#[test]
fn pipeline_rejects_bad_input() {
    assert!(run(&Pipeline::new(OutFormat::Png), b"junk").is_err());
    let jpg = tiny_jpeg().unwrap();
    let p = Pipeline::new(OutFormat::Png).limits(Limits::new().max_bytes(2));
    assert!(run(&p, &jpg).is_err());
}

#[test]
fn pipeline_builders_record_ops_and_format() {
    let p = Pipeline::new(OutFormat::Gif)
        .resize(Fit::Width(10), Filter::Nearest)
        .strip_exif()
        .resize(Fit::Height(5), Filter::Gaussian);
    assert_eq!(p.op_count(), 3);
    assert_eq!(p.out_format(), OutFormat::Gif);
    assert_eq!(Pipeline::new(OutFormat::Png).op_count(), 0);
}

#[test]
fn load_rejects_oversize_dimensions() {
    let png = tiny_png(64, 32).unwrap();
    let p = Pipeline::new(OutFormat::Png).limits(Limits::new().max_width(10));
    assert!(matches!(
        p.load(&png),
        Err(MediaError::DimensionsTooLarge { max: 10, got: 64 })
    ));
}

#[test]
fn strip_step_passes_the_image_through() {
    let p = Pipeline::new(OutFormat::Png).strip_exif();
    let img = noise_image(4, 3);
    match p.step(&img, 0) {
        Step::Image(out) => assert_eq!(out.pixels(), img.pixels()),
        Step::Blend { .. } => panic!("the strip marker is not a blend"),
    }
}
