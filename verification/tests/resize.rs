use media_kit::bitmap::{decode, Bitmap, PixelKind, Pixels};
use media_kit::resize::{
    fast_resize_available, plan, resize, resize_exact_backend, resize_plain_exact, resize_with,
    Filter, Fit, ResizePlan,
};
use media_kit::testutil::{noise_image, tiny_jpeg};

fn img(w: u32, h: u32) -> Bitmap {
    let n = (w * h) as usize;
    let mut px = Vec::with_capacity(n * 4);
    for _ in 0..n {
        px.extend_from_slice(&[255, 0, 0, 255]);
    }
    Bitmap::new(w, h, Pixels::Rgba8(px)).unwrap()
}

fn dims(b: &Bitmap) -> (u32, u32) {
    (b.width(), b.height())
}

#[test]
fn max_side_scales_landscape() {
    let out = resize(&img(800, 400), &Fit::MaxSide(200), Filter::Triangle);
    assert_eq!(dims(&out), (200, 100));
}

#[test]
fn max_side_scales_portrait() {
    let out = resize(&img(400, 800), &Fit::MaxSide(200), Filter::Triangle);
    assert_eq!(dims(&out), (100, 200));
}

#[test]
fn max_side_skips_smaller_by_default() {
    let src = img(100, 50);
    let out = resize(&src, &Fit::MaxSide(200), Filter::Triangle);
    assert_eq!(dims(&out), (100, 50));
}

#[test]
fn max_side_upscales_when_allowed() {
    let out = resize_with(&img(100, 50), &Fit::MaxSide(200), Filter::Triangle, true);
    assert_eq!(dims(&out), (200, 100));
}

#[test]
fn width_skips_smaller_by_default() {
    let src = img(100, 50);
    let out = resize(&src, &Fit::Width(800), Filter::Triangle);
    assert_eq!(dims(&out), (100, 50));
}

#[test]
fn width_scales_when_larger() {
    let out = resize(&img(1600, 800), &Fit::Width(800), Filter::Triangle);
    assert_eq!(dims(&out), (800, 400));
}

#[test]
fn width_upscales_when_allowed() {
    let out = resize_with(&img(100, 50), &Fit::Width(800), Filter::Triangle, true);
    assert_eq!(dims(&out), (800, 400));
}

#[test]
fn height_fit() {
    let out = resize(&img(800, 400), &Fit::Height(100), Filter::Triangle);
    assert_eq!(dims(&out), (200, 100));
}

#[test]
fn cover_is_exactly_square() {
    let src = img(1000, 400);
    let out = resize(&src, &Fit::Cover(64, 64), Filter::Triangle);
    assert_eq!(dims(&out), (64, 64));
}

#[test]
fn cover_wide_source() {
    // 2000x500 into 100x100 -> center 500x500 crop scaled to 100x100.
    let out = resize(&img(2000, 500), &Fit::Cover(100, 100), Filter::Triangle);
    assert_eq!(dims(&out), (100, 100));
}

#[test]
fn cover_taller_than_target() {
    let out = resize(&img(400, 1200), &Fit::Cover(50, 50), Filter::Triangle);
    assert_eq!(dims(&out), (50, 50));
}

#[test]
fn cover_always_resizes_even_when_smaller() {
    let out = resize(&img(10, 10), &Fit::Cover(64, 64), Filter::Triangle);
    assert_eq!(dims(&out), (64, 64));
}

#[test]
fn exact_stretches() {
    let out = resize(&img(800, 400), &Fit::Exact(100, 200), Filter::Triangle);
    assert_eq!(dims(&out), (100, 200));
}

#[test]
fn tiny_source_never_collapses_to_zero() {
    let out = resize_with(&img(1, 1), &Fit::MaxSide(1), Filter::Triangle, true);
    assert_eq!(dims(&out), (1, 1));
}

#[test]
fn filter_mapping_compiles_for_all_variants() {
    for f in [
        Filter::Nearest,
        Filter::Triangle,
        Filter::CatmullRom,
        Filter::Gaussian,
        Filter::Lanczos3,
    ] {
        let out = resize(&img(100, 100), &Fit::MaxSide(50), f);
        assert_eq!(out.width(), 50);
    }
}

#[test]
fn resize_roundtrip_via_jpeg_source() {
    let jpg = tiny_jpeg().unwrap();
    let decoded = decode(&jpg).unwrap();
    let out = resize(&decoded, &Fit::Width(4), Filter::Lanczos3);
    assert_eq!(out.width(), 4);
}

#[test]
fn fast_backend_matches_plain_dims() {
    let src = noise_image(1000, 600);
    for (w, h) in [(200u32, 150u32), (320, 192), (30, 90), (600, 360)] {
        let plain = resize_plain_exact(&src, w, h, Filter::Lanczos3);
        let out = resize_exact_backend(&src, w, h, Filter::Lanczos3);
        assert_eq!(dims(&out), dims(&plain));
    }
}

fn rgb_sum_diff(a: &Bitmap, b: &Bitmap) -> u64 {
    let mut diff = 0u64;
    for y in 0..a.height() {
        for x in 0..a.width() {
            for c in 0..3 {
                diff += u64::from(a.sample(x, y, c).abs_diff(b.sample(x, y, c)));
            }
        }
    }
    diff
}

#[test]
fn fast_vs_plain_within_tolerance() {
    let src = noise_image(512, 384);
    for filter in [Filter::Triangle, Filter::CatmullRom, Filter::Lanczos3] {
        let plain = resize_plain_exact(&src, 200, 150, filter);
        let fast = resize_exact_backend(&src, 200, 150, filter);
        assert_eq!(dims(&fast), (200, 150));
        let diff = rgb_sum_diff(&fast, &plain);
        let mean = diff as f64 / f64::from(200 * 150 * 3);
        assert!(mean <= 2.0, "{filter:?}: mean abs diff {mean:.3} > 2.0");
    }
}

#[test]
fn fast_preserves_colorspace() {
    // Luma8 stays Luma8 through the fast path.
    let mut px = Vec::new();
    for y in 0..48u32 {
        for x in 0..64u32 {
            px.push(((x * 3 + y) % 256) as u8);
        }
    }
    let gray = Bitmap::new(64, 48, Pixels::L8(px)).unwrap();
    let out = resize(&gray, &Fit::Width(20), Filter::CatmullRom);
    assert_eq!(out.kind(), PixelKind::L8);
    assert_eq!(out.width(), 20);

    let rgba = noise_image(40, 30);
    let out = resize(&rgba, &Fit::Width(10), Filter::Lanczos3);
    assert_eq!(out.kind(), PixelKind::Rgba8);
}

#[test]
fn fast_upscale_exact_works() {
    let src = noise_image(16, 16);
    let out = resize_with(&src, &Fit::Exact(64, 64), Filter::Lanczos3, false);
    assert_eq!(dims(&out), (64, 64));
}

#[test]
fn fast_filter_mapping_compiles_for_all_variants() {
    let src = noise_image(100, 100);
    for f in [
        Filter::Nearest,
        Filter::Triangle,
        Filter::CatmullRom,
        Filter::Gaussian,
        Filter::Lanczos3,
    ] {
        let out = resize_exact_backend(&src, 50, 50, f);
        assert_eq!(dims(&out), (50, 50));
    }
}

#[test]
fn resize_dimensions_match_fit() {
    let src = noise_image(1000, 500);
    for (fit, want) in [
        (Fit::Width(200), (200, 100)),
        (Fit::Height(250), (500, 250)),
        (Fit::MaxSide(100), (100, 50)),
        (Fit::Exact(40, 60), (40, 60)),
    ] {
        let out = resize(&src, &fit, Filter::Lanczos3);
        assert_eq!(dims(&out), want, "fit {fit:?} produced wrong dims");
    }
}

#[test]
fn cover_crop_is_exactly_square() {
    let src = noise_image(1024, 300);
    let out = resize(&src, &Fit::Cover(96, 96), Filter::Triangle);
    assert_eq!(out.width(), out.height());
    assert_eq!(out.width(), 96);
}

#[test]
fn fast_backend_is_available() {
    assert!(fast_resize_available());
}

#[test]
fn plan_rounds_to_nearest() {
    // 1000x333 to width 100: 33.3 -> 33.
    assert_eq!(plan(1000, 333, Fit::Width(100), false), ResizePlan::Resample(100, 33));
    // 1000x335 to width 100: 33.5 -> 34 (half rounds away from zero).
    assert_eq!(plan(1000, 335, Fit::Width(100), false), ResizePlan::Resample(100, 34));
    // 3x1 to max side 2: 0.666 -> 1.
    assert_eq!(plan(3, 1, Fit::MaxSide(2), false), ResizePlan::Resample(2, 1));
}

#[test]
fn plan_never_collapses_to_zero() {
    assert_eq!(plan(1000, 1, Fit::Width(10), false), ResizePlan::Resample(10, 1));
    assert_eq!(plan(1, 1000, Fit::Height(10), false), ResizePlan::Resample(1, 10));
}

#[test]
fn plan_keeps_when_not_upscaling() {
    assert_eq!(plan(100, 50, Fit::MaxSide(200), false), ResizePlan::Keep);
    assert_eq!(plan(100, 50, Fit::Width(100), false), ResizePlan::Keep);
    assert_eq!(plan(100, 50, Fit::Height(800), false), ResizePlan::Keep);
}

#[test]
fn plan_cover_centers_the_crop() {
    // 2000x500 into 100x100: center 500x500 crop at x = 750.
    match plan(2000, 500, Fit::Cover(100, 100), false) {
        ResizePlan::Cover { x, y, cw, ch, tw, th } => {
            assert_eq!((x, y, cw, ch, tw, th), (750, 0, 500, 500, 100, 100));
        }
        other => panic!("expected a cover plan, got {other:?}"),
    }
}

#[test]
fn max_side_result_is_idempotent() {
    let once = resize(&noise_image(300, 120), &Fit::MaxSide(100), Filter::Triangle);
    let twice = resize(&once, &Fit::MaxSide(100), Filter::Triangle);
    assert_eq!(dims(&once), (100, 40));
    assert_eq!(dims(&twice), dims(&once));
    assert_eq!(twice.pixels(), once.pixels());
}
