use media_kit::bitmap::{Bitmap, PixelKind, Pixels};
use media_kit::composite::{
    flatten_alpha, overlay_flattened, paste_opaque, paste_window, resized_overlay, tile_grid,
    tile_origin,
    PasteWindow,
};
use media_kit::resize::{Filter, Fit};

fn solid(w: u32, h: u32, c: [u8; 4]) -> Bitmap {
    let n = (w * h) as usize;
    let mut px = Vec::with_capacity(n * 4);
    for _ in 0..n {
        px.extend_from_slice(&c);
    }
    Bitmap::new(w, h, Pixels::Rgba8(px)).unwrap()
}

fn pixel(b: &Bitmap, x: u32, y: u32) -> [u16; 4] {
    [b.sample(x, y, 0), b.sample(x, y, 1), b.sample(x, y, 2), b.sample(x, y, 3)]
}

#[test]
fn flatten_replaces_alpha() {
    let src = solid(3, 3, [255, 0, 0, 128]);
    let out = flatten_alpha(&src, [0, 0, 255]);
    let px = pixel(&out, 0, 0);
    assert_eq!(px[3], 255);
    assert_eq!(px[0], 128, "50% red over blue gives ~128 red");
}

#[test]
fn flatten_transparent_becomes_bg() {
    let src = solid(3, 3, [0, 0, 0, 0]);
    let out = flatten_alpha(&src, [10, 20, 30]);
    assert_eq!(pixel(&out, 0, 0), [10, 20, 30, 255]);
}

#[test]
fn blend_flatten_pastes_opaquely() {
    let base = solid(8, 8, [255, 0, 0, 255]);
    // Overlay with alpha hole in the middle.
    let over = solid(4, 4, [0, 0, 255, 0]);
    let out = overlay_flattened(&base, &over, 0, 0, [0, 255, 0]);
    assert_eq!(pixel(&out, 0, 0), [0, 255, 0, 255]);
    assert_eq!(pixel(&out, 4, 4), [255, 0, 0, 255]);
}

#[test]
fn resized_overlay_helper() {
    let over = solid(100, 100, [9, 9, 9, 255]);
    let r = resized_overlay(&over, &Fit::MaxSide(50), Filter::Triangle);
    assert_eq!((r.width(), r.height()), (50, 50));
}

#[test]
fn flatten_opaque_keeps_color() {
    let src = solid(2, 2, [12, 34, 56, 255]);
    let out = flatten_alpha(&src, [200, 200, 200]);
    assert_eq!(pixel(&out, 1, 1), [12, 34, 56, 255]);
}

#[test]
fn flatten_of_non_rgba_is_opaque_rgba() {
    let gray = Bitmap::new(2, 1, Pixels::L8(vec![7, 9])).unwrap();
    let out = flatten_alpha(&gray, [0, 0, 0]);
    assert_eq!(out.kind(), PixelKind::Rgba8);
    assert_eq!(pixel(&out, 0, 0), [7, 7, 7, 255]);
    assert_eq!(pixel(&out, 1, 0), [9, 9, 9, 255]);
}

#[test]
fn flatten_rounds_half_up() {
    // 255 * 1/255 + 0 = 1 exactly; 100 * 128/255 + 0 = 50.196 -> 50.
    let a = flatten_alpha(&solid(1, 1, [255, 100, 0, 1]), [0, 0, 0]);
    assert_eq!(pixel(&a, 0, 0), [1, 0, 0, 255]);
    let b = flatten_alpha(&solid(1, 1, [100, 0, 0, 128]), [0, 0, 0]);
    assert_eq!(pixel(&b, 0, 0), [50, 0, 0, 255]);
}

#[test]
fn paste_clips_negative_offsets() {
    let base = solid(10, 10, [255, 0, 0, 255]);
    let over = solid(4, 4, [0, 255, 0, 255]);
    let out = paste_opaque(&base, &over, -2, -2);
    assert_eq!(pixel(&out, 0, 0), [0, 255, 0, 255]);
    assert_eq!(pixel(&out, 1, 1), [0, 255, 0, 255]);
    assert_eq!(pixel(&out, 2, 2), [255, 0, 0, 255]);
    assert_eq!((out.width(), out.height()), (10, 10));
}

#[test]
fn paste_window_clips_each_side() {
    assert_eq!(
        paste_window(10, 10, 4, 4, -2, -2),
        PasteWindow { x0: 2, x1: 4, y0: 2, y1: 4 }
    );
    assert_eq!(
        paste_window(10, 10, 4, 4, 8, 3),
        PasteWindow { x0: 0, x1: 2, y0: 0, y1: 4 }
    );
    // Entirely off the base: an empty window.
    let w = paste_window(10, 10, 4, 4, 20, -20);
    assert!(w.x0 >= w.x1 || w.y0 >= w.y1);
}

#[test]
fn tile_grid_covers_the_base() {
    assert_eq!(tile_grid(50, 30, 16, 16), (4, 2));
    assert_eq!(tile_grid(20, 20, 8, 8), (3, 3));
    assert_eq!(tile_grid(16, 16, 16, 16), (1, 1));
    assert_eq!(tile_grid(10, 10, 0, 5), (0, 0));
    assert_eq!(tile_origin(16, 16, 3, 1), (48, 16));
}

#[test]
fn tiles_pasted_opaquely_cover_everything() {
    let mut out = solid(50, 30, [255, 0, 0, 255]);
    let over = solid(16, 16, [0, 0, 255, 255]);
    let (nx, ny) = tile_grid(50, 30, 16, 16);
    for iy in 0..ny {
        for ix in 0..nx {
            let (x, y) = tile_origin(16, 16, ix, iy);
            out = paste_opaque(&out, &over, x as i64, y as i64);
        }
    }
    for y in 0..30 {
        for x in 0..50 {
            assert_eq!(pixel(&out, x, y), [0, 0, 255, 255]);
        }
    }
}

#[test]
fn overlay_flattened_clips_and_widens_the_base() {
    // A gray base becomes RGBA; the flattened overlay hangs off the corner.
    let base = Bitmap::new(3, 3, Pixels::L8(vec![50; 9])).unwrap();
    let over = solid(2, 2, [200, 100, 0, 255]);
    let out = overlay_flattened(&base, &over, 2, -1, [0, 0, 0]);
    assert_eq!(out.kind(), PixelKind::Rgba8);
    assert_eq!((out.width(), out.height()), (3, 3));
    assert_eq!(pixel(&out, 2, 0), [200, 100, 0, 255]);
    assert_eq!(pixel(&out, 1, 0), [50, 50, 50, 255]);
    assert_eq!(pixel(&out, 2, 1), [50, 50, 50, 255]);
}
