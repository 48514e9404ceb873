use media_kit::bitmap::{Bitmap, PixelKind, Pixels};

fn ramp(w: u32, h: u32) -> Bitmap {
    let px: Vec<u8> = (0..w * h).map(|i| i as u8).collect();
    Bitmap::new(w, h, Pixels::L8(px)).unwrap()
}

fn raw(b: &Bitmap) -> Vec<u16> {
    let mut out = Vec::new();
    for y in 0..b.height() {
        for x in 0..b.width() {
            out.push(b.sample(x, y, 0));
        }
    }
    out
}

#[test]
fn new_checks_the_sample_count() {
    assert!(Bitmap::new(2, 2, Pixels::Rgb8(vec![0; 12])).is_some());
    assert!(Bitmap::new(2, 2, Pixels::Rgb8(vec![0; 11])).is_none());
    assert!(Bitmap::new(3, 1, Pixels::La16(vec![0; 6])).is_some());
    assert!(Bitmap::new(0, 7, Pixels::L8(vec![])).is_some());
}

#[test]
fn crop_imm_cuts_the_window() {
    // 4x3 ramp 0..12; the 2x2 window at (1, 1).
    let out = ramp(4, 3).crop_imm(1, 1, 2, 2);
    assert_eq!((out.width(), out.height()), (2, 2));
    assert_eq!(raw(&out), vec![5, 6, 9, 10]);
}

#[test]
fn crop_imm_clamps_to_the_image() {
    let out = ramp(4, 3).crop_imm(3, 2, 10, 10);
    assert_eq!((out.width(), out.height()), (1, 1));
    assert_eq!(raw(&out), vec![11]);
    let out = ramp(4, 3).crop_imm(9, 9, 2, 2);
    assert_eq!((out.width(), out.height()), (0, 0));
}

#[test]
fn shuffles_move_pixels() {
    let img = ramp(3, 2); // rows [0 1 2] [3 4 5]
    assert_eq!(raw(&img.fliph()), vec![2, 1, 0, 5, 4, 3]);
    assert_eq!(raw(&img.flipv()), vec![3, 4, 5, 0, 1, 2]);
    assert_eq!(raw(&img.rotate180()), vec![5, 4, 3, 2, 1, 0]);
    let r90 = img.rotate90();
    assert_eq!((r90.width(), r90.height()), (2, 3));
    assert_eq!(raw(&r90), vec![3, 0, 4, 1, 5, 2]);
    let r270 = img.rotate270();
    assert_eq!(raw(&r270), vec![2, 5, 1, 4, 0, 3]);
}

#[test]
fn to_rgba8_widens_gray() {
    let out = Bitmap::new(1, 1, Pixels::L8(vec![42])).unwrap().to_rgba8();
    assert_eq!(out.kind(), PixelKind::Rgba8);
    assert_eq!(
        [out.sample(0, 0, 0), out.sample(0, 0, 1), out.sample(0, 0, 2), out.sample(0, 0, 3)],
        [42, 42, 42, 255]
    );
}
