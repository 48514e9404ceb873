use media_kit::resize::{plan, Fit, ResizePlan};

/// The geometry written with `f64` arithmetic: `MaxSide` and `Height` scale
/// each side by `target / side`; `Width` takes the target width and
/// `h * t / w` for the height; `Cover` compares aspect ratios and cuts one
/// side to the target ratio.
fn reference(w: u32, h: u32, fit: Fit, upscale: bool) -> ResizePlan {
    let scale_dims = |scale: f64| {
        (
            ((f64::from(w) * scale).round() as u32).max(1),
            ((f64::from(h) * scale).round() as u32).max(1),
        )
    };
    match fit {
        Fit::MaxSide(side) => {
            let scale = f64::from(side) / f64::from(w.max(h));
            if !upscale && scale >= 1.0 {
                return ResizePlan::Keep;
            }
            let (nw, nh) = scale_dims(scale);
            ResizePlan::Resample(nw, nh)
        }
        Fit::Width(t) => {
            if !upscale && w <= t {
                return ResizePlan::Keep;
            }
            if w == 0 {
                let (nw, nh) = scale_dims(f64::from(t) / f64::from(w));
                return ResizePlan::Resample(nw, nh);
            }
            let nh = ((f64::from(h) * f64::from(t) / f64::from(w)).round() as u32).max(1);
            ResizePlan::Resample(t.max(1), nh)
        }
        Fit::Height(t) => {
            if !upscale && h <= t {
                return ResizePlan::Keep;
            }
            let (nw, nh) = scale_dims(f64::from(t) / f64::from(h));
            ResizePlan::Resample(nw, nh)
        }
        Fit::Cover(tw, th) => {
            let target = f64::from(tw) / f64::from(th);
            if f64::from(w) / f64::from(h) > target {
                let cw = ((f64::from(h) * target).round() as u32).clamp(1, w);
                ResizePlan::Cover { x: (w - cw) / 2, y: 0, cw, ch: h, tw, th }
            } else {
                let ch = ((f64::from(w) / target).round() as u32).clamp(1, h);
                ResizePlan::Cover { x: 0, y: (h - ch) / 2, cw: w, ch, tw, th }
            }
        }
        Fit::Exact(tw, th) => ResizePlan::Resample(tw.max(1), th.max(1)),
    }
}

struct Lcg(u64);

impl Lcg {
    fn next(&mut self) -> u32 {
        self.0 = self.0.wrapping_mul(6364136223846793005).wrapping_add(1442695040888963407);
        (self.0 >> 33) as u32
    }

    /// A side: small, medium or anywhere in `u32`.
    fn side(&mut self) -> u32 {
        match self.next() % 4 {
            0 => self.next() % 64 + 1,
            1 => self.next() % 5000 + 1,
            2 => self.next() % 100_000 + 1,
            _ => self.next().max(1),
        }
    }
}

#[test]
fn geometry_matches_f64_arithmetic() {
    let mut rng = Lcg(0x5eed);
    for i in 0..200_000u32 {
        let (w, h) = (rng.side(), rng.side());
        let (a, b) = (rng.side(), rng.side());
        let upscale = i % 3 == 0;
        for fit in [Fit::MaxSide(a), Fit::Width(a), Fit::Height(a), Fit::Cover(a, b), Fit::Exact(a, b)] {
            assert_eq!(plan(w, h, fit, upscale), reference(w, h, fit, upscale), "{w}x{h} {fit:?} {upscale}");
        }
    }
}

#[test]
fn geometry_matches_f64_arithmetic_on_halves() {
    // Exact halves, where rounding the exact quotient and rounding in f64
    // can part ways.
    for w in 1..60u32 {
        for h in 1..60u32 {
            for a in 1..40u32 {
                for fit in [Fit::MaxSide(a), Fit::Width(a), Fit::Height(a), Fit::Cover(a, 2 * a + 1), Fit::Cover(2 * a, h)] {
                    for upscale in [false, true] {
                        assert_eq!(plan(w, h, fit, upscale), reference(w, h, fit, upscale), "{w}x{h} {fit:?}");
                    }
                }
            }
        }
    }
}

#[test]
fn width_code_formula_gives_the_target_width() {
    // `w * (t / w)` in f64 rounds back to `t`.
    let mut rng = Lcg(7);
    for _ in 0..200_000 {
        let (w, t) = (rng.side(), rng.side());
        let nw = ((f64::from(w) * (f64::from(t) / f64::from(w))).round() as u32).max(1);
        assert_eq!(nw, t.max(1), "{w} {t}");
    }
}

#[test]
fn max_side_on_11x22_rounds_in_f64() {
    // 11 * (15 / 22) is 7.5 exactly, but 7.4999.. in f64.
    assert_eq!(plan(11, 22, Fit::MaxSide(15), false), ResizePlan::Resample(7, 15));
}

#[test]
fn cover_on_20x11_crops_in_f64() {
    assert_eq!(
        plan(20, 11, Fit::Cover(15, 22), false),
        ResizePlan::Cover { x: 6, y: 0, cw: 7, ch: 11, tw: 15, th: 22 }
    );
}
