//! Aspect-preserving and cover-fit resizing.
//!
//! # Resize backends
//!
//! Two backends implement the final resample step:
//!
//! - **plain** — `image::imageops::resize` (through `DynamicImage::resize_exact`),
//!   always available.
//! - **fast** — `fast_image_resize` with runtime SIMD dispatch, used for the
//!   8-bit layouts (`L8`, `La8`, `Rgb8`, `Rgba8`); the 16-bit layouts, and
//!   any resize the fast backend refuses, fall back to the plain backend.
//!
//! Both backends share the same fit/crop logic below; only the resample
//! kernel differs, so dimensions are identical.
//!
//! The fit geometry follows `f64` arithmetic step by step (each quotient and
//! product rounded to binary64, then `round()` and a saturating cast), which
//! [`crate::ratio64`] reproduces exactly in integers.

use vstd::prelude::*;

use crate::ratio64::{
    div_ratio_round, div_ratio_round_exec, mul_ratio_round, mul_ratio_round_exec, product_ratio_round,
    product_ratio_round_exec, ratio_gt, ratio_gt_exec, lemma_mul_ratio_round_le, lemma_product_ratio_round_le,
};

use fast_image_resize::images::Image as FirImage;
use fast_image_resize::{FilterType as FirFilter, PixelType, ResizeAlg, ResizeOptions, Resizer};
use image::imageops::FilterType;

use crate::bitmap::{bytes_as_ints, crop_spec, lemma_remap_sample, window, from_dynamic, into_dynamic, take_bitmap, Bitmap, BitmapView, PixelKind, Pixels};

verus! {

/// Target geometry for a resize.
#[derive(Debug, Clone, Copy, PartialEq, Eq, Structural)]
pub enum Fit {
    /// Fit within a square of this side, preserving aspect ratio.
    MaxSide(u32),
    /// Fit to this width, height follows aspect ratio.
    Width(u32),
    /// Fit to this height, width follows aspect ratio.
    Height(u32),
    /// Center-crop to fill exactly `(w, h)`, cropping away overflow (avatars).
    Cover(u32, u32),
    /// Stretch to exactly `(w, h)`, ignoring aspect ratio.
    Exact(u32, u32),
}

/// Resampling filter. Maps 1:1 onto `image::imageops::FilterType` and onto
/// `fast_image_resize` filters.
#[derive(Debug, Clone, Copy, PartialEq, Eq, Structural)]
pub enum Filter {
    /// Nearest neighbor — fastest, blocky.
    Nearest,
    /// Linear/triangle — fast, decent.
    Triangle,
    /// Catmull-Rom cubic — good default quality.
    CatmullRom,
    /// Gaussian — smooth.
    Gaussian,
    /// Lanczos3 — highest quality, slowest.
    Lanczos3,
}

/// What a resize does to an image of a given size.
#[derive(Debug, Clone, Copy, PartialEq, Eq, Structural)]
pub enum ResizePlan {
    /// Return the image unchanged.
    Keep,
    /// Resample the whole image to exactly this size.
    Resample(u32, u32),
    /// Crop the window with corner `(x, y)` and size `cw` x `ch`, then
    /// resample it to `tw` x `th` unless it already has that size.
    Cover { x: u32, y: u32, cw: u32, ch: u32, tw: u32, th: u32 },
}

/// `p / q` rounded half up (`q > 0`, `p >= 0`).
pub open spec fn round_ratio(p: int, q: int) -> int {
    (2 * p + q) / (2 * q)
}

/// `v` clamped into `lo..=hi`.
pub open spec fn clamp(v: int, lo: int, hi: int) -> int {
    if v < lo {
        lo
    } else if v > hi {
        hi
    } else {
        v
    }
}

/// `v`, but at least 1.
pub open spec fn at_least_one(v: u32) -> u32 {
    if v == 0 {
        1
    } else {
        v
    }
}

/// The cover crop keeps the full height and cuts the width: in `f64`,
/// the source's aspect ratio `w / h` exceeds the target's `tw / th` (an
/// infinite or undefined ratio compares as IEEE-754 prescribes).
pub open spec fn cover_is_wider(w: u32, h: u32, tw: u32, th: u32) -> bool {
    if h > 0 && th > 0 {
        w > 0 && (tw == 0 || ratio_gt(w, h, tw, th))
    } else if h == 0 {
        w > 0 && th > 0
    } else {
        false
    }
}

/// The largest centred crop of a `w` x `h` source with the aspect ratio of
/// `tw` x `th`, and the target size. The cut side is the kept side times
/// the target ratio (or divided by it) in `f64`, rounded, and clamped into
/// `1..=` the source side.
pub open spec fn cover_plan(w: u32, h: u32, tw: u32, th: u32) -> ResizePlan {
    if cover_is_wider(w, h, tw, th) {
        let cw = clamp(mul_ratio_round(h, tw, th) as int, 1, w as int) as u32;
        ResizePlan::Cover { x: ((w - cw) / 2) as u32, y: 0, cw, ch: h, tw, th }
    } else {
        let ch = if th > 0 && tw > 0 {
            clamp(div_ratio_round(w, tw, th) as int, 1, h as int) as u32
        } else {
            1u32
        };
        ResizePlan::Cover { x: 0, y: ((h - ch) / 2) as u32, cw: w, ch, tw, th }
    }
}

/// The resize plan for a `w` x `h` image. Aspect-preserving fits keep an
/// image that already fits unless `upscale` is set; `Cover` and `Exact`
/// always reach their exact target. Scaled sides are computed as in `f64`
/// ([`crate::ratio64`]): `MaxSide` and `Height` scale each side by the
/// binary64 ratio `target / side`; `Width` makes the width the target and
/// the height `h * t / w`, rounded after each `f64` step.
pub open spec fn plan_spec(w: u32, h: u32, fit: Fit, upscale: bool) -> ResizePlan {
    match fit {
        Fit::MaxSide(side) => {
            let m = if w >= h {
                w
            } else {
                h
            };
            if !upscale && side >= 1 && side >= m {
                ResizePlan::Keep
            } else if m == 0 {
                ResizePlan::Resample(1, 1)
            } else {
                ResizePlan::Resample(
                    at_least_one(mul_ratio_round(w, side, m)),
                    at_least_one(mul_ratio_round(h, side, m)),
                )
            }
        },
        Fit::Width(t) => if !upscale && w <= t {
            ResizePlan::Keep
        } else if w == 0 {
            ResizePlan::Resample(
                1,
                if t > 0 && h > 0 {
                    u32::MAX
                } else {
                    1
                },
            )
        } else {
            ResizePlan::Resample(at_least_one(t), at_least_one(product_ratio_round(h, t, w)))
        },
        Fit::Height(t) => if !upscale && h <= t {
            ResizePlan::Keep
        } else if h == 0 {
            ResizePlan::Resample(
                if t > 0 && w > 0 {
                    u32::MAX
                } else {
                    1
                },
                1,
            )
        } else {
            ResizePlan::Resample(at_least_one(mul_ratio_round(w, t, h)), at_least_one(t))
        },
        Fit::Cover(tw, th) => cover_plan(w, h, tw, th),
        Fit::Exact(tw, th) => ResizePlan::Resample(at_least_one(tw), at_least_one(th)),
    }
}

/// The cover crop lies inside the image, is centred on it, has a non-zero
/// size whenever the image has one, keeps the full height when the source
/// is wider than the target (cutting the width to the height times the
/// target ratio) and the full width otherwise, and is then scaled to the
/// exact target.
pub proof fn lemma_cover_window(w: u32, h: u32, tw: u32, th: u32)
    requires
        h > 0 || cover_is_wider(w, h, tw, th),
    ensures
        cover_plan(w, h, tw, th) matches ResizePlan::Cover { x, y, cw, ch, tw: ow, th: oh } && x + cw <= w && y
            + ch <= h && (w > 0 ==> cw >= 1) && (h > 0 ==> ch >= 1) && x == (w - cw) / 2 && y == (h - ch) / 2
            && ow == tw && oh == th && (cover_is_wider(w, h, tw, th) ==> ch == h && cw == clamp(
            mul_ratio_round(h, tw, th) as int,
            1,
            w as int,
        )) && (!cover_is_wider(w, h, tw, th) ==> cw == w && (tw > 0 && th > 0 ==> ch == clamp(
            div_ratio_round(w, tw, th) as int,
            1,
            h as int,
        ))),
{
}

/// The dimensions a plan produces from a `w` x `h` image.
pub open spec fn plan_dims(p: ResizePlan, w: u32, h: u32) -> (u32, u32) {
    match p {
        ResizePlan::Keep => (w, h),
        ResizePlan::Resample(nw, nh) => (nw, nh),
        ResizePlan::Cover { tw, th, .. } => (tw, th),
    }
}

/// A resample from a source `sw` pixels wide to `nw` x `nh` allocates its
/// intermediate and final buffers within the address space (16 bytes per
/// intermediate pixel).
pub open spec fn fits_resample(sw: int, nw: int, nh: int) -> bool {
    &&& 16 * sw * nh <= isize::MAX
    &&& 16 * nw * nh <= isize::MAX
}

/// A resize of `m` with `fit` neither panics nor exceeds the address space:
/// a cover crop of a zero-height image needs the crop to cut the width, and
/// every resample must fit.
pub open spec fn resize_admissible(m: BitmapView, fit: Fit, upscale: bool) -> bool {
    match plan_spec(m.width as u32, m.height as u32, fit, upscale) {
        ResizePlan::Keep => true,
        ResizePlan::Resample(nw, nh) => fits_resample(m.width as int, nw as int, nh as int),
        ResizePlan::Cover { cw, tw, th, .. } => {
            &&& (m.height > 0 || cover_is_wider(m.width as u32, m.height as u32, tw, th))
            &&& fits_resample(cw as int, tw as int, th as int)
        },
    }
}

/// The filters whose `image::imageops::resize` kernels use only basic
/// arithmetic: nearest-neighbour (box) and triangle. (Catmull-Rom evaluates
/// `powi`, Gaussian `exp` and Lanczos3 `sin`, whose precision std leaves
/// to the platform.)
pub open spec fn plain_exact_filter(f: Filter) -> bool {
    f == Filter::Nearest || f == Filter::Triangle
}

/// The filters whose `fast_image_resize` kernels use only basic
/// arithmetic: nearest-neighbour, bilinear and Catmull-Rom. (Gaussian and
/// Lanczos3 evaluate `exp` and `sin`.)
pub open spec fn fast_exact_filter(f: Filter) -> bool {
    f == Filter::Nearest || f == Filter::Triangle || f == Filter::CatmullRom
}

/// The samples `image::imageops::resize` computes when it resamples `src`
/// to `w` x `h` with `filter` (stated for [`plain_exact_filter`] filters).
pub uninterp spec fn resampled(src: BitmapView, w: u32, h: u32, filter: Filter) -> Seq<int>;

/// The bytes `fast_image_resize::Resizer::resize` writes when it resamples
/// the `sw` x `sh` 8-bit buffer `src` of `channels` samples per pixel to
/// `w` x `h` with the algorithm for `filter` (stated for
/// [`fast_exact_filter`] filters).
pub uninterp spec fn fast_resampled(src: Seq<u8>, channels: nat, sw: u32, sh: u32, w: u32, h: u32, filter: Filter) -> Seq<u8>;

/// The samples of an 8-bit image as bytes.
pub open spec fn sample_bytes(m: BitmapView) -> Seq<u8> {
    m.samples.map_values(|v: int| v as u8)
}

/// The samples the fast backend makes of the 8-bit image `src`.
pub open spec fn fast_backend_samples(src: BitmapView, w: u32, h: u32, filter: Filter) -> Seq<int> {
    bytes_as_ints(fast_resampled(sample_bytes(src), src.channels(), src.width as u32, src.height as u32, w, h, filter))
}

/// `r` came from the fast backend: an 8-bit source, resampled with the
/// `fast_image_resize` kernel for `filter`.
pub open spec fn from_fast_backend(src: BitmapView, w: u32, h: u32, filter: Filter, r: BitmapView) -> bool {
    &&& src.kind.is_eight_bit()
    &&& fast_exact_filter(filter) ==> r.samples == fast_backend_samples(src, w, h, filter)
}

/// `r` came from the plain backend: resampled with the
/// `image::imageops::resize` kernel for `filter`.
pub open spec fn from_plain_backend(src: BitmapView, w: u32, h: u32, filter: Filter, r: BitmapView) -> bool {
    plain_exact_filter(filter) ==> r.samples == resampled(src, w, h, filter)
}

/// `r` is a resample of `src` to `w` x `h` by the backend dispatch: same
/// layout, the requested size, and the samples of the fast backend (for an
/// 8-bit source it accepts) or of the plain backend.
pub open spec fn backend_resampled(src: BitmapView, w: u32, h: u32, filter: Filter, r: BitmapView) -> bool {
    &&& r.kind == src.kind
    &&& r.width == w
    &&& r.height == h
    &&& from_fast_backend(src, w, h, filter, r) || from_plain_backend(src, w, h, filter, r)
}

/// `r` is a resize of `m` with `fit`, `filter` and `upscale`.
pub open spec fn resized(m: BitmapView, fit: Fit, filter: Filter, upscale: bool, r: BitmapView) -> bool {
    match plan_spec(m.width as u32, m.height as u32, fit, upscale) {
        ResizePlan::Keep => r == m,
        ResizePlan::Resample(nw, nh) => backend_resampled(m, nw, nh, filter, r),
        ResizePlan::Cover { x, y, cw, ch, tw, th } => {
            let cropped = crop_spec(m, x as nat, y as nat, cw as nat, ch as nat);
            if cw == tw && ch == th {
                r == cropped
            } else {
                backend_resampled(cropped, tw, th, filter, r)
            }
        },
    }
}

pub(crate) fn mul_u32(a: u32, b: u32) -> (r: u64)
    ensures
        r == a * b,
{
    assert((a as int) * (b as int) <= u64::MAX) by (nonlinear_arith)
        requires a <= 0xffff_ffff, b <= 0xffff_ffff;
    (a as u64) * (b as u64)
}

fn mul_wide(a: u32, b: u32) -> (r: u128)
    ensures
        r == a * b,
        r <= 0x1_0000_0000_0000_0000u128,
{
    assert((a as int) * (b as int) <= 0x1_0000_0000_0000_0000) by (nonlinear_arith)
        requires a <= 0xffff_ffff, b <= 0xffff_ffff;
    mul_u32(a, b) as u128
}

fn max_one(v: u32) -> (r: u32)
    ensures
        r == at_least_one(v),
{
    if v == 0 {
        1
    } else {
        v
    }
}

fn clamp_exec(v: u32, lo: u32, hi: u32) -> (r: u32)
    requires
        lo <= hi,
    ensures
        r == clamp(v as int, lo as int, hi as int),
{
    if v < lo {
        lo
    } else if v > hi {
        hi
    } else {
        v
    }
}

fn is_wider(w: u32, h: u32, tw: u32, th: u32) -> (r: bool)
    ensures
        r == cover_is_wider(w, h, tw, th),
{
    if h > 0 && th > 0 {
        w > 0 && (tw == 0 || ratio_gt_exec(w, h, tw, th))
    } else if h == 0 {
        w > 0 && th > 0
    } else {
        false
    }
}

/// Largest centered crop of `(w, h)` whose aspect ratio matches `(tw, th)`,
/// to be resampled to `(tw, th)` (see [`cover_plan`]).
fn crop_to_fill(w: u32, h: u32, tw: u32, th: u32) -> (r: ResizePlan)
    requires
        h > 0 || cover_is_wider(w, h, tw, th),
    ensures
        r == cover_plan(w, h, tw, th),
{
    if is_wider(w, h, tw, th) {
        // Source is wider: keep full height, crop width centered.
        let cw = clamp_exec(mul_ratio_round_exec(h, tw, th), 1, w);
        ResizePlan::Cover { x: (w - cw) / 2, y: 0, cw, ch: h, tw, th }
    } else {
        // Source is taller (or exact): keep full width, crop height centered.
        let ch = if th > 0 && tw > 0 {
            clamp_exec(div_ratio_round_exec(w, tw, th), 1, h)
        } else {
            1
        };
        ResizePlan::Cover { x: 0, y: (h - ch) / 2, cw: w, ch, tw, th }
    }
}

/// The resize plan for a `w` x `h` image (see [`plan_spec`]).
pub fn plan(w: u32, h: u32, fit: Fit, upscale: bool) -> (r: ResizePlan)
    requires
        matches!(fit, Fit::Cover(..)) ==> (h > 0 || cover_is_wider(w, h, fit->Cover_0, fit->Cover_1)),
    ensures
        r == plan_spec(w, h, fit, upscale),
{
    match fit {
        Fit::MaxSide(side) => {
            let m = if w >= h {
                w
            } else {
                h
            };
            if !upscale && side >= 1 && side >= m {
                ResizePlan::Keep
            } else if m == 0 {
                ResizePlan::Resample(1, 1)
            } else {
                ResizePlan::Resample(
                    max_one(mul_ratio_round_exec(w, side, m)),
                    max_one(mul_ratio_round_exec(h, side, m)),
                )
            }
        },
        Fit::Width(t) => if !upscale && w <= t {
            ResizePlan::Keep
        } else if w == 0 {
            ResizePlan::Resample(
                1,
                if t > 0 && h > 0 {
                    u32::MAX
                } else {
                    1
                },
            )
        } else {
            ResizePlan::Resample(max_one(t), max_one(product_ratio_round_exec(h, t, w)))
        },
        Fit::Height(t) => if !upscale && h <= t {
            ResizePlan::Keep
        } else if h == 0 {
            ResizePlan::Resample(
                if t > 0 && w > 0 {
                    u32::MAX
                } else {
                    1
                },
                1,
            )
        } else {
            ResizePlan::Resample(max_one(mul_ratio_round_exec(w, t, h)), max_one(t))
        },
        Fit::Cover(tw, th) => crop_to_fill(w, h, tw, th),
        Fit::Exact(tw, th) => ResizePlan::Resample(max_one(tw), max_one(th)),
    }
}


/// Resamples with `DynamicImage::resize_exact` (`image::imageops::resize`).
/// Trusted: the result has the source's layout and the requested size; for
/// the nearest-neighbour and triangle kernels its samples are a function of
/// the source, the size and the filter ([`resampled`]). The samples of the
/// other kernels are not stated: they go through `powi`, `exp` or `sin`,
/// whose precision std leaves to the platform.
#[verifier::external_body]
fn plain_resample(img: &Bitmap, w: u32, h: u32, filter: Filter) -> (r: Option<Bitmap>)
    requires
        fits_resample(img@.width as int, w as int, h as int),
    ensures
        r.is_some(),
        r.unwrap()@.kind == img@.kind,
        r.unwrap()@.width == w,
        r.unwrap()@.height == h,
        plain_exact_filter(filter) ==> r.unwrap()@.samples == resampled(img@, w, h, filter),
{
    let ft = match filter {
        Filter::Nearest => FilterType::Nearest,
        Filter::Triangle => FilterType::Triangle,
        Filter::CatmullRom => FilterType::CatmullRom,
        Filter::Gaussian => FilterType::Gaussian,
        Filter::Lanczos3 => FilterType::Lanczos3,
    };
    from_dynamic(into_dynamic(img.clone()).resize_exact(w, h, ft))
}

/// Resamples an 8-bit buffer of `channels` (1 to 4) samples per pixel with
/// `fast_image_resize::Resizer::resize`, using nearest-neighbour sampling or
/// a convolution with the kernel for `filter` (`Triangle` is the bilinear
/// kernel). Trusted: when it succeeds the buffer holds `w * h * channels`
/// samples (the destination `Image::new` allocates exactly that), and for
/// the kernels of [`fast_exact_filter`] they are a function of the
/// arguments ([`fast_resampled`]; the crate's own tests expect the same
/// output from every CPU extension). It fails (`None`) when the source
/// buffer is too short or misaligned for the pixel type (the alignment test
/// rests on `slice::align_to`, which may report any slice as misaligned).
/// The samples of the Gaussian and Lanczos3 kernels are not stated: they go
/// through `exp` and `sin`.
#[verifier::external_body]
fn fast_resample(src: &[u8], channels: usize, sw: u32, sh: u32, w: u32, h: u32, filter: Filter) -> (r: Option<Vec<u8>>)
    requires
        1 <= channels <= 4,
        fits_resample(sw as int, w as int, h as int),
    ensures
        r matches Some(v) ==> v@.len() == (w as int) * (h as int) * (channels as int) && (fast_exact_filter(
            filter,
        ) ==> v@ == fast_resampled(src@, channels as nat, sw, sh, w, h, filter)),
{
    let pt = match channels { 1 => PixelType::U8, 2 => PixelType::U8x2, 3 => PixelType::U8x3, _ => PixelType::U8x4 };
    let alg = match filter {
        Filter::Nearest => ResizeAlg::Nearest,
        Filter::Triangle => ResizeAlg::Convolution(FirFilter::Bilinear),
        Filter::CatmullRom => ResizeAlg::Convolution(FirFilter::CatmullRom),
        Filter::Gaussian => ResizeAlg::Convolution(FirFilter::Gaussian),
        Filter::Lanczos3 => ResizeAlg::Convolution(FirFilter::Lanczos3),
    };
    let source = FirImage::from_vec_u8(sw, sh, src.to_vec(), pt).ok()?;
    let mut dst = FirImage::new(w, h, pt);
    Resizer::new().resize(&source, &mut dst, &ResizeOptions::new().resize_alg(alg)).ok()?;
    Some(dst.into_vec())
}

/// The fast backend for the 8-bit layouts; `None` for the 16-bit layouts
/// and whenever the fast backend refuses.
fn fast_resize_exact(img: &Bitmap, w: u32, h: u32, filter: Filter) -> (r: Option<Bitmap>)
    requires
        fits_resample(img@.width as int, w as int, h as int),
    ensures
        r matches Some(b) ==> b@.kind == img@.kind && b@.width == w && b@.height == h
            && from_fast_backend(img@, w, h, filter, b@),
{
    let kind = img.kind();
    let c = kind.channels();
    let (sw, sh) = (img.width(), img.height());
    let out = match img.pixels() {
        Pixels::L8(v) | Pixels::La8(v) | Pixels::Rgb8(v) | Pixels::Rgba8(v) => {
            proof {
                assert(sample_bytes(img@) =~= v@) by {
                    assert forall|i: int| 0 <= i < v@.len() implies #[trigger] sample_bytes(img@)[i] == v@[i] by {
                        assert(img@.samples[i] == v@[i] as int);
                    }
                }
            }
            fast_resample(v.as_slice(), c, sw, sh, w, h, filter)
        },
        _ => None,
    };
    match out {
        Some(v) => {
            let pixels = match kind {
                PixelKind::L8 => Pixels::L8(v),
                PixelKind::La8 => Pixels::La8(v),
                PixelKind::Rgb8 => Pixels::Rgb8(v),
                _ => Pixels::Rgba8(v),
            };
            proof {
                assert(pixels.samples_spec().len() == v@.len());
                assert(pixels.samples_spec() == bytes_as_ints(v@));
            }
            Bitmap::new(w, h, pixels)
        },
        None => None,
    }
}

/// Final resample of `img` to exactly `(w, h)`, dispatching to the fastest
/// available backend for the pixel layout (see the module docs).
pub fn resize_exact_backend(img: &Bitmap, w: u32, h: u32, filter: Filter) -> (r: Bitmap)
    requires
        fits_resample(img@.width as int, w as int, h as int),
    ensures
        backend_resampled(img@, w, h, filter, r@),
{
    match fast_resize_exact(img, w, h, filter) {
        Some(out) => out,
        None => plain_resize_exact(img, w, h, filter),
    }
}

fn plain_resize_exact(img: &Bitmap, w: u32, h: u32, filter: Filter) -> (r: Bitmap)
    requires
        fits_resample(img@.width as int, w as int, h as int),
    ensures
        r@.kind == img@.kind,
        r@.width == w,
        r@.height == h,
        from_plain_backend(img@, w, h, filter, r@),
{
    take_bitmap(plain_resample(img, w, h, filter))
}

/// Force the plain `image::imageops` backend, bypassing dispatch. Exists for
/// A/B benchmarking and as a documented fallback.
pub fn resize_plain_exact(img: &Bitmap, w: u32, h: u32, filter: Filter) -> (r: Bitmap)
    requires
        fits_resample(img@.width as int, w as int, h as int),
    ensures
        r@.kind == img@.kind,
        r@.width == w,
        r@.height == h,
        from_plain_backend(img@, w, h, filter, r@),
{
    plain_resize_exact(img, w, h, filter)
}

/// Backend parity: the dispatching resample and the plain backend always
/// produce the same layout and dimensions, and on the 16-bit layouts (which
/// the dispatch hands to the plain backend) the same image whenever the
/// plain backend's samples are stated.
pub proof fn lemma_backends_agree(src: BitmapView, w: u32, h: u32, filter: Filter, dispatched: BitmapView, plain: BitmapView)
    requires
        backend_resampled(src, w, h, filter, dispatched),
        plain.kind == src.kind,
        plain.width == w,
        plain.height == h,
        from_plain_backend(src, w, h, filter, plain),
    ensures
        dispatched.kind == plain.kind,
        dispatched.width == plain.width,
        dispatched.height == plain.height,
        !src.kind.is_eight_bit() && plain_exact_filter(filter) ==> dispatched == plain,
{
}

/// `true`: the SIMD-accelerated fast backend is compiled in.
pub fn fast_resize_available() -> (r: bool)
    ensures
        r,
{
    true
}

/// Resize `img` to `fit` with `filter`, never upscaling (a smaller source is
/// returned as-is unless `fit` is `Cover`/`Exact`, which always guarantee
/// their exact target).
pub fn resize(img: &Bitmap, fit: &Fit, filter: Filter) -> (r: Bitmap)
    requires
        resize_admissible(img@, *fit, false),
    ensures
        resized(img@, *fit, filter, false, r@),
{
    resize_with(img, fit, filter, false)
}

/// Resize with explicit upscale control.
///
/// When `upscale` is `false`, aspect-preserving fits (`MaxSide`, `Width`,
/// `Height`) leave the image untouched if it is already smaller than the
/// target. `Cover` and `Exact` always produce their exact dimensions.
pub fn resize_with(img: &Bitmap, fit: &Fit, filter: Filter, upscale: bool) -> (r: Bitmap)
    requires
        resize_admissible(img@, *fit, upscale),
    ensures
        resized(img@, *fit, filter, upscale, r@),
{
    img.lemma_wf();
    let (w, h) = (img.width(), img.height());
    match plan(w, h, *fit, upscale) {
        ResizePlan::Keep => img.clone(),
        ResizePlan::Resample(nw, nh) => resize_exact_backend(img, nw, nh, filter),
        ResizePlan::Cover { x, y, cw, ch, tw, th } => {
            proof {
                lemma_cover_window(w, h, tw, th);
            }
            let cropped = img.crop_imm(x, y, cw, ch);
            if cropped.width() == tw && cropped.height() == th {
                cropped
            } else {
                resize_exact_backend(&cropped, tw, th, filter)
            }
        },
    }
}


/// The dimensions a resize of a `w` x `h` image produces.
pub open spec fn resize_dims(w: u32, h: u32, fit: Fit, upscale: bool) -> (u32, u32) {
    plan_dims(plan_spec(w, h, fit, upscale), w, h)
}

/// A resize result has the source's layout and the dimensions
/// [`resize_dims`] gives.
pub proof fn lemma_resized_dims(m: BitmapView, fit: Fit, filter: Filter, upscale: bool, r: BitmapView)
    requires
        m.wf(),
        resize_admissible(m, fit, upscale),
        resized(m, fit, filter, upscale, r),
    ensures
        r.kind == m.kind,
        r.width == resize_dims(m.width as u32, m.height as u32, fit, upscale).0,
        r.height == resize_dims(m.width as u32, m.height as u32, fit, upscale).1,
{
    if let Fit::Cover(tw, th) = fit {
        lemma_cover_window(m.width as u32, m.height as u32, tw, th);
    }
}

/// A cover fit takes the centred window of the source: the crop of the
/// plan's size whose corner is `((w - cw) / 2, (h - ch) / 2)`. When that
/// window already has the target size, result pixel `(i, j)` is source pixel
/// `(i + (w - cw) / 2, j + (h - ch) / 2)`; otherwise the result is the
/// backend resample of exactly that window to the target.
pub proof fn lemma_cover_takes_centred_window(m: BitmapView, tw: u32, th: u32, filter: Filter, upscale: bool, r: BitmapView)
    requires
        m.wf(),
        m.height > 0 || cover_is_wider(m.width as u32, m.height as u32, tw, th),
        resized(m, Fit::Cover(tw, th), filter, upscale, r),
    ensures
        ({
            let w = m.width as u32;
            let h = m.height as u32;
            cover_plan(w, h, tw, th) matches ResizePlan::Cover { cw, ch, .. } && {
                let ox = (w - cw) / 2;
                let oy = (h - ch) / 2;
                &&& cw == tw && ch == th ==> {
                    &&& r.kind == m.kind
                    &&& r.width == tw
                    &&& r.height == th
                    &&& forall|i: int, j: int, c: int|
                        0 <= i < tw && 0 <= j < th && 0 <= c < m.channels() ==> #[trigger] r.sample(i, j, c)
                            == m.sample(i + ox, j + oy, c)
                }
                &&& !(cw == tw && ch == th) ==> backend_resampled(window(m, ox, oy, cw as nat, ch as nat), tw, th, filter, r)
            }
        }),
{
    let w = m.width as u32;
    let h = m.height as u32;
    lemma_cover_window(w, h, tw, th);
    if let ResizePlan::Cover { x, y, cw, ch, .. } = cover_plan(w, h, tw, th) {
        assert(crop_spec(m, x as nat, y as nat, cw as nat, ch as nat) == window(m, x as int, y as int, cw as nat, ch as nat));
        if cw == tw && ch == th {
            assert forall|i: int, j: int, c: int|
                0 <= i < tw && 0 <= j < th && 0 <= c < m.channels() implies #[trigger] r.sample(i, j, c) == m.sample(
                i + (w - cw) / 2,
                j + (h - ch) / 2,
                c,
            ) by {
                lemma_remap_sample(m, cw as nat, ch as nat, |a: int, b: int| (x + a, y + b), i, j, c);
            }
        }
    }
}

/// `Cover` always reaches exactly its target box, and `Exact` its target
/// with each zero side raised to one.
pub proof fn lemma_cover_and_exact_boxes(w: u32, h: u32, tw: u32, th: u32, upscale: bool)
    ensures
        resize_dims(w, h, Fit::Cover(tw, th), upscale) == (tw, th),
        resize_dims(w, h, Fit::Exact(tw, th), upscale) == (at_least_one(tw), at_least_one(th)),
{
}

/// A width fit that shrinks (or any width fit with upscaling on) makes the
/// width exactly the target and the height `h * t / w` as computed in
/// `f64`, rounded, and at least one.
pub proof fn lemma_width_fit(w: u32, h: u32, t: u32, upscale: bool)
    requires
        w > 0,
        upscale || w > t,
    ensures
        resize_dims(w, h, Fit::Width(t), upscale) == (at_least_one(t), at_least_one(product_ratio_round(h, t, w))),
{
}

/// A height fit that shrinks (or any height fit with upscaling on) makes
/// the height exactly the target and scales the width by the `f64` ratio
/// `t / h`, rounded, and at least one.
pub proof fn lemma_height_fit(w: u32, h: u32, t: u32, upscale: bool)
    requires
        h > 0,
        upscale || h > t,
    ensures
        resize_dims(w, h, Fit::Height(t), upscale) == (at_least_one(mul_ratio_round(w, t, h)), at_least_one(t)),
{
}

/// `MaxSide(side)` keeps both sides within `1..=side`, and applying it a
/// second time changes nothing (it is idempotent once the image fits).
pub proof fn lemma_max_side_fit(w: u32, h: u32, side: u32, upscale: bool)
    requires
        w > 0,
        h > 0,
        side > 0,
    ensures
        ({
            let (nw, nh) = resize_dims(w, h, Fit::MaxSide(side), upscale);
            &&& 1 <= nw <= side || (nw == w && !upscale && w <= side)
            &&& 1 <= nh <= side || (nh == h && !upscale && h <= side)
            &&& nw <= side && nh <= side
            &&& plan_spec(nw, nh, Fit::MaxSide(side), false) == ResizePlan::Keep
        }),
{
    let m = if w >= h {
        w
    } else {
        h
    };
    if !(!upscale && side >= m) {
        assert((w as nat) * (side as nat) <= (side as nat) * (m as nat)) by (nonlinear_arith)
            requires w <= m;
        assert((h as nat) * (side as nat) <= (side as nat) * (m as nat)) by (nonlinear_arith)
            requires h <= m;
        lemma_mul_ratio_round_le(w, side, m, side);
        lemma_mul_ratio_round_le(h, side, m, side);
    }
}

/// Aspect-preserving fits never enlarge an image when upscaling is off:
/// neither side grows.
pub proof fn lemma_no_upscale(w: u32, h: u32, fit: Fit)
    requires
        w > 0,
        h > 0,
        matches!(fit, Fit::MaxSide(_) | Fit::Width(_) | Fit::Height(_)),
    ensures
        resize_dims(w, h, fit, false).0 <= w,
        resize_dims(w, h, fit, false).1 <= h,
{
    match fit {
        Fit::MaxSide(side) => {
            let m = if w >= h {
                w
            } else {
                h
            };
            if !(side >= 1 && side >= m) {
                assert((w as nat) * (side as nat) <= (w as nat) * (m as nat)) by (nonlinear_arith)
                    requires side <= m;
                assert((h as nat) * (side as nat) <= (h as nat) * (m as nat)) by (nonlinear_arith)
                    requires side <= m;
                lemma_mul_ratio_round_le(w, side, m, w);
                lemma_mul_ratio_round_le(h, side, m, h);
            }
        },
        Fit::Width(t) => {
            if w > t {
                assert((h as nat) * (t as nat) <= (h as nat) * (w as nat)) by (nonlinear_arith)
                    requires t < w;
                lemma_product_ratio_round_le(h, t, w, h);
            }
        },
        Fit::Height(t) => {
            if h > t {
                assert((w as nat) * (t as nat) <= (w as nat) * (h as nat)) by (nonlinear_arith)
                    requires t < h;
                lemma_mul_ratio_round_le(w, t, h, w);
            }
        },
        _ => {},
    }
}

/// Without upscaling, an image that already fits an aspect-preserving fit
/// comes back unchanged: both sides within a positive `MaxSide`, the width
/// within a `Width` target, or the height within a `Height` target.
pub proof fn lemma_fitting_image_kept(m: BitmapView, fit: Fit, filter: Filter, r: BitmapView)
    requires
        resized(m, fit, filter, false, r),
        match fit {
            Fit::MaxSide(side) => side >= 1 && m.width <= side && m.height <= side,
            Fit::Width(t) => m.width <= t,
            Fit::Height(t) => m.height <= t,
            _ => false,
        },
    ensures
        r == m,
{
}

/// Aspect-preserving fits and `Exact` never produce an empty side.
pub proof fn lemma_never_empty(w: u32, h: u32, fit: Fit, upscale: bool)
    requires
        !matches!(fit, Fit::Cover(..)),
        w > 0,
        h > 0,
    ensures
        resize_dims(w, h, fit, upscale).0 >= 1,
        resize_dims(w, h, fit, upscale).1 >= 1,
{
}


fn fits_resample_exec(sw: u32, nw: u32, nh: u32) -> (r: bool)
    ensures
        r == fits_resample(sw as int, nw as int, nh as int),
{
    let a = 16u128 * mul_wide(sw, nh);
    let b = 16u128 * mul_wide(nw, nh);
    assert(16 * (sw as int) * (nh as int) == 16 * ((sw as int) * (nh as int))) by (nonlinear_arith);
    assert(16 * (nw as int) * (nh as int) == 16 * ((nw as int) * (nh as int))) by (nonlinear_arith);
    a <= isize::MAX as u128 && b <= isize::MAX as u128
}

/// Whether resizing `img` with `fit` is admissible ([`resize_admissible`]):
/// callers that cannot establish it statically test it here first.
pub fn resize_is_admissible(img: &Bitmap, fit: &Fit, upscale: bool) -> (r: bool)
    ensures
        r == resize_admissible(img@, *fit, upscale),
{
    img.lemma_wf();
    let (w, h) = (img.width(), img.height());
    if let Fit::Cover(tw, th) = *fit {
        if !(h > 0 || is_wider(w, h, tw, th)) {
            return false;
        }
    }
    match plan(w, h, *fit, upscale) {
        ResizePlan::Keep => true,
        ResizePlan::Resample(nw, nh) => fits_resample_exec(w, nw, nh),
        ResizePlan::Cover { cw, tw, th, .. } => fits_resample_exec(cw, tw, th),
    }
}

} // verus!
