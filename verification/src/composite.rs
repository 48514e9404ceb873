//! Layering, watermarks, and alpha flattening.
//!
//! Flattening onto an opaque background works in exact integer arithmetic,
//! and so does an overlay flattened that way and pasted opaquely
//! ([`overlay_flattened`]). Alpha blending with a fractional opacity works
//! in floating point, which this library leaves to the caller: it supplies
//! the geometry — where a pasted overlay lands ([`paste_window`]) and where
//! a tiled watermark's tiles go ([`tile_grid`], [`tile_origin`]).

use vstd::arithmetic::div_mod::{lemma_fundamental_div_mod, lemma_mod_pos_bound};
use vstd::prelude::*;

use crate::bitmap::{as_rgba8, lemma_compose, Bitmap, BitmapView, PixelKind, Pixels};
use crate::resize::{resize, resize_admissible, resized, round_ratio, Filter, Fit};

verus! {

/// 8-bit RGB color.
pub type Rgb8 = [u8; 3];

/// One channel of a pixel with alpha `a` composited onto an opaque
/// background channel `b`: `(s * a + b * (255 - a)) / 255`, rounded half up.
pub open spec fn over_background(s: int, b: int, a: int) -> int {
    round_ratio(s * a + b * (255 - a), 255)
}

/// `m` (8-bit RGBA) composited onto the opaque color `bg`: every pixel's
/// color channels blended by its alpha, alpha set to 255.
pub open spec fn flattened(m: BitmapView, bg: Seq<u8>) -> BitmapView {
    BitmapView {
        kind: PixelKind::Rgba8,
        width: m.width,
        height: m.height,
        samples: Seq::new(
            m.samples.len(),
            |i: int|
                if i % 4 == 3 {
                    255
                } else {
                    over_background(m.samples[i], bg[i % 4] as int, m.samples[i - i % 4 + 3])
                },
        ),
    }
}

fn blend_onto(s: u8, b: u8, a: u8) -> (r: u8)
    ensures
        r == over_background(s as int, b as int, a as int),
{
    assert((s as int) * (a as int) + (b as int) * (255 - a as int) <= 255 * 255) by (nonlinear_arith)
        requires s <= 255, a <= 255, b <= 255, 0 <= s, 0 <= b, 0 <= a;
    assert(0 <= (s as int) * (a as int) <= 255 * 255) by (nonlinear_arith)
        requires 0 <= s <= 255, 0 <= a <= 255;
    assert(0 <= (b as int) * (255 - a as int) <= 255 * 255) by (nonlinear_arith)
        requires 0 <= b <= 255, a <= 255;
    let sa = (s as u32) * (a as u32);
    let ba = (b as u32) * (255 - a as u32);
    let num = sa + ba;
    let q = (2 * num + 255) / 510;
    assert(q <= 255);
    q as u8
}

/// Composite an image onto an opaque background color, dropping alpha. The
/// result is 8-bit RGBA with every alpha 255.
pub fn flatten_alpha(img: &Bitmap, bg: Rgb8) -> (r: Bitmap)
    ensures
        r@ == flattened(as_rgba8(img@), bg@),
{
    let rgba = img.to_rgba8();
    rgba.lemma_wf();
    let n = rgba.pixels().len();
    let ghost m = rgba@;
    let mut out: Vec<u8> = Vec::with_capacity(n);
    let mut i: usize = 0;
    proof {
        assert(n % 4 == 0) by (nonlinear_arith)
            requires n == m.width * m.height * 4;
    }
    while i < n
        invariant
            n == m.samples.len(),
            n % 4 == 0,
            i % 4 == 0,
            i <= n,
            m.wf(),
            m.kind == PixelKind::Rgba8,
            rgba@ == m,
            out@.len() == i,
            forall|j: int| 0 <= j < i ==> #[trigger] out@[j] as int == flattened(m, bg@).samples[j],
        decreases n - i,
    {
        let a = rgba.pixels().get(i + 3) as u8;
        let r0 = blend_onto(rgba.pixels().get(i) as u8, bg[0], a);
        let r1 = blend_onto(rgba.pixels().get(i + 1) as u8, bg[1], a);
        let r2 = blend_onto(rgba.pixels().get(i + 2) as u8, bg[2], a);
        out.push(r0);
        out.push(r1);
        out.push(r2);
        out.push(255);
        proof {
            assert((i + 1) % 4 == 1 && (i + 2) % 4 == 2 && (i + 3) % 4 == 3 && (i + 4) % 4 == 0);
        }
        i = i + 4;
    }
    let r = Bitmap::new(rgba.width(), rgba.height(), Pixels::Rgba8(out));
    proof {
        let s = Pixels::Rgba8(out).samples_spec();
        assert(s =~= flattened(m, bg@).samples);
    }
    match r {
        Some(b) => b,
        None => vstd::pervasive::unreached(),
    }
}

/// Flattening makes every pixel opaque; a fully transparent pixel becomes
/// the background color and a fully opaque one keeps its own color; in
/// general color channel `c` of pixel `(x, y)` is the nearest integer to
/// `(s * a + bg[c] * (255 - a)) / 255`, where `s` is that channel of the
/// same pixel and `a` its alpha.
pub proof fn lemma_flatten_pixel(m: BitmapView, bg: Seq<u8>, x: int, y: int, c: int)
    requires
        m.wf(),
        m.kind == PixelKind::Rgba8,
        bg.len() == 3,
        0 <= x < m.width,
        0 <= y < m.height,
        0 <= c < 3,
    ensures
        flattened(m, bg).sample(x, y, 3) == 255,
        m.sample(x, y, 3) == 0 ==> flattened(m, bg).sample(x, y, c) == bg[c],
        m.sample(x, y, 3) == 255 ==> flattened(m, bg).sample(x, y, c) == m.sample(x, y, c),
        ({
            let a = m.sample(x, y, 3);
            let exact2 = 2 * (m.sample(x, y, c) * a + bg[c] * (255 - a));
            -255 < 510 * flattened(m, bg).sample(x, y, c) - exact2 <= 255
        }),
{
    let w = m.width as int;
    let h = m.height as int;
    lemma_compose(w, h, 4, x, y, 3);
    lemma_compose(w, h, 4, x, y, c);
    let i = m.index(x, y, c);
    let j = m.index(x, y, 3);
    assert(i - i % 4 + 3 == j);
    let s = m.samples[i];
    let b = bg[c] as int;
    assert(0 <= s <= 255);
    assert(over_background(s, b, 0) == b) by {
        assert((2 * (b * 255) + 255) / 510int == b) by (nonlinear_arith)
            requires 0 <= b <= 255;
    }
    assert(over_background(s, b, 255) == s) by {
        assert((2 * (s * 255) + 255) / 510int == s) by (nonlinear_arith)
            requires 0 <= s <= 255;
    }
    let a = m.samples[j];
    let num = 2 * (s * a + b * (255 - a)) + 255;
    lemma_fundamental_div_mod(num, 510);
    lemma_mod_pos_bound(num, 510);
    assert(over_background(s, b, a) == num / 510);
}

/// Overload usable in `resize` chains: shrink an overlay before pasting.
pub fn resized_overlay(overlay_img: &Bitmap, fit: &Fit, filter: Filter) -> (r: Bitmap)
    requires
        resize_admissible(overlay_img@, *fit, false),
    ensures
        resized(overlay_img@, *fit, filter, false, r@),
{
    resize(overlay_img, fit, filter)
}


/// The overlay pixels that land on the base when an `ow` x `oh` overlay is
/// placed with its top-left corner at `(x, y)` on a `bw` x `bh` base: the
/// overlay columns `x0..x1` and rows `y0..y1` (possibly empty).
#[derive(Debug, Clone, Copy, PartialEq, Eq, Structural)]
pub struct PasteWindow {
    /// First overlay column that lands on the base.
    pub x0: u32,
    /// One past the last such column.
    pub x1: u32,
    /// First overlay row that lands on the base.
    pub y0: u32,
    /// One past the last such row.
    pub y1: u32,
}

/// The part `lo..hi` of `0..over` whose positions `pos + i` fall in
/// `0..base`.
pub open spec fn span(base: int, over: int, pos: int) -> (int, int) {
    let lo = clamp_int(-pos, 0, over);
    let hi = clamp_int(base - pos, lo, over);
    (lo, hi)
}

/// `v` clamped into `lo..=hi`.
pub open spec fn clamp_int(v: int, lo: int, hi: int) -> int {
    if v < lo {
        lo
    } else if v > hi {
        hi
    } else {
        v
    }
}

/// The window of a paste (see [`PasteWindow`]).
pub open spec fn paste_window_spec(bw: u32, bh: u32, ow: u32, oh: u32, x: i64, y: i64) -> PasteWindow {
    PasteWindow {
        x0: span(bw as int, ow as int, x as int).0 as u32,
        x1: span(bw as int, ow as int, x as int).1 as u32,
        y0: span(bh as int, oh as int, y as int).0 as u32,
        y1: span(bh as int, oh as int, y as int).1 as u32,
    }
}

fn span_exec(base: u32, over: u32, pos: i64) -> (r: (u32, u32))
    ensures
        r.0 == span(base as int, over as int, pos as int).0,
        r.1 == span(base as int, over as int, pos as int).1,
{
    let neg = -(pos as i128);
    let lo: u32 = if neg < 0 {
        0
    } else if neg > over as i128 {
        over
    } else {
        neg as u32
    };
    let rest = base as i128 - pos as i128;
    let hi: u32 = if rest < lo as i128 {
        lo
    } else if rest > over as i128 {
        over
    } else {
        rest as u32
    };
    (lo, hi)
}

/// Where an `ow` x `oh` overlay placed at `(x, y)` lands on a `bw` x `bh`
/// base (see [`PasteWindow`]).
pub fn paste_window(bw: u32, bh: u32, ow: u32, oh: u32, x: i64, y: i64) -> (r: PasteWindow)
    ensures
        r == paste_window_spec(bw, bh, ow, oh, x, y),
{
    let (x0, x1) = span_exec(bw, ow, x);
    let (y0, y1) = span_exec(bh, oh, y);
    PasteWindow { x0, x1, y0, y1 }
}

/// A paste window holds exactly the overlay pixels that land on the base:
/// overlay column `ox` is in `x0..x1` iff it is a column of the overlay and
/// `x + ox` is a column of the base (rows alike).
pub proof fn lemma_paste_window_exact(bw: u32, bh: u32, ow: u32, oh: u32, x: i64, y: i64, ox: int, oy: int)
    ensures
        ({
            let w = paste_window_spec(bw, bh, ow, oh, x, y);
            &&& (w.x0 <= ox < w.x1) <==> (0 <= ox < ow && 0 <= x + ox < bw)
            &&& (w.y0 <= oy < w.y1) <==> (0 <= oy < oh && 0 <= y + oy < bh)
        }),
{
}

/// `over` pasted opaquely onto `base` with its corner at `(x, y)`: base
/// pixels under the overlay take the overlay's samples, all others keep
/// their own.
pub open spec fn pasted(base: BitmapView, over: BitmapView, x: int, y: int) -> BitmapView {
    BitmapView {
        samples: Seq::new(
            base.samples.len(),
            |i: int|
                {
                    let p = i / 4;
                    let ox = p % (base.width as int) - x;
                    let oy = p / (base.width as int) - y;
                    if 0 <= ox < over.width && 0 <= oy < over.height {
                        over.sample(ox, oy, i % 4)
                    } else {
                        base.samples[i]
                    }
                },
        ),
        ..base
    }
}

/// An opaque paste puts overlay pixel `(ox, oy)` at base pixel
/// `(x + ox, y + oy)`: the result has the base's layout and size, every
/// base pixel `(px, py)` with `0 <= px - x < over.width` and
/// `0 <= py - y < over.height` takes overlay pixel `(px - x, py - y)`, and
/// every other base pixel keeps its own samples.
pub proof fn lemma_paste_places_overlay(base: BitmapView, over: BitmapView, x: int, y: int, px: int, py: int, c: int)
    requires
        base.wf(),
        base.kind == PixelKind::Rgba8,
        over.kind == PixelKind::Rgba8,
        base.in_bounds(px, py, c),
    ensures
        pasted(base, over, x, y).kind == base.kind,
        pasted(base, over, x, y).width == base.width,
        pasted(base, over, x, y).height == base.height,
        pasted(base, over, x, y).samples.len() == base.samples.len(),
        0 <= px - x < over.width && 0 <= py - y < over.height ==> #[trigger] pasted(base, over, x, y).sample(px, py, c)
            == over.sample(px - x, py - y, c),
        !(0 <= px - x < over.width && 0 <= py - y < over.height) ==> pasted(base, over, x, y).sample(px, py, c)
            == base.sample(px, py, c),
{
    lemma_compose(base.width as int, base.height as int, 4, px, py, c);
}

/// Paste an 8-bit RGBA overlay opaquely (no blending) onto an 8-bit RGBA
/// base with its top-left corner at `(x, y)`; parts off the base are
/// clipped.
pub fn paste_opaque(base: &Bitmap, over: &Bitmap, x: i64, y: i64) -> (r: Bitmap)
    requires
        base@.kind == PixelKind::Rgba8,
        over@.kind == PixelKind::Rgba8,
    ensures
        r@ == pasted(base@, over@, x as int, y as int),
{
    base.lemma_wf();
    over.lemma_wf();
    let ghost b = base@;
    let ghost o = over@;
    let n = base.pixels().len();
    let bw = base.width();
    let (ow, oh) = (over.width(), over.height());
    let mut out: Vec<u8> = Vec::with_capacity(n);
    let mut i: usize = 0;
    while i < n
        invariant
            n == b.samples.len(),
            b.wf(),
            o.wf(),
            b == base@,
            o == over@,
            b.kind == PixelKind::Rgba8,
            o.kind == PixelKind::Rgba8,
            bw == b.width,
            ow == o.width,
            oh == o.height,
            i <= n,
            out@.len() == i,
            forall|j: int| 0 <= j < i ==> #[trigger] out@[j] as int == pasted(b, o, x as int, y as int).samples[j],
        decreases n - i,
    {
        proof {
            lemma_decompose_rgba(b.width as int, b.height as int, i as int);
        }
        let p = i / 4;
        let c = i % 4;
        let ox = (p % (bw as usize)) as i128 - x as i128;
        let oy = (p / (bw as usize)) as i128 - y as i128;
        let v: u16 = if 0 <= ox && ox < ow as i128 && 0 <= oy && oy < oh as i128 {
            over.sample(ox as u32, oy as u32, c)
        } else {
            base.pixels().get(i)
        };
        proof {
            assert(0 <= v <= 255) by {
                if 0 <= ox && ox < ow as i128 && 0 <= oy && oy < oh as i128 {
                    lemma_compose(o.width as int, o.height as int, 4, ox as int, oy as int, c as int);
                }
            }
        }
        out.push(v as u8);
        i = i + 1;
    }
    let r = Bitmap::new(base.width(), base.height(), Pixels::Rgba8(out));
    proof {
        assert(Pixels::Rgba8(out).samples_spec() =~= pasted(b, o, x as int, y as int).samples);
    }
    match r {
        Some(r) => r,
        None => vstd::pervasive::unreached(),
    }
}

/// For an RGBA image, sample position `i` lies in pixel `i / 4`, which is
/// a pixel of the image.
proof fn lemma_decompose_rgba(w: int, h: int, i: int)
    requires
        h >= 0,
        0 <= i < w * h * 4,
    ensures
        w > 0,
        0 <= i / 4 < w * h,
        0 <= (i / 4) % w < w,
        0 <= (i / 4) / w < h,
{
    if w <= 0 {
        assert(w * h * 4 <= 0) by (nonlinear_arith)
            requires w <= 0, h >= 0;
    }
    crate::bitmap::lemma_decompose(w, h, 4, i);
    assert(i / 4 < w * h) by (nonlinear_arith)
        requires 0 <= i < w * h * 4, i == 4 * (i / 4) + i % 4, 0 <= i % 4;
}

/// Number of tiles along a side of `base` pixels covered by tiles of
/// `tile` pixels (none when the tile is empty).
pub open spec fn tile_count(base: int, tile: int) -> int {
    if tile <= 0 {
        0
    } else {
        (base + tile - 1) / tile
    }
}

/// The tile grid of a tiled watermark: `(columns, rows)` of `ow` x `oh`
/// tiles stepping from the top-left corner of a `bw` x `bh` base, gap-free;
/// no tiles at all when either tile side is zero.
pub open spec fn tile_grid_spec(bw: u32, bh: u32, ow: u32, oh: u32) -> (u32, u32) {
    if ow == 0 || oh == 0 {
        (0, 0)
    } else {
        (tile_count(bw as int, ow as int) as u32, tile_count(bh as int, oh as int) as u32)
    }
}

/// The tile grid of a tiled watermark (see [`tile_grid_spec`]).
pub fn tile_grid(bw: u32, bh: u32, ow: u32, oh: u32) -> (r: (u32, u32))
    ensures
        r == tile_grid_spec(bw, bh, ow, oh),
{
    if ow == 0 || oh == 0 {
        return (0, 0);
    }
    let nx = ((bw as u64 + ow as u64 - 1) / ow as u64) as u32;
    let ny = ((bh as u64 + oh as u64 - 1) / oh as u64) as u32;
    (nx, ny)
}

/// Top-left corner of tile `(ix, iy)`.
pub fn tile_origin(ow: u32, oh: u32, ix: u32, iy: u32) -> (r: (u64, u64))
    ensures
        r.0 == ix * ow,
        r.1 == iy * oh,
{
    (crate::resize::mul_u32(ix, ow), crate::resize::mul_u32(iy, oh))
}

/// The tiles cover the whole base without starting past it: every base
/// pixel lies in some tile of the grid, and every tile's corner lies on the
/// base.
pub proof fn lemma_tiles_cover(bw: u32, bh: u32, ow: u32, oh: u32, px: int, py: int, ix: int, iy: int)
    requires
        ow > 0,
        oh > 0,
    ensures
        0 <= px < bw && 0 <= py < bh ==> {
            &&& 0 <= px / (ow as int) < tile_grid_spec(bw, bh, ow, oh).0
            &&& 0 <= py / (oh as int) < tile_grid_spec(bw, bh, ow, oh).1
            &&& (px / (ow as int)) * ow <= px < (px / (ow as int)) * ow + ow
            &&& (py / (oh as int)) * oh <= py < (py / (oh as int)) * oh + oh
        },
        0 <= ix < tile_grid_spec(bw, bh, ow, oh).0 ==> ix * ow < bw,
        0 <= iy < tile_grid_spec(bw, bh, ow, oh).1 ==> iy * oh < bh,
{
    lemma_tile_axis(bw as int, ow as int, px, ix);
    lemma_tile_axis(bh as int, oh as int, py, iy);
}

/// One axis of [`lemma_tiles_cover`].
proof fn lemma_tile_axis(b: int, t: int, p: int, i: int)
    requires
        t > 0,
        b >= 0,
    ensures
        0 <= tile_count(b, t) <= b,
        0 <= p < b ==> 0 <= p / t < tile_count(b, t) && (p / t) * t <= p < (p / t) * t + t,
        0 <= i < tile_count(b, t) ==> i * t < b,
{
    let n = tile_count(b, t);
    lemma_fundamental_div_mod(b + t - 1, t);
    lemma_mod_pos_bound(b + t - 1, t);
    assert(0 <= n <= b) by (nonlinear_arith)
        requires b + t - 1 == t * n + (b + t - 1) % t, 0 <= (b + t - 1) % t < t, t > 0, b >= 0;
    if 0 <= p < b {
        lemma_fundamental_div_mod(p, t);
        lemma_mod_pos_bound(p, t);
        let q = p / t;
        assert(0 <= q) by (nonlinear_arith)
            requires p == t * q + p % t, 0 <= p, p % t < t, t > 0;
        assert(q < n) by (nonlinear_arith)
            requires p == t * q + p % t, p < b, 0 <= p % t, b + t - 1 == t * n + (b + t - 1) % t, (b + t - 1) % t < t, t > 0;
        assert(q * t <= p < q * t + t) by (nonlinear_arith)
            requires p == t * q + p % t, 0 <= p % t < t;
    }
    if 0 <= i < n {
        assert(i * t < b) by (nonlinear_arith)
            requires i < n, b + t - 1 == t * n + (b + t - 1) % t, 0 <= (b + t - 1) % t, t > 0, 0 <= i;
    }
}

/// Draw `overlay_img` onto `base` at `(x, y)` (top-left corner; may be
/// negative to hang off the edge) by first compositing it onto the opaque
/// `background` and then pasting it opaquely. Returns a new 8-bit RGBA
/// image of the base's size.
pub fn overlay_flattened(base: &Bitmap, overlay_img: &Bitmap, x: i64, y: i64, background: Rgb8) -> (r: Bitmap)
    ensures
        r@ == pasted(as_rgba8(base@), flattened(as_rgba8(overlay_img@), background@), x as int, y as int),
{
    let out = base.to_rgba8();
    let prep = flatten_alpha(overlay_img, background);
    paste_opaque(&out, &prep, x, y)
}

} // verus!
