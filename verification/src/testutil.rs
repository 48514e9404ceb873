//! Shared sample media for doctests, unit tests, and benches.
//!
//! Every sample is drawn from a fixed per-pixel formula, so the same call
//! always yields the same pixels.

use vstd::prelude::*;

use crate::bitmap::{lemma_decompose, Bitmap, BitmapView, PixelKind, Pixels};
use crate::encode::{bytes_view, encode, encode_spec, has_signature, OutFormat};
use crate::error::{result_view, MediaError};
use crate::sniff::Format;

verus! {

/// The drawing formulas of the samples.
#[derive(Debug, Clone, Copy, PartialEq, Eq, Structural)]
enum Pattern {
    /// The 8x8 JPEG sample.
    Tiny,
    /// The PNG sample.
    Gradient,
    /// Pseudo-noise.
    Noise,
}

/// Sample `c` (red, green, blue, alpha) of pixel `(x, y)` of a pattern.
spec fn pattern_sample(p: Pattern, x: u32, y: u32, c: int) -> int {
    if c == 3 {
        255
    } else {
        match p {
            Pattern::Tiny => tiny_sample(x, y, c),
            Pattern::Gradient => gradient_sample(x, y, c),
            Pattern::Noise => noise_sample(x, y, c),
        }
    }
}

/// Color channel `c` of pixel `(x, y)` of the JPEG sample.
pub open spec fn tiny_sample(x: u32, y: u32, c: int) -> int {
    if c == 0 {
        (x * 31 + y * 17) % 256
    } else if c == 1 {
        128
    } else {
        (x * y) % 256
    }
}

/// Color channel `c` of pixel `(x, y)` of the PNG sample.
pub open spec fn gradient_sample(x: u32, y: u32, c: int) -> int {
    if c == 0 {
        (x * 13 + y * 7) % 256
    } else if c == 1 {
        (x + y) % 256
    } else {
        200
    }
}

/// Color channel `c` of pixel `(x, y)` of the noise image: multiplicative
/// hashes of the coordinates in wrapping 32-bit arithmetic, reduced modulo
/// 251, 253 and 249.
pub open spec fn noise_sample(x: u32, y: u32, c: int) -> int {
    if c == 0 {
        (x.wrapping_mul(2654435761).wrapping_add(y.wrapping_mul(40503)) % 251) as int
    } else if c == 1 {
        (x.wrapping_mul(2246822519).wrapping_add(y.wrapping_mul(3266489917)) % 253) as int
    } else {
        (x.wrapping_mul(668265263).wrapping_add(y.wrapping_mul(374761393)) % 249) as int
    }
}

/// The `w` x `h` 8-bit RGBA image of a pattern.
spec fn pattern_image(p: Pattern, w: u32, h: u32) -> BitmapView {
    BitmapView {
        kind: PixelKind::Rgba8,
        width: w as nat,
        height: h as nat,
        samples: Seq::new(
            (w * h * 4) as nat,
            |i: int| pattern_sample(p, ((i / 4) % (w as int)) as u32, ((i / 4) / (w as int)) as u32, i % 4),
        ),
    }
}

/// The pixels of the JPEG sample before encoding: 8x8 RGBA,
/// [`tiny_sample`] in the color channels, opaque.
pub open spec fn tiny_image() -> BitmapView {
    BitmapView {
        kind: PixelKind::Rgba8,
        width: 8,
        height: 8,
        samples: Seq::new(256, |i: int| if i % 4 == 3 { 255 } else { tiny_sample(((i / 4) % 8) as u32, ((i / 4) / 8) as u32, i % 4) }),
    }
}

/// The pixels of the `w` x `h` PNG sample before encoding: RGBA,
/// [`gradient_sample`] in the color channels, opaque.
pub open spec fn gradient_image(w: u32, h: u32) -> BitmapView {
    BitmapView {
        kind: PixelKind::Rgba8,
        width: w as nat,
        height: h as nat,
        samples: Seq::new(
            (w * h * 4) as nat,
            |i: int| if i % 4 == 3 { 255 } else { gradient_sample(((i / 4) % (w as int)) as u32, ((i / 4) / (w as int)) as u32, i % 4) },
        ),
    }
}

/// The `w` x `h` noise image: RGBA, [`noise_sample`] in the color channels,
/// opaque.
pub open spec fn noise_view(w: u32, h: u32) -> BitmapView {
    BitmapView {
        kind: PixelKind::Rgba8,
        width: w as nat,
        height: h as nat,
        samples: Seq::new(
            (w * h * 4) as nat,
            |i: int| if i % 4 == 3 { 255 } else { noise_sample(((i / 4) % (w as int)) as u32, ((i / 4) / (w as int)) as u32, i % 4) },
        ),
    }
}

fn pattern_at(p: Pattern, x: u32, y: u32, c: usize) -> (r: u8)
    requires
        c < 4,
    ensures
        r == pattern_sample(p, x, y, c as int),
{
    if c == 3 {
        return 255;
    }
    let (x64, y64) = (x as u64, y as u64);
    match p {
        Pattern::Tiny => {
            if c == 0 {
                ((x64 * 31 + y64 * 17) % 256) as u8
            } else if c == 1 {
                128
            } else {
                assert((x as int) * (y as int) <= 0xffff_ffff * 0xffff_ffff) by (nonlinear_arith)
                    requires x <= 0xffff_ffff, y <= 0xffff_ffff;
                assert(0 <= (x as int) * (y as int)) by (nonlinear_arith)
                    requires x >= 0, y >= 0;
                ((x64 * y64) % 256) as u8
            }
        },
        Pattern::Gradient => {
            if c == 0 {
                ((x64 * 13 + y64 * 7) % 256) as u8
            } else if c == 1 {
                ((x64 + y64) % 256) as u8
            } else {
                200
            }
        },
        Pattern::Noise => {
            if c == 0 {
                (x.wrapping_mul(2654435761).wrapping_add(y.wrapping_mul(40503)) % 251) as u8
            } else if c == 1 {
                (x.wrapping_mul(2246822519).wrapping_add(y.wrapping_mul(3266489917)) % 253) as u8
            } else {
                (x.wrapping_mul(668265263).wrapping_add(y.wrapping_mul(374761393)) % 249) as u8
            }
        },
    }
}

/// Draw a pattern as a `w` x `h` RGBA image.
fn draw(p: Pattern, w: u32, h: u32) -> (r: Bitmap)
    requires
        w * h * 4 <= usize::MAX,
    ensures
        r@ == pattern_image(p, w, h),
{
    let n = (w as usize) * (h as usize) * 4;
    let mut out: Vec<u8> = Vec::with_capacity(n);
    let mut i: usize = 0;
    while i < n
        invariant
            n == w * h * 4,
            i <= n,
            out@.len() == i,
            forall|j: int| 0 <= j < i ==> #[trigger] out@[j] as int == pattern_image(p, w, h).samples[j],
        decreases n - i,
    {
        proof {
            assert(w > 0) by (nonlinear_arith)
                requires 0 <= i < w * h * 4, h >= 0;
            lemma_decompose(w as int, h as int, 4, i as int);
        }
        let q = i / 4;
        let x = (q % (w as usize)) as u32;
        let y = (q / (w as usize)) as u32;
        let v = pattern_at(p, x, y, i % 4);
        out.push(v);
        i = i + 1;
    }
    let r = Bitmap::new(w, h, Pixels::Rgba8(out));
    proof {
        assert(Pixels::Rgba8(out).samples_spec() =~= pattern_image(p, w, h).samples);
    }
    match r {
        Some(b) => b,
        None => vstd::pervasive::unreached(),
    }
}

/// Deterministic 8x8 JPEG: [`tiny_image`] encoded at quality 90.
///
/// # Errors
///
/// [`MediaError::Encode`] when the encoder rejects the image.
pub fn tiny_jpeg() -> (r: Result<Vec<u8>, MediaError>)
    ensures
        result_view(r, |b: Vec<u8>| bytes_view(b)) == encode_spec(tiny_image(), OutFormat::Jpeg(90)),
        r matches Ok(b) ==> has_signature(b@, Format::Jpeg),
{
    let img = draw(Pattern::Tiny, 8, 8);
    proof {
        assert(img@.samples =~= tiny_image().samples);
    }
    encode(&img, &OutFormat::Jpeg(90))
}

/// Deterministic PNG of arbitrary size: [`gradient_image`] encoded as PNG.
///
/// # Errors
///
/// [`MediaError::Encode`] when the encoder rejects the image.
pub fn tiny_png(w: u32, h: u32) -> (r: Result<Vec<u8>, MediaError>)
    requires
        w * h * 4 <= usize::MAX,
    ensures
        result_view(r, |b: Vec<u8>| bytes_view(b)) == encode_spec(gradient_image(w, h), OutFormat::Png),
        r matches Ok(b) ==> has_signature(b@, Format::Png),
{
    let img = draw(Pattern::Gradient, w, h);
    proof {
        assert(img@.samples =~= gradient_image(w, h).samples);
    }
    encode(&img, &OutFormat::Png)
}

/// Deterministic pseudo-noise RGB image (exercises encoders better than
/// flat colors): [`noise_view`].
pub fn noise_image(w: u32, h: u32) -> (r: Bitmap)
    requires
        w * h * 4 <= usize::MAX,
    ensures
        r@ == noise_view(w, h),
{
    let img = draw(Pattern::Noise, w, h);
    proof {
        assert(img@.samples =~= noise_view(w, h).samples);
    }
    img
}

} // verus!
