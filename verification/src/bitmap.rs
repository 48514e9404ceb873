//! Decoded raster images as plain values.
//!
//! A [`Bitmap`] holds what the rest of the library reads of a decoded image:
//! its pixel layout, its dimensions and its samples in row-major order. The
//! pixel-shuffling operations of the `image` crate (flips, quarter turns,
//! crops) are reached through this module and specified exactly over the
//! mathematical model [`BitmapView`].

use vstd::arithmetic::div_mod::{
    lemma_fundamental_div_mod, lemma_fundamental_div_mod_converse, lemma_mod_pos_bound,
};
use vstd::prelude::*;

use image::DynamicImage;
use image::DynamicImage::{
    ImageLuma16, ImageLuma8, ImageLumaA16, ImageLumaA8, ImageRgb16, ImageRgb8, ImageRgba16,
    ImageRgba8,
};
use image::ImageBuffer as Buf;

use crate::bitmap::Pixels::{L16, L8, La16, La8, Rgb16, Rgb8, Rgba16, Rgba8};

verus! {

/// The `image` crate's decoded image, carried opaquely across its calls.
#[verifier::external_type_specification]
#[verifier::external_body]
pub struct ExDynamicImage(image::DynamicImage);

/// Pixel layouts a [`Bitmap`] can hold: 8- and 16-bit luma, luma+alpha,
/// RGB and RGBA.
#[derive(Debug, Clone, Copy, PartialEq, Eq, Structural)]
pub enum PixelKind {
    /// 8-bit luma.
    L8,
    /// 8-bit luma with alpha.
    La8,
    /// 8-bit RGB.
    Rgb8,
    /// 8-bit RGBA.
    Rgba8,
    /// 16-bit luma.
    L16,
    /// 16-bit luma with alpha.
    La16,
    /// 16-bit RGB.
    Rgb16,
    /// 16-bit RGBA.
    Rgba16,
}

impl PixelKind {
    /// Samples per pixel.
    pub open spec fn channels_spec(self) -> nat {
        match self {
            PixelKind::L8 | PixelKind::L16 => 1,
            PixelKind::La8 | PixelKind::La16 => 2,
            PixelKind::Rgb8 | PixelKind::Rgb16 => 3,
            PixelKind::Rgba8 | PixelKind::Rgba16 => 4,
        }
    }

    /// Samples are bytes (as opposed to 16-bit words).
    pub open spec fn is_eight_bit(self) -> bool {
        match self {
            PixelKind::L8 | PixelKind::La8 | PixelKind::Rgb8 | PixelKind::Rgba8 => true,
            _ => false,
        }
    }

    /// Largest sample value.
    pub open spec fn max_sample(self) -> int {
        if self.is_eight_bit() {
            255
        } else {
            65535
        }
    }

    /// Samples per pixel.
    pub fn channels(&self) -> (r: usize)
        ensures
            r == self.channels_spec(),
            1 <= r <= 4,
    {
        match self {
            PixelKind::L8 | PixelKind::L16 => 1,
            PixelKind::La8 | PixelKind::La16 => 2,
            PixelKind::Rgb8 | PixelKind::Rgb16 => 3,
            PixelKind::Rgba8 | PixelKind::Rgba16 => 4,
        }
    }
}

/// Samples of an image, tagged by layout, in row-major order with the
/// channels of each pixel adjacent.
#[derive(Debug, PartialEq, Eq)]
pub enum Pixels {
    L8(Vec<u8>),
    La8(Vec<u8>),
    Rgb8(Vec<u8>),
    Rgba8(Vec<u8>),
    L16(Vec<u16>),
    La16(Vec<u16>),
    Rgb16(Vec<u16>),
    Rgba16(Vec<u16>),
}

/// Byte samples as integers.
pub open spec fn bytes_as_ints(v: Seq<u8>) -> Seq<int> {
    v.map_values(|b: u8| b as int)
}

/// 16-bit samples as integers.
pub open spec fn words_as_ints(v: Seq<u16>) -> Seq<int> {
    v.map_values(|b: u16| b as int)
}

impl Pixels {
    /// The layout tag.
    pub open spec fn kind_spec(self) -> PixelKind {
        match self {
            Pixels::L8(_) => PixelKind::L8,
            Pixels::La8(_) => PixelKind::La8,
            Pixels::Rgb8(_) => PixelKind::Rgb8,
            Pixels::Rgba8(_) => PixelKind::Rgba8,
            Pixels::L16(_) => PixelKind::L16,
            Pixels::La16(_) => PixelKind::La16,
            Pixels::Rgb16(_) => PixelKind::Rgb16,
            Pixels::Rgba16(_) => PixelKind::Rgba16,
        }
    }

    /// The samples as integers.
    pub open spec fn samples_spec(self) -> Seq<int> {
        match self {
            Pixels::L8(v) | Pixels::La8(v) | Pixels::Rgb8(v) | Pixels::Rgba8(v) => bytes_as_ints(v@),
            Pixels::L16(v) | Pixels::La16(v) | Pixels::Rgb16(v) | Pixels::Rgba16(v) => words_as_ints(
                v@,
            ),
        }
    }

    /// The layout tag.
    pub fn kind(&self) -> (r: PixelKind)
        ensures
            r == self.kind_spec(),
    {
        match self {
            Pixels::L8(_) => PixelKind::L8,
            Pixels::La8(_) => PixelKind::La8,
            Pixels::Rgb8(_) => PixelKind::Rgb8,
            Pixels::Rgba8(_) => PixelKind::Rgba8,
            Pixels::L16(_) => PixelKind::L16,
            Pixels::La16(_) => PixelKind::La16,
            Pixels::Rgb16(_) => PixelKind::Rgb16,
            Pixels::Rgba16(_) => PixelKind::Rgba16,
        }
    }

    /// Number of samples.
    pub fn len(&self) -> (r: usize)
        ensures
            r == self.samples_spec().len(),
    {
        match self {
            Pixels::L8(v) | Pixels::La8(v) | Pixels::Rgb8(v) | Pixels::Rgba8(v) => v.len(),
            Pixels::L16(v) | Pixels::La16(v) | Pixels::Rgb16(v) | Pixels::Rgba16(v) => v.len(),
        }
    }

    /// Sample `i` widened to 16 bits.
    pub fn get(&self, i: usize) -> (r: u16)
        requires
            i < self.samples_spec().len(),
        ensures
            r == self.samples_spec()[i as int],
    {
        match self {
            Pixels::L8(v) | Pixels::La8(v) | Pixels::Rgb8(v) | Pixels::Rgba8(v) => v[i] as u16,
            Pixels::L16(v) | Pixels::La16(v) | Pixels::Rgb16(v) | Pixels::Rgba16(v) => v[i],
        }
    }
}

fn clone_bytes(v: &Vec<u8>) -> (r: Vec<u8>)
    ensures
        r@ == v@,
{
    let r = v.clone();
    assert(r@ =~= v@);
    r
}

fn clone_words(v: &Vec<u16>) -> (r: Vec<u16>)
    ensures
        r@ == v@,
{
    let r = v.clone();
    assert(r@ =~= v@);
    r
}

impl Clone for Pixels {
    fn clone(&self) -> (r: Self)
        ensures
            r.kind_spec() == self.kind_spec(),
            r.samples_spec() == self.samples_spec(),
    {
        match self {
            Pixels::L8(v) => Pixels::L8(clone_bytes(v)),
            Pixels::La8(v) => Pixels::La8(clone_bytes(v)),
            Pixels::Rgb8(v) => Pixels::Rgb8(clone_bytes(v)),
            Pixels::Rgba8(v) => Pixels::Rgba8(clone_bytes(v)),
            Pixels::L16(v) => Pixels::L16(clone_words(v)),
            Pixels::La16(v) => Pixels::La16(clone_words(v)),
            Pixels::Rgb16(v) => Pixels::Rgb16(clone_words(v)),
            Pixels::Rgba16(v) => Pixels::Rgba16(clone_words(v)),
        }
    }
}

/// A decoded image: layout, dimensions and samples.
#[derive(Debug, PartialEq, Eq)]
pub struct Bitmap {
    width: u32,
    height: u32,
    pixels: Pixels,
}

/// The mathematical model of a [`Bitmap`].
pub struct BitmapView {
    pub kind: PixelKind,
    pub width: nat,
    pub height: nat,
    pub samples: Seq<int>,
}

impl BitmapView {
    /// Samples per pixel.
    pub open spec fn channels(self) -> nat {
        self.kind.channels_spec()
    }

    /// Position of sample `c` of pixel `(x, y)` in [`Self::samples`].
    pub open spec fn index(self, x: int, y: int, c: int) -> int {
        (y * self.width + x) * self.channels() + c
    }

    /// Sample `c` of pixel `(x, y)`.
    pub open spec fn sample(self, x: int, y: int, c: int) -> int {
        self.samples[self.index(x, y, c)]
    }

    /// `(x, y, c)` names a sample inside the image.
    pub open spec fn in_bounds(self, x: int, y: int, c: int) -> bool {
        0 <= x < self.width && 0 <= y < self.height && 0 <= c < self.channels()
    }

    /// Dimensions fit `u32`, the sample count matches them and every
    /// sample fits the layout's depth.
    pub open spec fn wf(self) -> bool {
        &&& self.width <= u32::MAX
        &&& self.height <= u32::MAX
        &&& self.samples.len() == self.width * self.height * self.channels()
        &&& forall|i: int| 0 <= i < self.samples.len() ==> 0 <= #[trigger] self.samples[i] <= self.kind.max_sample()
    }
}

impl View for Bitmap {
    type V = BitmapView;

    closed spec fn view(&self) -> BitmapView {
        BitmapView {
            kind: self.pixels.kind_spec(),
            width: self.width as nat,
            height: self.height as nat,
            samples: self.pixels.samples_spec(),
        }
    }
}

impl Clone for Bitmap {
    fn clone(&self) -> (r: Self)
        ensures
            r@ == self@,
    {
        proof {
            use_type_invariant(self);
        }
        Bitmap { width: self.width, height: self.height, pixels: self.pixels.clone() }
    }
}

impl Bitmap {
    #[verifier::type_invariant]
    spec fn inv(self) -> bool {
        self.pixels.samples_spec().len() == (self.width as nat) * (self.height as nat)
            * self.pixels.kind_spec().channels_spec()
    }

    /// The model of a bitmap is always well formed.
    pub fn lemma_wf(&self)
        ensures
            self@.wf(),
    {
        proof {
            use_type_invariant(self);
            let s = self.pixels.samples_spec();
            assert forall|i: int| 0 <= i < s.len() implies 0 <= #[trigger] s[i] <= self@.kind.max_sample() by {
                match self.pixels {
                    Pixels::L8(v) | Pixels::La8(v) | Pixels::Rgb8(v) | Pixels::Rgba8(v) => {
                        assert(s[i] == v@[i] as int);
                    },
                    Pixels::L16(v) | Pixels::La16(v) | Pixels::Rgb16(v) | Pixels::Rgba16(v) => {
                        assert(s[i] == v@[i] as int);
                    },
                }
            }
        }
    }

    /// A bitmap of the given dimensions over `pixels`, or `None` when the
    /// sample count is not `width * height * channels`.
    pub fn new(width: u32, height: u32, pixels: Pixels) -> (r: Option<Bitmap>)
        ensures
            r is Some <==> pixels.samples_spec().len() == (width as nat) * (height as nat)
                * pixels.kind_spec().channels_spec(),
            r matches Some(b) ==> b@ == (BitmapView {
                kind: pixels.kind_spec(),
                width: width as nat,
                height: height as nat,
                samples: pixels.samples_spec(),
            }),
    {
        let c = pixels.kind().channels();
        let len = pixels.len();
        let wh = (width as usize).checked_mul(height as usize);
        let total = match wh {
            Some(wh) => wh.checked_mul(c),
            None => None,
        };
        proof {
            if wh is None {
                assert(len <= usize::MAX);
                assert((width as nat) * (height as nat) * (c as nat) >= (width as nat) * (height as nat)) by (nonlinear_arith)
                    requires c >= 1;
            }
        }
        match total {
            Some(n) => {
                if n == len {
                    Some(Bitmap { width, height, pixels })
                } else {
                    None
                }
            },
            None => None,
        }
    }

    /// Width in pixels.
    pub fn width(&self) -> (r: u32)
        ensures
            r == self@.width,
    {
        self.width
    }

    /// Height in pixels.
    pub fn height(&self) -> (r: u32)
        ensures
            r == self@.height,
    {
        self.height
    }

    /// Pixel layout.
    pub fn kind(&self) -> (r: PixelKind)
        ensures
            r == self@.kind,
    {
        self.pixels.kind()
    }

    /// The samples.
    pub fn pixels(&self) -> (r: &Pixels)
        ensures
            r.kind_spec() == self@.kind,
            r.samples_spec() == self@.samples,
    {
        &self.pixels
    }

    /// Sample `c` of pixel `(x, y)`, widened to 16 bits.
    pub fn sample(&self, x: u32, y: u32, c: usize) -> (r: u16)
        requires
            self@.in_bounds(x as int, y as int, c as int),
        ensures
            r == self@.sample(x as int, y as int, c as int),
    {
        proof {
            use_type_invariant(self);
            lemma_compose(self@.width as int, self@.height as int, self@.channels() as int, x as int, y as int, c as int);
        }
        let ch = self.pixels.kind().channels();
        let len = self.pixels.len();
        proof {
            let (w, h) = (self@.width as int, self@.height as int);
            assert((y as int) * w + (x as int) <= w * h) by (nonlinear_arith)
                requires x < w, y < h, 0 <= x, 0 <= y;
            assert(w * h <= w * h * (ch as int)) by (nonlinear_arith)
                requires ch >= 1, w >= 0, h >= 0;
            assert(0 <= (y as int) * w) by (nonlinear_arith)
                requires 0 <= y, 0 <= w;
        }
        let i = ((y as usize) * (self.width as usize) + (x as usize)) * ch + c;
        self.pixels.get(i)
    }
}

/// Sample positions decompose uniquely into pixel and channel: the sample of
/// `(x, y, c)` sits before `width * height * channels`, and dividing its
/// position back recovers `x`, `y` and `c`.
pub proof fn lemma_compose(w: int, h: int, ch: int, x: int, y: int, c: int)
    requires
        0 <= x < w,
        0 <= y < h,
        0 <= c < ch,
    ensures
        0 <= (y * w + x) * ch + c < w * h * ch,
        ((y * w + x) * ch + c) / ch == y * w + x,
        ((y * w + x) * ch + c) % ch == c,
        (y * w + x) % w == x,
        (y * w + x) / w == y,
{
    let p = y * w + x;
    assert(0 <= p < w * h) by (nonlinear_arith)
        requires 0 <= x < w, 0 <= y < h, p == y * w + x;
    assert(0 <= p * ch + c < w * h * ch) by (nonlinear_arith)
        requires 0 <= p < w * h, 0 <= c < ch;
    lemma_fundamental_div_mod_converse(p * ch + c, ch, p, c);
    lemma_fundamental_div_mod_converse(p, w, y, x);
}

/// Every sample position below `width * height * channels` is the position
/// of some in-bounds `(x, y, c)`.
pub proof fn lemma_decompose(w: int, h: int, ch: int, i: int)
    requires
        0 < w,
        0 < ch,
        0 <= i < w * h * ch,
    ensures
        0 <= (i / ch) % w < w,
        0 <= (i / ch) / w < h,
        0 <= i % ch < ch,
        ((i / ch) / w * w + (i / ch) % w) * ch + i % ch == i,
{
    let p = i / ch;
    lemma_fundamental_div_mod(i, ch);
    lemma_mod_pos_bound(i, ch);
    assert(0 <= p) by (nonlinear_arith)
        requires 0 <= i, 0 < ch, p == i / ch;
    assert(p < w * h) by (nonlinear_arith)
        requires i < w * h * ch, i == ch * p + i % ch, 0 <= i % ch, 0 < ch;
    lemma_fundamental_div_mod(p, w);
    lemma_mod_pos_bound(p, w);
    assert(0 <= p / w < h) by (nonlinear_arith)
        requires 0 <= p < w * h, p == w * (p / w) + p % w, 0 <= p % w < w, 0 < w;
    assert((p / w * w + p % w) * ch + i % ch == i) by (nonlinear_arith)
        requires p == w * (p / w) + p % w, i == ch * p + i % ch;
}


/// The image that `src` maps each pixel of a `w` x `h` target from: sample
/// `c` of target pixel `(x, y)` is sample `c` of source pixel `src(x, y)`.
pub open spec fn remap(m: BitmapView, w: nat, h: nat, src: spec_fn(int, int) -> (int, int)) -> BitmapView {
    BitmapView {
        kind: m.kind,
        width: w,
        height: h,
        samples: Seq::new(
            w * h * m.channels(),
            |i: int|
                {
                    let p = i / (m.channels() as int);
                    let s = src(p % (w as int), p / (w as int));
                    m.sample(s.0, s.1, i % (m.channels() as int))
                },
        ),
    }
}

/// `src` sends every pixel of a `w` x `h` target inside a `w0` x `h0` source.
pub open spec fn maps_into(src: spec_fn(int, int) -> (int, int), w: nat, h: nat, w0: nat, h0: nat) -> bool {
    forall|x: int, y: int|
        0 <= x < w && 0 <= y < h ==> 0 <= (#[trigger] src(x, y)).0 < w0 && 0 <= src(x, y).1 < h0
}

/// Mirror left-right: target `(x, y)` comes from `(w - 1 - x, y)`.
pub open spec fn flip_h(m: BitmapView) -> BitmapView {
    remap(m, m.width, m.height, |x: int, y: int| (m.width - 1 - x, y))
}

/// Mirror top-bottom: target `(x, y)` comes from `(x, h - 1 - y)`.
pub open spec fn flip_v(m: BitmapView) -> BitmapView {
    remap(m, m.width, m.height, |x: int, y: int| (x, m.height - 1 - y))
}

/// Quarter turn clockwise (dimensions swap): target `(x, y)` comes from
/// `(y, h - 1 - x)`.
pub open spec fn rotate90(m: BitmapView) -> BitmapView {
    remap(m, m.height, m.width, |x: int, y: int| (y, m.height - 1 - x))
}

/// Half turn: target `(x, y)` comes from `(w - 1 - x, h - 1 - y)`.
pub open spec fn rotate180(m: BitmapView) -> BitmapView {
    remap(m, m.width, m.height, |x: int, y: int| (m.width - 1 - x, m.height - 1 - y))
}

/// Three quarter turns clockwise (dimensions swap): target `(x, y)` comes
/// from `(w - 1 - y, x)`.
pub open spec fn rotate270(m: BitmapView) -> BitmapView {
    remap(m, m.height, m.width, |x: int, y: int| (m.width - 1 - y, x))
}

/// The `w` x `h` window whose top-left corner is `(x0, y0)`.
pub open spec fn window(m: BitmapView, x0: int, y0: int, w: nat, h: nat) -> BitmapView {
    remap(m, w, h, |x: int, y: int| (x0 + x, y0 + y))
}

/// Sample `c` of target pixel `(x, y)` of a remapped image is sample `c` of
/// the source pixel it comes from.
pub proof fn lemma_remap_sample(
    m: BitmapView,
    w: nat,
    h: nat,
    src: spec_fn(int, int) -> (int, int),
    x: int,
    y: int,
    c: int,
)
    requires
        0 <= x < w,
        0 <= y < h,
        0 <= c < m.channels(),
    ensures
        remap(m, w, h, src).sample(x, y, c) == m.sample(src(x, y).0, src(x, y).1, c),
{
    lemma_compose(w as int, h as int, m.channels() as int, x, y, c);
}

/// Remapping a well-formed image inside its bounds gives a well-formed
/// image.
pub proof fn lemma_remap_wf(m: BitmapView, w: nat, h: nat, src: spec_fn(int, int) -> (int, int))
    requires
        m.wf(),
        w <= u32::MAX,
        h <= u32::MAX,
        maps_into(src, w, h, m.width, m.height),
    ensures
        remap(m, w, h, src).wf(),
{
    let r = remap(m, w, h, src);
    let ch = m.channels() as int;
    assert forall|i: int| 0 <= i < r.samples.len() implies 0 <= #[trigger] r.samples[i] <= r.kind.max_sample() by {
        if w == 0 {
            assert(w * h * m.channels() == 0) by (nonlinear_arith)
                requires w == 0;
        } else {
            lemma_decompose(w as int, h as int, ch, i);
            let p = i / ch;
            let s = src(p % (w as int), p / (w as int));
            lemma_compose(m.width as int, m.height as int, ch, s.0, s.1, i % ch);
        }
    }
}

/// Two well-formed images of the same layout and dimensions that agree on
/// every sample are equal.
pub proof fn lemma_view_ext(a: BitmapView, b: BitmapView)
    requires
        a.wf(),
        b.wf(),
        a.kind == b.kind,
        a.width == b.width,
        a.height == b.height,
        forall|x: int, y: int, c: int| a.in_bounds(x, y, c) ==> #[trigger] a.sample(x, y, c) == b.sample(x, y, c),
    ensures
        a == b,
{
    let ch = a.channels() as int;
    if a.width == 0 {
        assert(a.width * a.height * a.channels() == 0) by (nonlinear_arith)
            requires a.width == 0;
    }
    assert forall|i: int| 0 <= i < a.samples.len() implies a.samples[i] == b.samples[i] by {
        lemma_decompose(a.width as int, a.height as int, ch, i);
        let p = i / ch;
        assert(a.in_bounds(p % (a.width as int), p / (a.width as int), i % ch));
        assert(a.sample(p % (a.width as int), p / (a.width as int), i % ch) == a.samples[i]);
    }
    assert(a.samples =~= b.samples);
}

/// Moves a bitmap into the `image` crate's `DynamicImage` of the same layout
/// (`ImageBuffer::from_raw`). Conversion only; the sample count always fits
/// the dimensions, so `from_raw` never falls back to the empty buffer.
#[verifier::external_body]
pub(crate) fn into_dynamic(b: Bitmap) -> DynamicImage {
    let (w, h) = (b.width, b.height);
    let d = match b.pixels {
        L8(v) => Buf::from_raw(w, h, v).map(ImageLuma8),
        La8(v) => Buf::from_raw(w, h, v).map(ImageLumaA8),
        Rgb8(v) => Buf::from_raw(w, h, v).map(ImageRgb8),
        Rgba8(v) => Buf::from_raw(w, h, v).map(ImageRgba8),
        L16(v) => Buf::from_raw(w, h, v).map(ImageLuma16),
        La16(v) => Buf::from_raw(w, h, v).map(ImageLumaA16),
        Rgb16(v) => Buf::from_raw(w, h, v).map(ImageRgb16),
        Rgba16(v) => Buf::from_raw(w, h, v).map(ImageRgba16),
    };
    d.unwrap_or_default()
}

/// Moves a `DynamicImage` into a bitmap of the same layout
/// (`ImageBuffer::into_raw`); `None` for the floating-point layouts, which
/// a bitmap does not hold. Conversion only.
#[verifier::external_body]
pub(crate) fn from_dynamic(d: DynamicImage) -> Option<Bitmap> {
    let (width, height) = (d.width(), d.height());
    let pixels = match d {
        ImageLuma8(b) => L8(b.into_raw()),
        ImageLumaA8(b) => La8(b.into_raw()),
        ImageRgb8(b) => Rgb8(b.into_raw()),
        ImageRgba8(b) => Rgba8(b.into_raw()),
        ImageLuma16(b) => L16(b.into_raw()),
        ImageLumaA16(b) => La16(b.into_raw()),
        ImageRgb16(b) => Rgb16(b.into_raw()),
        ImageRgba16(b) => Rgba16(b.into_raw()),
        _ => return None,
    };
    Some(Bitmap { width, height, pixels })
}


/// Mirrors left-right with `DynamicImage::fliph`. Trusted: `imageops::flip_horizontal_in` writes source pixel `(x, y)` to `(w - 1 - x, y)` of a buffer of the same layout and dimensions.
#[verifier::external_body]
fn dyn_fliph(img: &Bitmap) -> (r: Option<Bitmap>)
    ensures
        r.is_some() && r.unwrap()@ == flip_h(img@),
{
    from_dynamic(into_dynamic(img.clone()).fliph())
}

/// Mirrors top-bottom with `DynamicImage::flipv`. Trusted: `imageops::flip_vertical_in` writes source pixel `(x, y)` to `(x, h - 1 - y)` of a buffer of the same layout and dimensions.
#[verifier::external_body]
fn dyn_flipv(img: &Bitmap) -> (r: Option<Bitmap>)
    ensures
        r.is_some() && r.unwrap()@ == flip_v(img@),
{
    from_dynamic(into_dynamic(img.clone()).flipv())
}

/// Quarter turn clockwise with `DynamicImage::rotate90`. Trusted: `imageops::rotate90_in` writes source pixel `(x, y)` to `(h - 1 - y, x)` of an `h` x `w` buffer of the same layout.
#[verifier::external_body]
fn dyn_rotate90(img: &Bitmap) -> (r: Option<Bitmap>)
    ensures
        r.is_some() && r.unwrap()@ == rotate90(img@),
{
    from_dynamic(into_dynamic(img.clone()).rotate90())
}

/// Half turn with `DynamicImage::rotate180`. Trusted: `imageops::rotate180_in` writes source pixel `(x, y)` to `(w - 1 - x, h - 1 - y)` of a buffer of the same layout and dimensions.
#[verifier::external_body]
fn dyn_rotate180(img: &Bitmap) -> (r: Option<Bitmap>)
    ensures
        r.is_some() && r.unwrap()@ == rotate180(img@),
{
    from_dynamic(into_dynamic(img.clone()).rotate180())
}

/// Three quarter turns clockwise with `DynamicImage::rotate270`. Trusted: `imageops::rotate270_in` writes source pixel `(x, y)` to `(y, w - 1 - x)` of an `h` x `w` buffer of the same layout.
#[verifier::external_body]
fn dyn_rotate270(img: &Bitmap) -> (r: Option<Bitmap>)
    ensures
        r.is_some() && r.unwrap()@ == rotate270(img@),
{
    from_dynamic(into_dynamic(img.clone()).rotate270())
}

/// The window that `DynamicImage::crop_imm(x, y, w, h)` cuts: the corner is
/// clamped into the image and the size to what remains right of and below it.
pub open spec fn crop_spec(m: BitmapView, x: nat, y: nat, w: nat, h: nat) -> BitmapView {
    let x0 = if x <= m.width { x } else { m.width };
    let y0 = if y <= m.height { y } else { m.height };
    let cw = if w <= m.width - x0 { w } else { (m.width - x0) as nat };
    let ch = if h <= m.height - y0 { h } else { (m.height - y0) as nat };
    window(m, x0 as int, y0 as int, cw, ch)
}

/// Cuts a window with `DynamicImage::crop_imm`. Trusted: `imageops::crop_imm`
/// clamps the rectangle with `crop_dimms` and copies the sub-image pixel by
/// pixel, in the same layout.
#[verifier::external_body]
fn dyn_crop(img: &Bitmap, x: u32, y: u32, w: u32, h: u32) -> (r: Option<Bitmap>)
    ensures
        r.is_some() && r.unwrap()@ == crop_spec(img@, x as nat, y as nat, w as nat, h as nat),
{
    from_dynamic(into_dynamic(img.clone()).crop_imm(x, y, w, h))
}

/// The bitmap inside an option that is known to hold one.
pub(crate) fn take_bitmap(r: Option<Bitmap>) -> (b: Bitmap)
    requires
        r is Some,
    ensures
        r == Some(b),
{
    match r {
        Some(b) => b,
        None => vstd::pervasive::unreached(),
    }
}

impl Bitmap {
    /// Mirror left-right.
    pub fn fliph(&self) -> (r: Bitmap)
        ensures
            r@ == flip_h(self@),
    {
        take_bitmap(dyn_fliph(self))
    }

    /// Mirror top-bottom.
    pub fn flipv(&self) -> (r: Bitmap)
        ensures
            r@ == flip_v(self@),
    {
        take_bitmap(dyn_flipv(self))
    }

    /// Rotate 90 degrees clockwise.
    pub fn rotate90(&self) -> (r: Bitmap)
        ensures
            r@ == rotate90(self@),
    {
        take_bitmap(dyn_rotate90(self))
    }

    /// Rotate 180 degrees.
    pub fn rotate180(&self) -> (r: Bitmap)
        ensures
            r@ == rotate180(self@),
    {
        take_bitmap(dyn_rotate180(self))
    }

    /// Rotate 270 degrees clockwise.
    pub fn rotate270(&self) -> (r: Bitmap)
        ensures
            r@ == rotate270(self@),
    {
        take_bitmap(dyn_rotate270(self))
    }

    /// The window with corner `(x, y)` and size `w` x `h`, clamped to the
    /// image.
    pub fn crop_imm(&self, x: u32, y: u32, w: u32, h: u32) -> (r: Bitmap)
        ensures
            r@ == crop_spec(self@, x as nat, y as nat, w as nat, h as nat),
    {
        take_bitmap(dyn_crop(self, x, y, w, h))
    }
}


/// Pixel sources and well-formedness of the five lossless shuffles.
pub proof fn lemma_shuffles(m: BitmapView)
    requires
        m.wf(),
    ensures
        flip_h(m).wf(),
        flip_v(m).wf(),
        rotate90(m).wf(),
        rotate180(m).wf(),
        rotate270(m).wf(),
        forall|x: int, y: int, c: int| #[trigger] m.in_bounds(x, y, c) ==> {
            &&& flip_h(m).sample(x, y, c) == m.sample(m.width - 1 - x, y, c)
            &&& flip_v(m).sample(x, y, c) == m.sample(x, m.height - 1 - y, c)
            &&& rotate180(m).sample(x, y, c) == m.sample(m.width - 1 - x, m.height - 1 - y, c)
        },
        forall|x: int, y: int, c: int|
            #![trigger rotate90(m).sample(x, y, c)]
            #![trigger rotate270(m).sample(x, y, c)]
            0 <= x < m.height && 0 <= y < m.width && 0 <= c < m.channels() ==> {
                &&& rotate90(m).sample(x, y, c) == m.sample(y, m.height - 1 - x, c)
                &&& rotate270(m).sample(x, y, c) == m.sample(m.width - 1 - y, x, c)
            },
{
    let (w, h) = (m.width, m.height);
    lemma_remap_wf(m, w, h, |x: int, y: int| (m.width - 1 - x, y));
    lemma_remap_wf(m, w, h, |x: int, y: int| (x, m.height - 1 - y));
    lemma_remap_wf(m, h, w, |x: int, y: int| (y, m.height - 1 - x));
    lemma_remap_wf(m, w, h, |x: int, y: int| (m.width - 1 - x, m.height - 1 - y));
    lemma_remap_wf(m, h, w, |x: int, y: int| (m.width - 1 - y, x));
    assert forall|x: int, y: int, c: int| #[trigger] m.in_bounds(x, y, c) implies {
        &&& flip_h(m).sample(x, y, c) == m.sample(m.width - 1 - x, y, c)
        &&& flip_v(m).sample(x, y, c) == m.sample(x, m.height - 1 - y, c)
        &&& rotate180(m).sample(x, y, c) == m.sample(m.width - 1 - x, m.height - 1 - y, c)
    } by {
        lemma_remap_sample(m, w, h, |x: int, y: int| (m.width - 1 - x, y), x, y, c);
        lemma_remap_sample(m, w, h, |x: int, y: int| (x, m.height - 1 - y), x, y, c);
        lemma_remap_sample(m, w, h, |x: int, y: int| (m.width - 1 - x, m.height - 1 - y), x, y, c);
    }
    assert forall|x: int, y: int, c: int|
        #![trigger rotate90(m).sample(x, y, c)]
        #![trigger rotate270(m).sample(x, y, c)]
        0 <= x < m.height && 0 <= y < m.width && 0 <= c < m.channels() implies {
            &&& rotate90(m).sample(x, y, c) == m.sample(y, m.height - 1 - x, c)
            &&& rotate270(m).sample(x, y, c) == m.sample(m.width - 1 - y, x, c)
        } by {
        lemma_remap_sample(m, h, w, |x: int, y: int| (y, m.height - 1 - x), x, y, c);
        lemma_remap_sample(m, h, w, |x: int, y: int| (m.width - 1 - y, x), x, y, c);
    }
}


/// What `image::load_from_memory` makes of these bytes (format guessed from
/// the content): the decoded image as a bitmap, `None` when it decodes to a
/// floating-point layout that a bitmap does not hold, or the decoder's
/// error message.
pub uninterp spec fn decoded(bytes: Seq<u8>) -> Result<Option<BitmapView>, Seq<char>>;

/// Decodes with `image::load_from_memory`. Trusted: the outcome is a
/// function of the bytes ([`decoded`]).
#[verifier::external_body]
fn load_from_memory(bytes: &[u8]) -> (r: Result<Option<Bitmap>, String>)
    ensures
        match decoded(bytes@) {
            Ok(Some(m)) => r matches Ok(Some(b)) && b@ == m,
            Ok(None) => r matches Ok(None),
            Err(e) => r matches Err(s) && s@ == e,
        },
{
    let img = image::load_from_memory(bytes).map_err(|e| e.to_string())?;
    Ok(from_dynamic(img))
}

/// What [`decode`] returns.
pub open spec fn decode_spec(bytes: Seq<u8>) -> Result<BitmapView, crate::error::MediaErrorView> {
    match decoded(bytes) {
        Ok(Some(m)) => Ok(m),
        Ok(None) => Err(crate::error::MediaErrorView::Decode("unsupported floating-point pixel layout"@)),
        Err(e) => Err(crate::error::MediaErrorView::Decode(e)),
    }
}

/// The view of a bitmap.
pub open spec fn bitmap_view(b: Bitmap) -> BitmapView {
    b@
}

/// Decode encoded image bytes (format guessed from the content).
///
/// # Errors
///
/// [`crate::MediaError::Decode`] when the decoder fails, or the image uses
/// a floating-point layout.
pub fn decode(bytes: &[u8]) -> (r: Result<Bitmap, crate::error::MediaError>)
    ensures
        crate::error::result_view(r, |b: Bitmap| bitmap_view(b)) == decode_spec(bytes@),
{
    match load_from_memory(bytes) {
        Ok(Some(b)) => Ok(b),
        Ok(None) => Err(crate::error::MediaError::Decode("unsupported floating-point pixel layout".to_owned())),
        Err(e) => Err(crate::error::MediaError::Decode(e)),
    }
}


/// The RGBA 8-bit samples that `DynamicImage::to_rgba8` produces for an
/// image (a color-space cast for every other layout).
pub uninterp spec fn rgba8_samples(m: BitmapView) -> Seq<int>;

/// `m` as 8-bit RGBA: the same size, with samples [`rgba8_samples`]; an
/// RGBA 8-bit image is left as it is.
pub open spec fn as_rgba8(m: BitmapView) -> BitmapView {
    BitmapView {
        kind: PixelKind::Rgba8,
        width: m.width,
        height: m.height,
        samples: if m.kind == PixelKind::Rgba8 {
            m.samples
        } else {
            rgba8_samples(m)
        },
    }
}

/// Converts with `DynamicImage::to_rgba8`. Trusted: the result is RGBA
/// 8-bit of the same size; an RGBA 8-bit source is cloned as it is (the
/// method's first match arm), any other layout is cast to the samples
/// [`rgba8_samples`] names.
#[verifier::external_body]
fn dyn_to_rgba8(img: &Bitmap) -> (r: Option<Bitmap>)
    ensures
        r.is_some() && r.unwrap()@ == as_rgba8(img@),
        img@.kind != PixelKind::Rgba8 ==> r.unwrap()@.samples == rgba8_samples(img@),
{
    from_dynamic(DynamicImage::ImageRgba8(into_dynamic(img.clone()).to_rgba8()))
}

impl Bitmap {
    /// A copy of this image as 8-bit RGBA.
    pub fn to_rgba8(&self) -> (r: Bitmap)
        ensures
            r@ == as_rgba8(self@),
    {
        take_bitmap(dyn_to_rgba8(self))
    }
}

} // verus!
