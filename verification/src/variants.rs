//! Multi-size output generation ("thumb", "medium", "large", ...).
//!
//! One decoded image, N variants: each variant resizes the source to its
//! fit and encodes it to its format, in declaration order. Decoded input and
//! per-variant outputs are independent, so the outputs do not depend on the
//! order or the thread in which variants are produced.

use vstd::prelude::*;

use crate::bitmap::{decode, decode_spec, Bitmap, BitmapView};
use crate::encode::{encode, encode_spec, OutFormat};
use crate::error::{result_view, MediaError, MediaErrorView};
use crate::exif::{oriented, read_orientation, read_orientation_spec};
use crate::meta::{enforce_limits, limits_verdict, Limits};
use crate::resize::{resize, resize_admissible, resize_is_admissible, resized, Filter, Fit};

verus! {

/// Named output configuration.
#[derive(Debug, PartialEq, Eq)]
pub struct Variant {
    /// Human/stable name, e.g. `"thumb"`. Becomes the output key.
    pub name: String,
    /// Target geometry.
    pub fit: Fit,
    /// Target encoding.
    pub format: OutFormat,
    /// Resampling filter. Defaults to [`Filter::CatmullRom`].
    pub filter: Filter,
}

/// [`Variant`] as a mathematical value.
pub struct VariantView {
    pub name: Seq<char>,
    pub fit: Fit,
    pub format: OutFormat,
    pub filter: Filter,
}

impl View for Variant {
    type V = VariantView;

    open spec fn view(&self) -> VariantView {
        VariantView { name: self.name@, fit: self.fit, format: self.format, filter: self.filter }
    }
}

impl Clone for Variant {
    fn clone(&self) -> (r: Self)
        ensures
            r@ == self@,
    {
        Variant { name: self.name.clone(), fit: self.fit, format: self.format, filter: self.filter }
    }
}

impl Variant {
    /// New variant with the default filter ([`Filter::CatmullRom`]).
    pub fn new(name: &str, fit: Fit, format: OutFormat) -> (r: Self)
        ensures
            r@ == (VariantView { name: name@, fit, format, filter: Filter::CatmullRom }),
    {
        Variant { name: name.to_owned(), fit, format, filter: Filter::CatmullRom }
    }

    /// Override the resampling filter.
    pub fn filter(self, filter: Filter) -> (r: Self)
        ensures
            r@ == (VariantView { filter, ..self@ }),
    {
        Variant { name: self.name, fit: self.fit, format: self.format, filter }
    }
}

/// A configured collection of variants.
#[derive(Debug, PartialEq, Eq)]
pub struct VariantSet {
    /// Ordered variants.
    pub variants: Vec<Variant>,
}

impl Default for VariantSet {
    /// The empty set.
    fn default() -> (r: Self)
        ensures
            r.variants@.len() == 0,
    {
        VariantSet { variants: Vec::new() }
    }
}

/// The variants of a set by their views.
pub open spec fn set_view(s: VariantSet) -> Seq<VariantView> {
    s.variants@.map_values(|v: Variant| v@)
}

/// One generated variant: `(name, format, encoded bytes)`, in declaration
/// order.
pub type VariantOutput = (String, OutFormat, Vec<u8>);

/// `out` is what variant `v` makes of `img`: its name, its format, and the
/// encoding of a resize of `img` to its fit ([`resized`]: the samples of
/// whichever backend resampled it).
pub open spec fn variant_output(img: BitmapView, v: VariantView, out: VariantOutput) -> bool {
    &&& out.0@ == v.name
    &&& out.1 == v.format
    &&& exists|r: BitmapView| #[trigger] resized(img, v.fit, v.filter, false, r) && encode_spec(r, v.format)
        == Ok::<Seq<u8>, MediaErrorView>(out.2@)
}

/// `e` is the failure of variant `v` on `img`: the encoding of a resize of
/// `img` that the variant could have produced fails with it.
pub open spec fn variant_failure(img: BitmapView, v: VariantView, e: MediaErrorView) -> bool {
    exists|r: BitmapView| #[trigger] resized(img, v.fit, v.filter, false, r) && encode_spec(r, v.format)
        == Err::<Seq<u8>, MediaErrorView>(e)
}

/// Variant `v` can succeed on `img`: some output of it is a valid result.
pub open spec fn variant_succeeds(img: BitmapView, v: VariantView) -> bool {
    exists|out: VariantOutput| #[trigger] variant_output(img, v, out)
}

/// Every variant's resize of `img` is admissible.
pub open spec fn set_admissible(s: Seq<VariantView>, img: BitmapView) -> bool {
    forall|i: int| 0 <= i < s.len() ==> resize_admissible(img, (#[trigger] s[i]).fit, false)
}

/// Resize and encode one variant.
///
/// # Errors
///
/// [`MediaError::Encode`] when the variant fails to encode.
pub fn encode_variant(img: &Bitmap, variant: &Variant) -> (r: Result<VariantOutput, MediaError>)
    requires
        resize_admissible(img@, variant.fit, false),
    ensures
        match r {
            Ok(out) => variant_output(img@, variant@, out),
            Err(e) => variant_failure(img@, variant@, e@),
        },
{
    let resized_img = resize(img, &variant.fit, variant.filter);
    match encode(&resized_img, &variant.format) {
        Ok(bytes) => {
            let out = (variant.name.clone(), variant.format, bytes);
            assert(resized(img@, variant.fit, variant.filter, false, resized_img@));
            Ok(out)
        },
        Err(e) => {
            assert(resized(img@, variant.fit, variant.filter, false, resized_img@));
            Err(e)
        },
    }
}

impl VariantSet {
    /// Empty set. Add with [`push`](Self::push) or [`with`](Self::with).
    pub fn new() -> (r: Self)
        ensures
            set_view(r) == Seq::<VariantView>::empty(),
    {
        let r = VariantSet { variants: Vec::new() };
        assert(set_view(r) =~= Seq::<VariantView>::empty());
        r
    }

    /// Add a variant (builder style).
    pub fn with(self, variant: Variant) -> (r: Self)
        ensures
            set_view(r) == set_view(self).push(variant@),
    {
        let mut s = self;
        s.push(variant);
        s
    }

    /// Add a variant (mutating style).
    pub fn push(&mut self, variant: Variant)
        ensures
            set_view(*final(self)) == set_view(*old(self)).push(variant@),
    {
        let ghost before = set_view(*self);
        self.variants.push(variant);
        assert(set_view(*self) =~= before.push(variant@));
    }

    /// Common web preset:
    /// - `thumb`  — MaxSide 200, WebP lossless
    /// - `medium` — Width 800, WebP lossless
    /// - `large`  — Width 1920, WebP lossless
    pub fn web_standard() -> (r: Self)
        ensures
            set_view(r) == seq![
                VariantView { name: "thumb"@, fit: Fit::MaxSide(200), format: OutFormat::WebP(None), filter: Filter::CatmullRom },
                VariantView { name: "medium"@, fit: Fit::Width(800), format: OutFormat::WebP(None), filter: Filter::CatmullRom },
                VariantView { name: "large"@, fit: Fit::Width(1920), format: OutFormat::WebP(None), filter: Filter::CatmullRom },
            ],
    {
        let r = Self::new().with(Variant::new("thumb", Fit::MaxSide(200), OutFormat::WebP(None))).with(
            Variant::new("medium", Fit::Width(800), OutFormat::WebP(None)),
        ).with(Variant::new("large", Fit::Width(1920), OutFormat::WebP(None)));
        assert(set_view(r) =~= seq![
            VariantView { name: "thumb"@, fit: Fit::MaxSide(200), format: OutFormat::WebP(None), filter: Filter::CatmullRom },
            VariantView { name: "medium"@, fit: Fit::Width(800), format: OutFormat::WebP(None), filter: Filter::CatmullRom },
            VariantView { name: "large"@, fit: Fit::Width(1920), format: OutFormat::WebP(None), filter: Filter::CatmullRom },
        ]);
        r
    }

    /// Whether every variant's resize of `img` is admissible.
    pub fn can_generate(&self, img: &Bitmap) -> (r: bool)
        ensures
            r == set_admissible(set_view(*self), img@),
    {
        let mut i: usize = 0;
        while i < self.variants.len()
            invariant
                i <= self.variants.len(),
                forall|j: int| 0 <= j < i ==> resize_admissible(img@, (#[trigger] set_view(*self)[j]).fit, false),
            decreases self.variants.len() - i,
        {
            if !resize_is_admissible(img, &self.variants[i].fit, false) {
                assert(!resize_admissible(img@, set_view(*self)[i as int].fit, false));
                return false;
            }
            i = i + 1;
        }
        true
    }

    /// Encode one decoded image into every variant, in declaration order,
    /// on the calling thread.
    ///
    /// # Errors
    ///
    /// [`MediaError::Encode`] when any variant fails to encode (the first
    /// failing variant's error).
    pub fn generate_serial(&self, img: &Bitmap) -> (r: Result<Vec<VariantOutput>, MediaError>)
        requires
            set_admissible(set_view(*self), img@),
        ensures
            match r {
                Ok(outs) => outs@.len() == self.variants@.len() && forall|i: int|
                    0 <= i < outs@.len() ==> variant_output(img@, set_view(*self)[i], #[trigger] outs@[i]),
                Err(e) => exists|i: int|
                    0 <= i < self.variants@.len() && variant_failure(img@, #[trigger] set_view(*self)[i], e@)
                        && forall|j: int| 0 <= j < i ==> variant_succeeds(img@, #[trigger] set_view(*self)[j]),
            },
    {
        let mut outs: Vec<VariantOutput> = Vec::new();
        let mut i: usize = 0;
        while i < self.variants.len()
            invariant
                i <= self.variants.len(),
                set_admissible(set_view(*self), img@),
                outs@.len() == i,
                forall|j: int| 0 <= j < i ==> variant_output(img@, set_view(*self)[j], #[trigger] outs@[j]),
            decreases self.variants.len() - i,
        {
            assert(set_view(*self)[i as int] == self.variants@[i as int]@);
            match encode_variant(img, &self.variants[i]) {
                Ok(out) => outs.push(out),
                Err(e) => {
                    assert forall|j: int| 0 <= j < i implies variant_succeeds(img@, set_view(*self)[j]) by {
                        assert(variant_output(img@, set_view(*self)[j], outs@[j]));
                    }
                    assert(variant_failure(img@, set_view(*self)[i as int], e@));
                    return Err(e);
                },
            }
            i = i + 1;
        }
        Ok(outs)
    }
}

/// What [`load_upright`] returns: the first failure among limits, decode and
/// EXIF, or the decoded image turned upright by its EXIF orientation.
pub open spec fn load_upright_spec(bytes: Seq<u8>, limits: Limits) -> Result<BitmapView, MediaErrorView> {
    match limits_verdict(bytes, limits) {
        Err(e) => Err(e),
        Ok(_) => match decode_spec(bytes) {
            Err(e) => Err(e),
            Ok(m) => match read_orientation_spec(bytes) {
                Err(e) => Err(e),
                Ok(None) => Ok(m),
                Ok(Some(o)) => Ok(oriented(o, m)),
            },
        },
    }
}

/// The decode half of generating variants from raw bytes: bomb-guard,
/// decode once, and rotate upright when the source carries an EXIF
/// orientation tag, so all variants come out upright.
///
/// # Errors
///
/// [`MediaError`] for limit violations, decode or EXIF failures.
pub fn load_upright(bytes: &[u8], limits: &Limits) -> (r: Result<Bitmap, MediaError>)
    ensures
        result_view(r, |b: Bitmap| b@) == load_upright_spec(bytes@, *limits),
{
    match enforce_limits(bytes, limits) {
        Ok(()) => {},
        Err(e) => return Err(e),
    }
    let img = match decode(bytes) {
        Ok(img) => img,
        Err(e) => return Err(e),
    };
    match read_orientation(bytes) {
        Ok(Some(o)) => Ok(o.apply(&img)),
        Ok(None) => Ok(img),
        Err(e) => Err(e),
    }
}

/// Variant generation from raw bytes passes the same bomb guard as a
/// pipeline: oversized input is refused with [`MediaError::TooLarge`]
/// before anything else, every image that comes back had input within the
/// limits, and tagged input comes back upright.
pub proof fn lemma_upright_guards(bytes: Seq<u8>, limits: Limits)
    ensures
        bytes.len() > limits.max_bytes ==> load_upright_spec(bytes, limits) == Err::<BitmapView, MediaErrorView>(
            MediaErrorView::TooLarge { limit_bytes: limits.max_bytes, got: bytes.len() as u64 },
        ),
        load_upright_spec(bytes, limits) is Ok ==> limits_verdict(bytes, limits) is Ok,
        load_upright_spec(bytes, limits) is Ok ==> (decode_spec(bytes) matches Ok(m) && (
        read_orientation_spec(bytes) matches Ok(Some(o)) ==> load_upright_spec(bytes, limits) == Ok::<
            BitmapView,
            MediaErrorView,
        >(oriented(o, m)))),
{
}

} // verus!
