//! High-level decode -> transform -> encode pipeline with bomb-guarding.
//!
//! A run goes: sniff format, enforce limits (byte size + header
//! dimensions), decode, auto-orient from EXIF (when enabled), apply the ops
//! in order, encode. [`Pipeline::load`] performs the first four steps,
//! [`Pipeline::step`] one op, [`Pipeline::finish`] the encode. An overlay op
//! is handed back to the caller as [`Step::Blend`]: its alpha blending works
//! in floating point, which this library leaves to the caller.

use vstd::prelude::*;

use crate::bitmap::{decode, decode_spec, Bitmap, BitmapView};
use crate::encode::{encode, encode_spec, has_signature, sniffed_as, OutFormat};
use crate::error::{result_view, MediaError, MediaErrorView};
use crate::exif::{lemma_oriented_shape, oriented, read_orientation, read_orientation_spec, stored_position, Orientation};
use crate::meta::{enforce_limits, limits_verdict, Limits};
use crate::resize::{resize, resize_admissible, resize_is_admissible, resized, Filter, Fit};
use crate::sniff::{sniff, sniff_spec};

verus! {

/// A single operation in the pipeline.
#[derive(Debug)]
pub enum Op {
    /// Resize to the given fit with the given filter.
    Resize(Fit, Filter),
    /// Paste an overlay image at `(x, y)` with the given opacity.
    Overlay {
        /// Overlay source image.
        img: Bitmap,
        /// Top-left paste position (may be negative).
        x: i64,
        /// Top-left paste position (may be negative).
        y: i64,
        /// Overlay opacity in `[0.0, 1.0]`, as the bit pattern of an
        /// IEEE-754 single-precision number.
        opacity: u32,
    },
    /// Explicit intent marker: re-encoding from raw pixels already drops all
    /// metadata (EXIF/GPS/ICC), so this is a no-op kept for auditability.
    StripExif,
}

/// [`Op`] as a mathematical value.
pub enum OpView {
    Resize(Fit, Filter),
    Overlay { img: BitmapView, x: i64, y: i64, opacity: u32 },
    StripExif,
}

impl View for Op {
    type V = OpView;

    open spec fn view(&self) -> OpView {
        match self {
            Op::Resize(fit, filter) => OpView::Resize(*fit, *filter),
            Op::Overlay { img, x, y, opacity } => OpView::Overlay {
                img: img@,
                x: *x,
                y: *y,
                opacity: *opacity,
            },
            Op::StripExif => OpView::StripExif,
        }
    }
}

impl Clone for Op {
    fn clone(&self) -> (r: Self)
        ensures
            r@ == self@,
    {
        match self {
            Op::Resize(fit, filter) => Op::Resize(*fit, *filter),
            Op::Overlay { img, x, y, opacity } => Op::Overlay {
                img: img.clone(),
                x: *x,
                y: *y,
                opacity: *opacity,
            },
            Op::StripExif => Op::StripExif,
        }
    }
}

/// Configured decode -> transform -> encode pipeline.
#[derive(Debug)]
pub struct Pipeline {
    limits: Limits,
    ops: Vec<Op>,
    out: OutFormat,
    auto_orient: bool,
}

/// [`Pipeline`] as a mathematical value.
pub struct PipelineView {
    pub limits: Limits,
    pub ops: Seq<OpView>,
    pub out: OutFormat,
    pub auto_orient: bool,
}

impl View for Pipeline {
    type V = PipelineView;

    closed spec fn view(&self) -> PipelineView {
        PipelineView {
            limits: self.limits,
            ops: self.ops@.map_values(|o: Op| o@),
            out: self.out,
            auto_orient: self.auto_orient,
        }
    }
}

impl Clone for Pipeline {
    fn clone(&self) -> (r: Self)
        ensures
            r@ == self@,
    {
        let mut ops: Vec<Op> = Vec::new();
        let mut i: usize = 0;
        while i < self.ops.len()
            invariant
                i <= self.ops.len(),
                ops@.len() == i,
                forall|j: int| 0 <= j < i ==> (#[trigger] ops@[j])@ == self.ops@[j]@,
            decreases self.ops.len() - i,
        {
            ops.push(self.ops[i].clone());
            i = i + 1;
        }
        let limits = Limits {
            max_bytes: self.limits.max_bytes,
            max_width: self.limits.max_width,
            max_height: self.limits.max_height,
        };
        let r = Pipeline { limits, ops, out: self.out, auto_orient: self.auto_orient };
        assert(r@.ops =~= self@.ops);
        r
    }
}

/// What [`Pipeline::load`] returns: the decoded (and, when enabled,
/// upright) image, or the first failure in the order sniff, limits, decode,
/// EXIF.
pub open spec fn load_spec(p: PipelineView, bytes: Seq<u8>) -> Result<BitmapView, MediaErrorView> {
    if sniff_spec(bytes) is None {
        Err(MediaErrorView::UnsupportedFormat("input is not a recognized media format"@))
    } else {
        match limits_verdict(bytes, p.limits) {
            Err(e) => Err(e),
            Ok(_) => match decode_spec(bytes) {
                Err(e) => Err(e),
                Ok(m) => if !p.auto_orient {
                    Ok(m)
                } else {
                    match read_orientation_spec(bytes) {
                        Err(e) => Err(e),
                        Ok(None) => Ok(m),
                        Ok(Some(o)) => Ok(oriented(o, m)),
                    }
                },
            },
        }
    }
}

/// The outcome of one pipeline op.
#[derive(Debug)]
pub enum Step {
    /// The op was applied; the new image.
    Image(Bitmap),
    /// An overlay op: the caller blends `over` onto the current image at
    /// `(x, y)` with the opacity whose single-precision bit pattern is
    /// `opacity`.
    Blend { over: Bitmap, x: i64, y: i64, opacity: u32 },
}

/// Op `i` can run on `m` without panicking: resizes must be admissible.
pub open spec fn step_admissible(p: PipelineView, m: BitmapView, i: int) -> bool {
    match p.ops[i] {
        OpView::Resize(fit, _) => resize_admissible(m, fit, false),
        _ => true,
    }
}

impl Pipeline {
    /// Pipeline with default [`Limits`] and no ops.
    pub fn new(out: OutFormat) -> (r: Self)
        ensures
            r@.limits == (Limits { max_bytes: 10485760u64, max_width: 8192u32, max_height: 8192u32 }),
            r@.ops == Seq::<OpView>::empty(),
            r@.out == out,
            !r@.auto_orient,
    {
        let r = Pipeline { limits: Limits::default(), ops: Vec::new(), out, auto_orient: false };
        assert(r@.ops =~= Seq::<OpView>::empty());
        r
    }

    /// Replace the resource limits.
    pub fn limits(self, limits: Limits) -> (r: Self)
        ensures
            r@ == (PipelineView { limits, ..self@ }),
    {
        Pipeline { limits, ops: self.ops, out: self.out, auto_orient: self.auto_orient }
    }

    /// Enable EXIF auto-orientation: when the input carries an EXIF
    /// orientation tag, pixels are rotated/mirrored upright right after
    /// decode, before any op. The output is a re-encode, so the tag itself
    /// is stripped — output pixels are upright and tag-free.
    pub fn auto_orient(self, on: bool) -> (r: Self)
        ensures
            r@ == (PipelineView { auto_orient: on, ..self@ }),
    {
        Pipeline { limits: self.limits, ops: self.ops, out: self.out, auto_orient: on }
    }

    fn push_op(self, op: Op) -> (r: Self)
        ensures
            r@ == (PipelineView { ops: self@.ops.push(op@), ..self@ }),
    {
        let mut ops = self.ops;
        ops.push(op);
        let r = Pipeline { limits: self.limits, ops, out: self.out, auto_orient: self.auto_orient };
        assert(r@.ops =~= self@.ops.push(op@));
        r
    }

    /// Append a resize op.
    pub fn resize(self, fit: Fit, filter: Filter) -> (r: Self)
        ensures
            r@ == (PipelineView { ops: self@.ops.push(OpView::Resize(fit, filter)), ..self@ }),
    {
        self.push_op(Op::Resize(fit, filter))
    }

    /// Append an overlay op; `opacity` is the bit pattern of the
    /// single-precision opacity.
    pub fn overlay(self, img: Bitmap, x: i64, y: i64, opacity: u32) -> (r: Self)
        ensures
            r@ == (PipelineView {
                ops: self@.ops.push(OpView::Overlay { img: img@, x, y, opacity }),
                ..self@
            }),
    {
        self.push_op(Op::Overlay { img, x, y, opacity })
    }

    /// Append the explicit metadata-strip marker (no-op; re-encode strips).
    pub fn strip_exif(self) -> (r: Self)
        ensures
            r@ == (PipelineView { ops: self@.ops.push(OpView::StripExif), ..self@ }),
    {
        self.push_op(Op::StripExif)
    }

    /// Number of ops.
    pub fn op_count(&self) -> (r: usize)
        ensures
            r == self@.ops.len(),
    {
        self.ops.len()
    }

    /// The configured output format.
    pub fn out_format(&self) -> (r: OutFormat)
        ensures
            r == self@.out,
    {
        self.out
    }

    /// Steps 1–4 of a run on raw encoded `bytes`: sniff the format, enforce
    /// the limits (byte size + header dimensions), decode, and auto-orient
    /// from EXIF when enabled.
    ///
    /// # Errors
    ///
    /// [`MediaError`] for unknown format, limit violations, decode or EXIF
    /// failures.
    pub fn load(&self, bytes: &[u8]) -> (r: Result<Bitmap, MediaError>)
        ensures
            result_view(r, |b: Bitmap| b@) == load_spec(self@, bytes@),
    {
        if sniff(bytes).is_none() {
            return Err(MediaError::UnsupportedFormat("input is not a recognized media format".to_owned()));
        }
        match enforce_limits(bytes, &self.limits) {
            Ok(()) => {},
            Err(e) => return Err(e),
        }
        let img = match decode(bytes) {
            Ok(img) => img,
            Err(e) => return Err(e),
        };
        if self.auto_orient {
            match read_orientation(bytes) {
                Ok(Some(o)) => Ok(o.apply(&img)),
                Ok(None) => Ok(img),
                Err(e) => Err(e),
            }
        } else {
            Ok(img)
        }
    }

    /// Whether op `i` can run on `img` ([`step_admissible`]).
    pub fn can_step(&self, img: &Bitmap, i: usize) -> (r: bool)
        requires
            i < self@.ops.len(),
        ensures
            r == step_admissible(self@, img@, i as int),
    {
        proof {
            assert(self@.ops[i as int] == self.ops@[i as int]@);
        }
        match &self.ops[i] {
            Op::Resize(fit, _) => resize_is_admissible(img, fit, false),
            _ => true,
        }
    }

    /// Step 5 for op `i`: resize, or pass the image through for the strip
    /// marker; an overlay op comes back as [`Step::Blend`] for the caller.
    pub fn step(&self, img: &Bitmap, i: usize) -> (r: Step)
        requires
            i < self@.ops.len(),
            step_admissible(self@, img@, i as int),
        ensures
            match self@.ops[i as int] {
                OpView::Resize(fit, filter) => r matches Step::Image(b) && resized(img@, fit, filter, false, b@),
                OpView::StripExif => r matches Step::Image(b) && b@ == img@,
                OpView::Overlay { img: o, x, y, opacity } => r matches Step::Blend { over, x: bx, y: by, opacity: bo }
                    && over@ == o && bx == x && by == y && bo == opacity,
            },
    {
        proof {
            assert(self@.ops[i as int] == self.ops@[i as int]@);
        }
        match &self.ops[i] {
            Op::Resize(fit, filter) => Step::Image(resize(img, fit, *filter)),
            Op::Overlay { img: over, x, y, opacity } => Step::Blend {
                over: over.clone(),
                x: *x,
                y: *y,
                opacity: *opacity,
            },
            Op::StripExif => Step::Image(img.clone()),
        }
    }

    /// Step 6: encode to the configured output format.
    ///
    /// # Errors
    ///
    /// [`MediaError::Encode`] when the encoder rejects the image.
    pub fn finish(&self, img: &Bitmap) -> (r: Result<Vec<u8>, MediaError>)
        ensures
            result_view(r, |b: Vec<u8>| b@) == encode_spec(img@, self@.out),
            r matches Ok(b) ==> has_signature(b@, sniffed_as(self@.out)),
    {
        encode(img, &self.out)
    }
}

/// Auto-orientation only changes a load when the input carries an EXIF
/// orientation: without one (or with auto-orient off) the loaded image is
/// the plain decode.
pub proof fn lemma_auto_orient_without_tag_is_noop(p: PipelineView, bytes: Seq<u8>)
    requires
        read_orientation_spec(bytes) == Ok::<Option<crate::exif::Orientation>, MediaErrorView>(None),
    ensures
        load_spec(PipelineView { auto_orient: true, ..p }, bytes) == load_spec(
            PipelineView { auto_orient: false, ..p },
            bytes,
        ),
{
}

/// With auto-orient on, a load turns every tagged input upright: input
/// that is recognised, passes the limits, decodes to `m` and carries EXIF
/// orientation `o` (any of the eight) loads as exactly `oriented(o, m)`,
/// whose pixel `(x, y)` is the stored pixel [`stored_position`] names.
pub proof fn lemma_auto_orient_applies_tag(p: PipelineView, bytes: Seq<u8>, m: BitmapView, o: Orientation)
    requires
        p.auto_orient,
        sniff_spec(bytes) is Some,
        limits_verdict(bytes, p.limits) is Ok,
        decode_spec(bytes) == Ok::<BitmapView, MediaErrorView>(m),
        read_orientation_spec(bytes) == Ok::<Option<Orientation>, MediaErrorView>(Some(o)),
    ensures
        load_spec(p, bytes) == Ok::<BitmapView, MediaErrorView>(oriented(o, m)),
        m.wf() ==> forall|x: int, y: int, c: int| #[trigger] oriented(o, m).in_bounds(x, y, c) ==>
            oriented(o, m).sample(x, y, c) == m.sample(
                stored_position(o, m.width as int, m.height as int, x, y).0,
                stored_position(o, m.width as int, m.height as int, x, y).1,
                c,
            ),
{
    if m.wf() {
        lemma_oriented_shape(o, m);
    }
}

/// Bomb guard: a load never gets past the limits on input it must reject —
/// unrecognized input fails before anything else, oversized input fails
/// with [`MediaError::TooLarge`] before the header is read, and every
/// successful load had input within the byte limit and header dimensions
/// within the size limits.
pub proof fn lemma_load_guards(p: PipelineView, bytes: Seq<u8>)
    ensures
        sniff_spec(bytes) is None ==> load_spec(p, bytes) matches Err(MediaErrorView::UnsupportedFormat(_)),
        sniff_spec(bytes) is Some && bytes.len() > p.limits.max_bytes ==> load_spec(p, bytes)
            == Err::<BitmapView, MediaErrorView>(
            MediaErrorView::TooLarge { limit_bytes: p.limits.max_bytes, got: bytes.len() as u64 },
        ),
        load_spec(p, bytes) is Ok ==> bytes.len() <= p.limits.max_bytes && (crate::meta::header_dimensions(
            bytes,
        ) matches Some((w, h)) && w <= p.limits.max_width && h <= p.limits.max_height),
{
}

} // verus!
