//! Header-only metadata inspection and decompression-bomb guards.

use vstd::prelude::*;

use crate::error::{MediaError, MediaErrorView};
use crate::sniff::{sniff, sniff_spec, Format};

verus! {

/// Resource limits applied before decoding (decompression-bomb guard).
///
/// Defaults: 10 MiB input, 8192x8192 max dimensions.
#[derive(Debug, Clone, PartialEq, Eq, Structural)]
pub struct Limits {
    /// Maximum accepted input size in bytes. Default: `10 * 1024 * 1024`.
    pub max_bytes: u64,
    /// Maximum accepted image width. Default: `8192`.
    pub max_width: u32,
    /// Maximum accepted image height. Default: `8192`.
    pub max_height: u32,
}

/// The default byte limit: 10 MiB.
pub const DEFAULT_MAX_BYTES: u64 = 10485760;

/// The default width and height limit.
pub const DEFAULT_MAX_SIDE: u32 = 8192;

impl Default for Limits {
    fn default() -> (r: Self)
        ensures
            r.max_bytes == 10 * 1024 * 1024,
            r.max_width == 8192,
            r.max_height == 8192,
    {
        Limits { max_bytes: DEFAULT_MAX_BYTES, max_width: DEFAULT_MAX_SIDE, max_height: DEFAULT_MAX_SIDE }
    }
}

impl Limits {
    /// Defaults.
    pub fn new() -> (r: Self)
        ensures
            r.max_bytes == 10 * 1024 * 1024,
            r.max_width == 8192,
            r.max_height == 8192,
    {
        Self::default()
    }

    /// Set the byte-size limit.
    pub fn max_bytes(self, v: u64) -> (r: Self)
        ensures
            r == (Limits { max_bytes: v, ..self }),
    {
        let mut s = self;
        s.max_bytes = v;
        s
    }

    /// Set the width limit.
    pub fn max_width(self, v: u32) -> (r: Self)
        ensures
            r == (Limits { max_width: v, ..self }),
    {
        let mut s = self;
        s.max_width = v;
        s
    }

    /// Set the height limit.
    pub fn max_height(self, v: u32) -> (r: Self)
        ensures
            r == (Limits { max_height: v, ..self }),
    {
        let mut s = self;
        s.max_height = v;
        s
    }
}

/// What the `image` crate's header reader (`ImageReader::with_guessed_format`
/// followed by `into_dimensions`) reports for these bytes: the declared
/// `(width, height)`, or `None` when the format is unknown or the header
/// unreadable.
pub uninterp spec fn header_dimensions(bytes: Seq<u8>) -> Option<(u32, u32)>;

/// Reads the declared dimensions from the header with `image::ImageReader`
/// (format guessed from the content, no pixel decode). Trusted: the result is
/// whatever the `image` crate's header parsers report, named
/// [`header_dimensions`].
#[verifier::external_body]
fn read_header_dimensions(bytes: &[u8]) -> (r: Option<(u32, u32)>)
    ensures
        r == header_dimensions(bytes@),
{
    image::ImageReader::new(std::io::Cursor::new(bytes)).with_guessed_format().ok()?.into_dimensions().ok()
}

/// Image dimensions `(width, height)` parsed header-only, without decoding
/// pixel data. Returns [`None`] when the format is unknown or the header is
/// unreadable.
pub fn dimensions(bytes: &[u8]) -> (r: Option<(u32, u32)>)
    ensures
        r == header_dimensions(bytes@),
{
    read_header_dimensions(bytes)
}

/// The verdict on declared dimensions: an unreadable header is refused —
/// as an unsupported format when sniffing (`format`) does not recognize the
/// input, as a decode failure when it does — then the width is checked,
/// then the height.
pub open spec fn dimensions_verdict_spec(
    format: Option<Format>,
    dims: Option<(u32, u32)>,
    limits: Limits,
) -> Result<(), MediaErrorView> {
    match dims {
        None => if format is None {
            Err(MediaErrorView::UnsupportedFormat("could not read image header"@))
        } else {
            Err(MediaErrorView::Decode("could not read image header"@))
        },
        Some((w, h)) => if w > limits.max_width {
            Err(MediaErrorView::DimensionsTooLarge { max: limits.max_width, got: w })
        } else if h > limits.max_height {
            Err(MediaErrorView::DimensionsTooLarge { max: limits.max_height, got: h })
        } else {
            Ok(())
        },
    }
}

/// The outcome of [`enforce_limits`], in the order the checks run: byte
/// size first (before the header is even looked at), then header
/// readability (told apart by whether the input sniffs as a known format),
/// then width, then height.
pub open spec fn limits_verdict(bytes: Seq<u8>, limits: Limits) -> Result<(), MediaErrorView> {
    if bytes.len() > limits.max_bytes {
        Err(MediaErrorView::TooLarge { limit_bytes: limits.max_bytes, got: bytes.len() as u64 })
    } else {
        dimensions_verdict_spec(sniff_spec(bytes), header_dimensions(bytes), limits)
    }
}

/// Judge header dimensions (as [`dimensions`] reports them) of input that
/// sniffs as `format` against `limits`.
///
/// # Errors
///
/// - [`MediaError::UnsupportedFormat`] when the header could not be read
///   (`None`) and the format is not recognized (`None`)
/// - [`MediaError::Decode`] when the header could not be read although the
///   format is recognized
/// - [`MediaError::DimensionsTooLarge`] when the width, or else the height,
///   exceeds its limit
pub fn dimensions_verdict(format: Option<Format>, dims: Option<(u32, u32)>, limits: &Limits) -> (r: Result<(), MediaError>)
    ensures
        crate::error::result_view(r, |u: ()| u) == dimensions_verdict_spec(format, dims, *limits),
{
    let (w, h) = match dims {
        Some(d) => d,
        None => {
            let msg = "could not read image header".to_owned();
            return match format {
                None => Err(MediaError::UnsupportedFormat(msg)),
                Some(_) => Err(MediaError::Decode(msg)),
            };
        },
    };
    if w > limits.max_width {
        return Err(MediaError::DimensionsTooLarge { max: limits.max_width, got: w });
    }
    if h > limits.max_height {
        return Err(MediaError::DimensionsTooLarge { max: limits.max_height, got: h });
    }
    Ok(())
}

/// Check byte size and decoded dimensions against `limits`.
///
/// Dimensions are read header-only (no pixel decode) so hostile headers are
/// rejected before any allocation happens.
///
/// # Errors
///
/// - [`MediaError::TooLarge`] when input exceeds `max_bytes`
/// - [`MediaError::UnsupportedFormat`] when the format cannot be sniffed and
///   the header cannot be read
/// - [`MediaError::Decode`] when the format is recognized but the header
///   cannot be read
/// - [`MediaError::DimensionsTooLarge`] when width or height exceed limits
pub fn enforce_limits(bytes: &[u8], limits: &Limits) -> (r: Result<(), MediaError>)
    ensures
        crate::error::result_view(r, |u: ()| u) == limits_verdict(bytes@, *limits),
{
    let got = bytes.len() as u64;
    if got > limits.max_bytes {
        return Err(MediaError::TooLarge { limit_bytes: limits.max_bytes, got });
    }
    dimensions_verdict(sniff(bytes), dimensions(bytes), limits)
}

/// Input within the byte limit is judged by its declared dimensions: a
/// header declaring `w` x `h` passes exactly when `w` is within the width
/// limit and `h` within the height limit; a too-wide image is reported
/// against the width limit (before the height is looked at), a too-tall one
/// against the height limit; an unreadable header is refused, as an
/// unsupported format when the input does not sniff as a known format and
/// as a decode failure when it does.
pub proof fn lemma_limits_report(bytes: Seq<u8>, limits: Limits, w: u32, h: u32)
    ensures
        bytes.len() <= limits.max_bytes && header_dimensions(bytes) == Some((w, h)) ==> {
            &&& w > limits.max_width ==> limits_verdict(bytes, limits) == Err::<(), MediaErrorView>(
                MediaErrorView::DimensionsTooLarge { max: limits.max_width, got: w },
            )
            &&& w <= limits.max_width && h > limits.max_height ==> limits_verdict(bytes, limits) == Err::<
                (),
                MediaErrorView,
            >(MediaErrorView::DimensionsTooLarge { max: limits.max_height, got: h })
            &&& w <= limits.max_width && h <= limits.max_height ==> limits_verdict(bytes, limits) == Ok::<
                (),
                MediaErrorView,
            >(())
        },
        bytes.len() <= limits.max_bytes && header_dimensions(bytes) is None ==> {
            &&& sniff_spec(bytes) is None ==> limits_verdict(bytes, limits) == Err::<(), MediaErrorView>(
                MediaErrorView::UnsupportedFormat("could not read image header"@),
            )
            &&& sniff_spec(bytes) is Some ==> limits_verdict(bytes, limits) == Err::<(), MediaErrorView>(
                MediaErrorView::Decode("could not read image header"@),
            )
        },
{
}

/// Bomb guard: input over the byte limit is refused with
/// [`MediaError::TooLarge`] whatever it holds, and every input the limits
/// accept is within the byte limit and declares dimensions within the width
/// and height limits.
pub proof fn lemma_limits_guard(bytes: Seq<u8>, limits: Limits)
    ensures
        bytes.len() > limits.max_bytes ==> limits_verdict(bytes, limits) == Err::<(), MediaErrorView>(
            MediaErrorView::TooLarge { limit_bytes: limits.max_bytes, got: bytes.len() as u64 },
        ),
        limits_verdict(bytes, limits) is Ok ==> {
            &&& bytes.len() <= limits.max_bytes
            &&& header_dimensions(bytes) matches Some((w, h))
            &&& w <= limits.max_width
            &&& h <= limits.max_height
        },
{
}

} // verus!
