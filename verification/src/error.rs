//! Error type for the whole pipeline.

use vstd::prelude::*;

verus! {

/// `std::io::Error`, carried opaquely by [`MediaError::Io`].
#[verifier::external_type_specification]
#[verifier::external_body]
pub struct ExIoError(std::io::Error);

/// Every failure the pipeline can produce.
#[derive(Debug)]
pub enum MediaError {
    /// Sniffing could not identify the input format.
    UnsupportedFormat(String),
    /// Decoding the image failed.
    Decode(String),
    /// Encoding the output image failed.
    Encode(String),
    /// Input exceeded the configured byte-size limit (decompression-bomb guard).
    TooLarge {
        /// Configured maximum input size in bytes.
        limit_bytes: u64,
        /// Actual input size in bytes.
        got: u64,
    },
    /// Decoded dimensions exceeded the configured limits.
    DimensionsTooLarge {
        /// Configured maximum (width or height, whichever applies).
        max: u32,
        /// Actual offending dimension.
        got: u32,
    },
    /// Underlying I/O failure.
    Io(std::io::Error),
    /// EXIF parsing failed.
    Exif(String),
}

/// [`MediaError`] as a mathematical value: messages as character
/// sequences; the I/O error itself stays opaque.
pub enum MediaErrorView {
    UnsupportedFormat(Seq<char>),
    Decode(Seq<char>),
    Encode(Seq<char>),
    TooLarge { limit_bytes: u64, got: u64 },
    DimensionsTooLarge { max: u32, got: u32 },
    Io,
    Exif(Seq<char>),
}

impl View for MediaError {
    type V = MediaErrorView;

    open spec fn view(&self) -> MediaErrorView {
        match self {
            MediaError::UnsupportedFormat(m) => MediaErrorView::UnsupportedFormat(m@),
            MediaError::Decode(m) => MediaErrorView::Decode(m@),
            MediaError::Encode(m) => MediaErrorView::Encode(m@),
            MediaError::TooLarge { limit_bytes, got } => MediaErrorView::TooLarge {
                limit_bytes: *limit_bytes,
                got: *got,
            },
            MediaError::DimensionsTooLarge { max, got } => MediaErrorView::DimensionsTooLarge {
                max: *max,
                got: *got,
            },
            MediaError::Io(_) => MediaErrorView::Io,
            MediaError::Exif(m) => MediaErrorView::Exif(m@),
        }
    }
}

/// A result's view: the success value mapped by `f`, the error by its view.
pub open spec fn result_view<T, U>(r: Result<T, MediaError>, f: spec_fn(T) -> U) -> Result<
    U,
    MediaErrorView,
> {
    match r {
        Ok(t) => Ok(f(t)),
        Err(e) => Err(e@),
    }
}

} // verus!
