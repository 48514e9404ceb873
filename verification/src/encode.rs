//! Output encoding for supported formats.
//!
//! # WebP quality
//!
//! The WebP encoder used here is lossless-only, so the quality carried by
//! `OutFormat::WebP(Some(q))` is kept for the caller but does not reach the
//! encoder.

use vstd::prelude::*;

use crate::bitmap::{into_dynamic, Bitmap, BitmapView};
use crate::error::{result_view, MediaError, MediaErrorView};
use crate::sniff::{
    gif89_magic, has_at, jpeg_magic, png_magic, riff_magic, sniff_spec, webp_tag, Format,
    format_extension,
};

verus! {

/// Output container/codec.
#[derive(Debug, Clone, Copy, PartialEq, Eq, Structural)]
pub enum OutFormat {
    /// JPEG with the given quality (1–100, the encoder clamps internally).
    Jpeg(u8),
    /// PNG (lossless; quality is not applicable).
    Png,
    /// GIF (palette-based).
    Gif,
    /// WebP. `None` = lossless; `Some(bits)` carries a lossy quality
    /// 0.0–100.0 as the bit pattern of an IEEE-754 single-precision number.
    /// The encoder here is lossless and does not read it.
    WebP(Option<u32>),
}

/// Canonical file extension of an output format.
pub open spec fn out_extension(f: OutFormat) -> Seq<char> {
    match f {
        OutFormat::Jpeg(_) => "jpg"@,
        OutFormat::Png => "png"@,
        OutFormat::Gif => "gif"@,
        OutFormat::WebP(_) => "webp"@,
    }
}

/// MIME type of an output format.
pub open spec fn out_mime(f: OutFormat) -> Seq<char> {
    match f {
        OutFormat::Jpeg(_) => "image/jpeg"@,
        OutFormat::Png => "image/png"@,
        OutFormat::Gif => "image/gif"@,
        OutFormat::WebP(_) => "image/webp"@,
    }
}

/// The sniffed format an output format produces.
pub open spec fn sniffed_as(f: OutFormat) -> Format {
    match f {
        OutFormat::Jpeg(_) => Format::Jpeg,
        OutFormat::Png => Format::Png,
        OutFormat::Gif => Format::Gif,
        OutFormat::WebP(_) => Format::WebP,
    }
}

impl OutFormat {
    /// Canonical file extension, e.g. `"jpg"`.
    pub fn extension(self) -> (r: &'static str)
        ensures
            r@ == out_extension(self),
    {
        match self {
            OutFormat::Jpeg(_) => "jpg",
            OutFormat::Png => "png",
            OutFormat::Gif => "gif",
            OutFormat::WebP(_) => "webp",
        }
    }

    /// MIME type, e.g. `"image/jpeg"`.
    pub fn mime(self) -> (r: &'static str)
        ensures
            r@ == out_mime(self),
    {
        match self {
            OutFormat::Jpeg(_) => "image/jpeg",
            OutFormat::Png => "image/png",
            OutFormat::Gif => "image/gif",
            OutFormat::WebP(_) => "image/webp",
        }
    }
}

/// The codecs reached through `DynamicImage::write_to`.
#[derive(Debug, Clone, Copy, PartialEq, Eq, Structural)]
pub enum WriteCodec {
    /// PNG.
    Png,
    /// GIF.
    Gif,
    /// Lossless WebP.
    WebP,
}

/// What the `image` crate's JPEG encoder (`JpegEncoder::new_with_quality`,
/// after `to_rgb8`) produces for this image and quality: the file, or the
/// encoder's error message.
pub uninterp spec fn jpeg_encoding(img: BitmapView, quality: u8) -> Result<Seq<u8>, Seq<char>>;

/// What `DynamicImage::write_to` produces for this image and codec: the
/// file, or the encoder's error message.
pub uninterp spec fn codec_encoding(img: BitmapView, codec: WriteCodec) -> Result<Seq<u8>, Seq<char>>;

/// The view of an encoder outcome.
pub open spec fn encoded_view(r: Result<Vec<u8>, String>) -> Result<Seq<u8>, Seq<char>> {
    match r {
        Ok(b) => Ok(b@),
        Err(m) => Err(m@),
    }
}

/// The file starts with the signature of its codec.
pub open spec fn has_signature(b: Seq<u8>, f: Format) -> bool {
    match f {
        Format::Jpeg => has_at(b, 0, jpeg_magic()),
        Format::Png => has_at(b, 0, png_magic()),
        Format::Gif => has_at(b, 0, gif89_magic()),
        Format::WebP => b.len() >= 12 && has_at(b, 0, riff_magic()) && has_at(b, 8, webp_tag()),
        _ => false,
    }
}

/// Encodes with `JpegEncoder::new_with_quality` after `DynamicImage::to_rgb8`.
/// Trusted: the outcome is a function of the image and the quality
/// ([`jpeg_encoding`]); a produced file starts with `FF D8 FF`: the SOI
/// marker followed by the first byte of the next marker (`encode_image`
/// writes SOI and then the JFIF APP0 segment, `FF E0`).
#[verifier::external_body]
fn encode_jpeg(img: &Bitmap, quality: u8) -> (r: Result<Vec<u8>, String>)
    ensures
        encoded_view(r) == jpeg_encoding(img@, quality),
        r matches Ok(b) ==> has_signature(b@, Format::Jpeg),
{
    let rgb = into_dynamic(img.clone()).to_rgb8();
    let mut out = Vec::new();
    let enc = image::codecs::jpeg::JpegEncoder::new_with_quality(&mut out, quality);
    rgb.write_with_encoder(enc).map_err(|e| e.to_string())?;
    Ok(out)
}

/// Encodes with `DynamicImage::write_to` into an in-memory cursor.
/// Trusted: the outcome is a function of the image and the codec
/// ([`codec_encoding`]); a produced file starts with its codec's signature
/// (the PNG signature, `GIF89a`, or `RIFF` with `WEBP` at offset 8), which
/// the png, gif and image-webp encoders write first.
#[verifier::external_body]
fn write_via_image(img: &Bitmap, codec: WriteCodec) -> (r: Result<Vec<u8>, String>)
    ensures
        encoded_view(r) == codec_encoding(img@, codec),
        r matches Ok(b) ==> has_signature(
            b@,
            match codec {
                WriteCodec::Png => Format::Png,
                WriteCodec::Gif => Format::Gif,
                WriteCodec::WebP => Format::WebP,
            },
        ),
{
    let fmt = match codec {
        WriteCodec::Png => image::ImageFormat::Png,
        WriteCodec::Gif => image::ImageFormat::Gif,
        WriteCodec::WebP => image::ImageFormat::WebP,
    };
    let mut out = Vec::new();
    into_dynamic(img.clone()).write_to(&mut std::io::Cursor::new(&mut out), fmt).map_err(|e| e.to_string())?;
    Ok(out)
}

/// The encoder outcome for an image and output format.
pub open spec fn encoding_of(img: BitmapView, fmt: OutFormat) -> Result<Seq<u8>, Seq<char>> {
    match fmt {
        OutFormat::Jpeg(q) => jpeg_encoding(img, q),
        OutFormat::Png => codec_encoding(img, WriteCodec::Png),
        OutFormat::Gif => codec_encoding(img, WriteCodec::Gif),
        OutFormat::WebP(_) => codec_encoding(img, WriteCodec::WebP),
    }
}

/// What [`encode`] returns: the file, or the encoder's message as
/// [`MediaError::Encode`].
pub open spec fn encode_spec(img: BitmapView, fmt: OutFormat) -> Result<Seq<u8>, MediaErrorView> {
    match encoding_of(img, fmt) {
        Ok(b) => Ok(b),
        Err(m) => Err(MediaErrorView::Encode(m)),
    }
}

/// The view of an encoded file.
pub open spec fn bytes_view(b: Vec<u8>) -> Seq<u8> {
    b@
}

/// Encode `img` to `fmt`, returning the encoded bytes.
///
/// # Errors
///
/// [`MediaError::Encode`] when the encoder rejects the image.
pub fn encode(img: &Bitmap, fmt: &OutFormat) -> (r: Result<Vec<u8>, MediaError>)
    ensures
        result_view(r, |b: Vec<u8>| bytes_view(b)) == encode_spec(img@, *fmt),
        r matches Ok(b) ==> has_signature(b@, sniffed_as(*fmt)),
{
    let out = match fmt {
        OutFormat::Jpeg(quality) => encode_jpeg(img, *quality),
        OutFormat::Png => write_via_image(img, WriteCodec::Png),
        OutFormat::Gif => write_via_image(img, WriteCodec::Gif),
        OutFormat::WebP(_) => write_via_image(img, WriteCodec::WebP),
    };
    match out {
        Ok(b) => Ok(b),
        Err(m) => Err(MediaError::Encode(m)),
    }
}

/// Every encoded file sniffs as the format it was encoded to.
pub proof fn lemma_encoded_sniffs_as_format(b: Seq<u8>, fmt: OutFormat)
    requires
        has_signature(b, sniffed_as(fmt)),
    ensures
        sniff_spec(b) == Some(sniffed_as(fmt)),
{
    match fmt {
        OutFormat::Png => {
            assert(b[0] == 0x89);
            assert(!has_at(b, 0, jpeg_magic())) by {
                assert(b.subrange(0, 3)[0] == 0x89);
            }
        },
        OutFormat::Gif => {
            assert(b.subrange(0, 6)[0] == 0x47);
            assert(!has_at(b, 0, jpeg_magic())) by {
                assert(b.subrange(0, 3)[0] == 0x47);
            }
            assert(!has_at(b, 0, png_magic())) by {
                if has_at(b, 0, png_magic()) {
                    assert(b.subrange(0, 8)[0] == b.subrange(0, 6)[0]);
                }
            }
        },
        OutFormat::WebP(_) => {
            assert(b.subrange(0, 4)[0] == 0x52);
            assert(!has_at(b, 0, jpeg_magic())) by {
                assert(b.subrange(0, 3)[0] == 0x52);
            }
            assert(!has_at(b, 0, png_magic())) by {
                assert(b.subrange(0, 8)[0] == 0x52);
            }
            assert(!has_at(b, 0, crate::sniff::gif87_magic())) by {
                assert(b.subrange(0, 6)[0] == 0x52);
            }
            assert(!has_at(b, 0, gif89_magic())) by {
                assert(b.subrange(0, 6)[0] == 0x52);
            }
        },
        _ => {},
    }
}

/// An output format's extension is the extension of the format its files
/// sniff as.
pub proof fn lemma_extension_agrees(fmt: OutFormat)
    ensures
        out_extension(fmt) == format_extension(sniffed_as(fmt)),
{
}

} // verus!
