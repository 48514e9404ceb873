//! Magic-byte format sniffing — no decoding.
//!
//! Sniffing looks only at the first twelve bytes of the buffer, so it is
//! cheap and safe to run on untrusted input before doing anything else.

use vstd::prelude::*;

verus! {

/// Media formats recognized by [`sniff`].
#[derive(Debug, Clone, Copy, PartialEq, Eq, Structural, Hash)]
pub enum Format {
    /// JPEG (JFIF/EXIF), starts `FF D8 FF`.
    Jpeg,
    /// PNG, starts the 8-byte signature `89 50 4E 47 0D 0A 1A 0A`.
    Png,
    /// GIF87a / GIF89a.
    Gif,
    /// WebP (`RIFF....WEBP`).
    WebP,
    /// AVIF (ISOBMFF with `ftyp` brand `avif`).
    Avif,
    /// SVG (XML text starting `<?xml` or `<svg`).
    Svg,
    /// PDF (used to reject non-image uploads early).
    Pdf,
}

/// Canonical extension of each format.
pub open spec fn format_extension(f: Format) -> Seq<char> {
    match f {
        Format::Jpeg => "jpg"@,
        Format::Png => "png"@,
        Format::Gif => "gif"@,
        Format::WebP => "webp"@,
        Format::Avif => "avif"@,
        Format::Svg => "svg"@,
        Format::Pdf => "pdf"@,
    }
}

impl Format {
    /// Lowercase canonical extension for the format, e.g. `"jpg"`.
    pub fn extension(self) -> (r: &'static str)
        ensures
            r@ == format_extension(self),
    {
        match self {
            Format::Jpeg => "jpg",
            Format::Png => "png",
            Format::Gif => "gif",
            Format::WebP => "webp",
            Format::Avif => "avif",
            Format::Svg => "svg",
            Format::Pdf => "pdf",
        }
    }
}

/// `b` holds `pat` starting at byte offset `off`.
pub open spec fn has_at(b: Seq<u8>, off: int, pat: Seq<u8>) -> bool {
    &&& 0 <= off
    &&& off + pat.len() <= b.len()
    &&& b.subrange(off, off + pat.len()) == pat
}

/// ASCII lower-casing of one byte (other bytes unchanged).
pub open spec fn ascii_lower(c: u8) -> u8 {
    if 65 <= c <= 90 {
        (c + 32) as u8
    } else {
        c
    }
}

/// `b` starts with `pat`, ignoring ASCII case.
pub open spec fn has_prefix_ci(b: Seq<u8>, pat: Seq<u8>) -> bool {
    &&& pat.len() <= b.len()
    &&& forall|i: int| 0 <= i < pat.len() ==> ascii_lower(#[trigger] b[i]) == ascii_lower(pat[i])
}

/// `FF D8 FF`.
pub open spec fn jpeg_magic() -> Seq<u8> {
    seq![0xFFu8, 0xD8, 0xFF]
}

/// The PNG signature.
pub open spec fn png_magic() -> Seq<u8> {
    seq![0x89u8, 0x50, 0x4E, 0x47, 0x0D, 0x0A, 0x1A, 0x0A]
}

/// `GIF87a`.
pub open spec fn gif87_magic() -> Seq<u8> {
    seq![0x47u8, 0x49, 0x46, 0x38, 0x37, 0x61]
}

/// `GIF89a`.
pub open spec fn gif89_magic() -> Seq<u8> {
    seq![0x47u8, 0x49, 0x46, 0x38, 0x39, 0x61]
}

/// `RIFF`.
pub open spec fn riff_magic() -> Seq<u8> {
    seq![0x52u8, 0x49, 0x46, 0x46]
}

/// `WEBP`.
pub open spec fn webp_tag() -> Seq<u8> {
    seq![0x57u8, 0x45, 0x42, 0x50]
}

/// `ftyp`.
pub open spec fn ftyp_tag() -> Seq<u8> {
    seq![0x66u8, 0x74, 0x79, 0x70]
}

/// `avif`.
pub open spec fn avif_brand() -> Seq<u8> {
    seq![0x61u8, 0x76, 0x69, 0x66]
}

/// `<?xml`.
pub open spec fn xml_magic() -> Seq<u8> {
    seq![0x3Cu8, 0x3F, 0x78, 0x6D, 0x6C]
}

/// `<svg`.
pub open spec fn svg_magic() -> Seq<u8> {
    seq![0x3Cu8, 0x73, 0x76, 0x67]
}

/// `%PDF`.
pub open spec fn pdf_magic() -> Seq<u8> {
    seq![0x25u8, 0x50, 0x44, 0x46]
}

/// The format that the magic bytes at the start of `b` identify, checked in
/// a fixed order (JPEG, PNG, GIF, WebP, AVIF, SVG, PDF).
pub open spec fn sniff_spec(b: Seq<u8>) -> Option<Format> {
    if has_at(b, 0, jpeg_magic()) {
        Some(Format::Jpeg)
    } else if has_at(b, 0, png_magic()) {
        Some(Format::Png)
    } else if has_at(b, 0, gif87_magic()) || has_at(b, 0, gif89_magic()) {
        Some(Format::Gif)
    } else if b.len() >= 12 && has_at(b, 0, riff_magic()) && has_at(b, 8, webp_tag()) {
        Some(Format::WebP)
    } else if b.len() >= 12 && has_at(b, 4, ftyp_tag()) && has_at(b, 8, avif_brand()) {
        Some(Format::Avif)
    } else if has_at(b, 0, xml_magic()) || has_prefix_ci(b, svg_magic()) {
        Some(Format::Svg)
    } else if has_at(b, 0, pdf_magic()) {
        Some(Format::Pdf)
    } else {
        None
    }
}

/// Raster/vector image formats: everything except PDF.
pub open spec fn is_image_spec(b: Seq<u8>) -> bool {
    match sniff_spec(b) {
        Some(f) => f != Format::Pdf,
        None => false,
    }
}

/// `haystack` holds `needle` at offset `off`.
fn matches_at(haystack: &[u8], off: usize, needle: &[u8]) -> (r: bool)
    ensures
        r == has_at(haystack@, off as int, needle@),
{
    if off > haystack.len() || needle.len() > haystack.len() - off {
        return false;
    }
    let mut i: usize = 0;
    while i < needle.len()
        invariant
            off + needle.len() <= haystack.len(),
            i <= needle.len(),
            forall|j: int| 0 <= j < i ==> haystack@[off + j] == needle@[j],
        decreases needle.len() - i,
    {
        if haystack[off + i] != needle[i] {
            assert(haystack@.subrange(off as int, off + needle@.len())[i as int] != needle@[i as int]);
            return false;
        }
        i = i + 1;
    }
    assert(haystack@.subrange(off as int, off + needle@.len()) =~= needle@);
    true
}

fn starts_with(haystack: &[u8], needle: &[u8]) -> (r: bool)
    ensures
        r == has_at(haystack@, 0, needle@),
{
    matches_at(haystack, 0, needle)
}

fn lower_byte(c: u8) -> (r: u8)
    ensures
        r == ascii_lower(c),
{
    if 65 <= c && c <= 90 {
        c + 32
    } else {
        c
    }
}

fn starts_with_ci(haystack: &[u8], needle: &[u8]) -> (r: bool)
    ensures
        r == has_prefix_ci(haystack@, needle@),
{
    if needle.len() > haystack.len() {
        return false;
    }
    let mut i: usize = 0;
    while i < needle.len()
        invariant
            needle.len() <= haystack.len(),
            i <= needle.len(),
            forall|j: int| 0 <= j < i ==> ascii_lower(#[trigger] haystack@[j]) == ascii_lower(needle@[j]),
        decreases needle.len() - i,
    {
        if lower_byte(haystack[i]) != lower_byte(needle[i]) {
            return false;
        }
        i = i + 1;
    }
    true
}

/// Identify the media format from magic bytes. Returns [`None`] for unknown
/// or too-short input.
pub fn sniff(bytes: &[u8]) -> (r: Option<Format>)
    ensures
        r == sniff_spec(bytes@),
{
    if starts_with(bytes, &[0xFF, 0xD8, 0xFF]) {
        return Some(Format::Jpeg);
    }
    if starts_with(bytes, &[0x89, 0x50, 0x4E, 0x47, 0x0D, 0x0A, 0x1A, 0x0A]) {
        return Some(Format::Png);
    }
    if starts_with(bytes, &[0x47, 0x49, 0x46, 0x38, 0x37, 0x61])
        || starts_with(bytes, &[0x47, 0x49, 0x46, 0x38, 0x39, 0x61]) {
        return Some(Format::Gif);
    }
    if bytes.len() >= 12 && starts_with(bytes, &[0x52, 0x49, 0x46, 0x46])
        && matches_at(bytes, 8, &[0x57, 0x45, 0x42, 0x50]) {
        return Some(Format::WebP);
    }
    if bytes.len() >= 12 && matches_at(bytes, 4, &[0x66, 0x74, 0x79, 0x70])
        && matches_at(bytes, 8, &[0x61, 0x76, 0x69, 0x66]) {
        return Some(Format::Avif);
    }
    if starts_with(bytes, &[0x3C, 0x3F, 0x78, 0x6D, 0x6C])
        || starts_with_ci(bytes, &[0x3C, 0x73, 0x76, 0x67]) {
        return Some(Format::Svg);
    }
    if starts_with(bytes, &[0x25, 0x50, 0x44, 0x46]) {
        return Some(Format::Pdf);
    }
    None
}

/// `true` when the bytes look like one of the raster/vector image formats
/// (everything except [`Format::Pdf`]).
pub fn is_image(bytes: &[u8]) -> (r: bool)
    ensures
        r == is_image_spec(bytes@),
{
    match sniff(bytes) {
        Some(f) => !matches!(f, Format::Pdf),
        None => false,
    }
}


/// Sniffing reads nothing past the first twelve bytes: once a buffer holds
/// at least twelve bytes, appending anything to it leaves the verdict
/// unchanged.
pub proof fn lemma_sniff_reads_only_header(b: Seq<u8>, extra: Seq<u8>)
    requires
        b.len() >= 12,
    ensures
        sniff_spec(b + extra) == sniff_spec(b),
{
    let c = b + extra;
    assert forall|off: int, pat: Seq<u8>| 0 <= off && off + pat.len() <= 12 implies
        #[trigger] has_at(c, off, pat) == has_at(b, off, pat) by {
        assert(c.subrange(off, off + pat.len()) =~= b.subrange(off, off + pat.len()));
    }
    assert(has_prefix_ci(c, svg_magic()) == has_prefix_ci(b, svg_magic())) by {
        assert forall|i: int| 0 <= i < 4 implies c[i] == b[i] by {}
    }
    assert(has_at(c, 0, jpeg_magic()) == has_at(b, 0, jpeg_magic()));
    assert(has_at(c, 0, png_magic()) == has_at(b, 0, png_magic()));
    assert(has_at(c, 0, gif87_magic()) == has_at(b, 0, gif87_magic()));
    assert(has_at(c, 0, gif89_magic()) == has_at(b, 0, gif89_magic()));
    assert(has_at(c, 0, riff_magic()) == has_at(b, 0, riff_magic()));
    assert(has_at(c, 8, webp_tag()) == has_at(b, 8, webp_tag()));
    assert(has_at(c, 4, ftyp_tag()) == has_at(b, 4, ftyp_tag()));
    assert(has_at(c, 8, avif_brand()) == has_at(b, 8, avif_brand()));
    assert(has_at(c, 0, xml_magic()) == has_at(b, 0, xml_magic()));
    assert(has_at(c, 0, pdf_magic()) == has_at(b, 0, pdf_magic()));
}

/// The signatures, byte by byte: `FF D8 FF` is JPEG; `89 50 4E 47 0D 0A 1A
/// 0A` is PNG; `GIF87a` and `GIF89a` are GIF; `RIFF`, any four bytes, then
/// `WEBP` is WebP; any four bytes, `ftyp`, then `avif` is AVIF (unless
/// the buffer starts with an earlier signature); `%PDF` is PDF (unless the
/// AVIF `ftyp` tag follows it).
pub proof fn lemma_sniff_signatures(b: Seq<u8>)
    ensures
        b.len() >= 3 && b[0] == 0xFF && b[1] == 0xD8 && b[2] == 0xFF ==> sniff_spec(b) == Some(Format::Jpeg),
        b.len() >= 8 && b[0] == 0x89 && b[1] == 0x50 && b[2] == 0x4E && b[3] == 0x47 && b[4] == 0x0D && b[5] == 0x0A
            && b[6] == 0x1A && b[7] == 0x0A ==> sniff_spec(b) == Some(Format::Png),
        b.len() >= 6 && b[0] == 0x47 && b[1] == 0x49 && b[2] == 0x46 && b[3] == 0x38 && (b[4] == 0x37 || b[4] == 0x39)
            && b[5] == 0x61 ==> sniff_spec(b) == Some(Format::Gif),
        b.len() >= 12 && b[0] == 0x52 && b[1] == 0x49 && b[2] == 0x46 && b[3] == 0x46 && b[8] == 0x57 && b[9] == 0x45
            && b[10] == 0x42 && b[11] == 0x50 ==> sniff_spec(b) == Some(Format::WebP),
        b.len() >= 12 && b[0] != 0xFF && b[0] != 0x89 && b[0] != 0x47 && b[0] != 0x52 && b[4] == 0x66 && b[5] == 0x74
            && b[6] == 0x79 && b[7] == 0x70 && b[8] == 0x61 && b[9] == 0x76 && b[10] == 0x69 && b[11] == 0x66
            ==> sniff_spec(b) == Some(Format::Avif),
        b.len() >= 4 && b[0] == 0x25 && b[1] == 0x50 && b[2] == 0x44 && b[3] == 0x46 && (b.len() < 8 || b[4] != 0x66)
            ==> sniff_spec(b) == Some(
            Format::Pdf,
        ),
{
    if b.len() >= 3 && b[0] == 0xFF && b[1] == 0xD8 && b[2] == 0xFF {
        assert(b.subrange(0, 3) =~= jpeg_magic());
    }
    if b.len() >= 8 && b[0] == 0x89 && b[1] == 0x50 && b[2] == 0x4E && b[3] == 0x47 && b[4] == 0x0D && b[5] == 0x0A
        && b[6] == 0x1A && b[7] == 0x0A {
        assert(b.subrange(0, 3)[0] != jpeg_magic()[0]);
        assert(b.subrange(0, 8) =~= png_magic());
    }
    if b.len() >= 6 && b[0] == 0x47 && b[1] == 0x49 && b[2] == 0x46 && b[3] == 0x38 && (b[4] == 0x37 || b[4] == 0x39)
        && b[5] == 0x61 {
        assert(b.subrange(0, 3)[0] != jpeg_magic()[0]);
        if b.len() >= 8 {
            assert(b.subrange(0, 8)[0] != png_magic()[0]);
        }
        if b[4] == 0x37 {
            assert(b.subrange(0, 6) =~= gif87_magic());
        } else {
            assert(b.subrange(0, 6) =~= gif89_magic());
        }
    }
    if b.len() >= 12 && b[0] == 0x52 && b[1] == 0x49 && b[2] == 0x46 && b[3] == 0x46 && b[8] == 0x57 && b[9] == 0x45
        && b[10] == 0x42 && b[11] == 0x50 {
        assert(b.subrange(0, 3)[0] != jpeg_magic()[0]);
        assert(b.subrange(0, 8)[0] != png_magic()[0]);
        assert(b.subrange(0, 6)[0] != gif87_magic()[0]);
        assert(b.subrange(0, 6)[0] != gif89_magic()[0]);
        assert(b.subrange(0, 4) =~= riff_magic());
        assert(b.subrange(8, 12) =~= webp_tag());
    }
    if b.len() >= 12 && b[0] != 0xFF && b[0] != 0x89 && b[0] != 0x47 && b[0] != 0x52 && b[4] == 0x66 && b[5] == 0x74
        && b[6] == 0x79 && b[7] == 0x70 && b[8] == 0x61 && b[9] == 0x76 && b[10] == 0x69 && b[11] == 0x66 {
        assert(b.subrange(0, 3)[0] != jpeg_magic()[0]);
        assert(b.subrange(0, 8)[0] != png_magic()[0]);
        assert(b.subrange(0, 6)[0] != gif87_magic()[0]);
        assert(b.subrange(0, 6)[0] != gif89_magic()[0]);
        assert(b.subrange(0, 4)[0] != riff_magic()[0]);
        assert(b.subrange(4, 8) =~= ftyp_tag());
        assert(b.subrange(8, 12) =~= avif_brand());
    }
    if b.len() >= 4 && b[0] == 0x25 && b[1] == 0x50 && b[2] == 0x44 && b[3] == 0x46 && (b.len() < 8 || b[4] != 0x66) {
        if b.len() >= 3 {
            assert(b.subrange(0, 3)[0] != jpeg_magic()[0]);
        }
        if b.len() >= 8 {
            assert(b.subrange(0, 8)[0] != png_magic()[0]);
        }
        if b.len() >= 6 {
            assert(b.subrange(0, 6)[0] != gif87_magic()[0]);
            assert(b.subrange(0, 6)[0] != gif89_magic()[0]);
        }
        if b.len() >= 12 {
            assert(b.subrange(0, 4)[0] != riff_magic()[0]);
            assert(b.subrange(4, 8)[0] != ftyp_tag()[0]);
        }
        assert(b.subrange(0, 5)[0] != xml_magic()[0] || b.len() < 5);
        assert(ascii_lower(b[0]) != ascii_lower(svg_magic()[0]));
        assert(b.subrange(0, 4) =~= pdf_magic());
    }
}

/// JPEG detection is position-sensitive: a buffer sniffs as JPEG exactly
/// when its first three bytes are `FF D8 FF`.
pub proof fn lemma_jpeg_iff_magic_at_start(b: Seq<u8>)
    ensures
        (sniff_spec(b) == Some(Format::Jpeg)) == has_at(b, 0, jpeg_magic()),
{
}

/// Only raster/vector formats count as images: PDF and unrecognized
/// buffers are not images, every other recognized format is.
pub proof fn lemma_is_image_iff_recognized_non_pdf(b: Seq<u8>)
    ensures
        is_image_spec(b) == (sniff_spec(b).is_some() && sniff_spec(b) != Some(Format::Pdf)),
{
}

} // verus!
