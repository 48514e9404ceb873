use media_kit::sniff::{is_image, sniff, Format};

#[test]
fn jpeg_magic() {
    assert_eq!(sniff(&[0xFF, 0xD8, 0xFF, 0xE0]), Some(Format::Jpeg));
}

#[test]
fn jpeg_needs_three_bytes() {
    assert_eq!(sniff(&[0xFF, 0xD8]), None);
    assert_eq!(sniff(&[0xFF]), None);
}

#[test]
fn png_magic() {
    let sig = [0x89, 0x50, 0x4E, 0x47, 0x0D, 0x0A, 0x1A, 0x0A];
    assert_eq!(sniff(&sig), Some(Format::Png));
    assert_eq!(sniff(&[]), None);
}

#[test]
fn gif_variants() {
    assert_eq!(sniff(b"GIF87a rest"), Some(Format::Gif));
    assert_eq!(sniff(b"GIF89a rest"), Some(Format::Gif));
    assert_eq!(sniff(b"GIF88a"), None);
}

#[test]
fn webp_magic() {
    let mut b = b"RIFF\x00\x00\x00\x00WEBPVP8 ".to_vec();
    assert_eq!(sniff(&b), Some(Format::WebP));
    b[8..12].copy_from_slice(b"MP3 ");
    assert_eq!(sniff(&b), None);
}

#[test]
fn avif_magic() {
    let b = b"\x00\x00\x00\x20ftypavif\x00\x00\x00\x00avifmif1";
    assert_eq!(sniff(b), Some(Format::Avif));
    // Non-avif brand (heic) must not match.
    let h = b"\x00\x00\x00\x20ftypheic\x00\x00\x00\x00heicmif1";
    assert_eq!(sniff(h), None);
}

#[test]
fn svg_magic() {
    assert_eq!(
        sniff(b"<?xml version=\"1.0\"?><svg xmlns=\"...\">"),
        Some(Format::Svg)
    );
    assert_eq!(sniff(b"<svg xmlns=\"...\">"), Some(Format::Svg));
    // Case-insensitive on the tag itself.
    assert_eq!(sniff(b"<SVG xmlns=\"...\">"), Some(Format::Svg));
}

#[test]
fn pdf_magic() {
    assert_eq!(sniff(b"%PDF-1.7 ..."), Some(Format::Pdf));
    assert!(!is_image(b"%PDF-1.7 ..."));
}

#[test]
fn garbage_is_none() {
    assert_eq!(sniff(b"not a media file at all"), None);
    assert_eq!(sniff(&[]), None);
    assert!(!is_image(b"garbage"));
}

#[test]
fn is_image_true_for_rasters() {
    assert!(is_image(&[0xFF, 0xD8, 0xFF, 0xE0]));
    assert!(is_image(&[0x89, 0x50, 0x4E, 0x47, 0x0D, 0x0A, 0x1A, 0x0A]));
    assert!(is_image(b"GIF89a......"));
    assert!(is_image(b"RIFF\x12\x00\x00\x00WEBP"));
}

#[test]
fn extensions() {
    assert_eq!(Format::Jpeg.extension(), "jpg");
    assert_eq!(Format::WebP.extension(), "webp");
}

#[test]
fn sniff_rejects_garbage() {
    let mut rng_state = 0x12345678u32;
    for _ in 0..256 {
        rng_state = rng_state.wrapping_mul(1664525).wrapping_add(1013904223);
        let bytes = rng_state.to_be_bytes().repeat(4);
        if sniff(&bytes).is_some() {
            // Only possible if we accidentally generated a magic prefix;
            // the multiplier constants make that essentially impossible.
            panic!("sniff accepted garbage: {bytes:?}");
        }
    }
    assert_eq!(sniff(b""), None);
    assert_eq!(sniff(&[0u8; 32]), None);
}

#[test]
fn all_extensions_are_canonical() {
    let expect = [
        (Format::Jpeg, "jpg"),
        (Format::Png, "png"),
        (Format::Gif, "gif"),
        (Format::WebP, "webp"),
        (Format::Avif, "avif"),
        (Format::Svg, "svg"),
        (Format::Pdf, "pdf"),
    ];
    for (f, e) in expect {
        assert_eq!(f.extension(), e);
    }
}

#[test]
fn sniff_reads_only_the_header() {
    // Same first 12 bytes, different tails: same verdict.
    let a = b"GIF89a\x01\x00\x01\x00\x00\x00 first tail".to_vec();
    let b = b"GIF89a\x01\x00\x01\x00\x00\x00 an entirely different tail!".to_vec();
    assert_eq!(sniff(&a), sniff(&b));
    let c = b"%PDF-1.7 ....... one".to_vec();
    let d = b"%PDF-1.7 ....... two two".to_vec();
    assert_eq!(sniff(&c), sniff(&d));
}

#[test]
fn jpeg_iff_magic_at_start() {
    assert_eq!(sniff(&[0xFF, 0xD8, 0xFF]), Some(Format::Jpeg));
    assert_eq!(sniff(&[0x00, 0xFF, 0xD8, 0xFF]), None);
    assert_eq!(sniff(&[0xFF, 0xD8, 0xFE, 0xFF]), None);
}

#[test]
fn is_image_is_recognized_and_not_pdf() {
    assert!(is_image(b"<svg>"));
    assert!(is_image(b"\x00\x00\x00\x20ftypavif\x00\x00\x00\x00"));
    assert!(!is_image(b"%PDF-"));
    assert!(!is_image(b""));
}

#[test]
fn svg_after_leading_whitespace_is_not_sniffed() {
    // Detection is by prefix only.
    assert_eq!(sniff(b"  <svg>"), None);
}
