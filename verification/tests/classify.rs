use image_search::classify::{classify, extension_of, has_svg_tag, Category};
use image_search::DownloadError;

const PNG: [u8; 12] = [0x89, 0x50, 0x4e, 0x47, 0x0d, 0x0a, 0x1a, 0x0a, 0, 0, 0, 0x0d];
const JPEG: [u8; 6] = [0xff, 0xd8, 0xff, 0xe0, 0x00, 0x10];
const ZIP: [u8; 8] = [0x50, 0x4b, 0x03, 0x04, 0x14, 0x00, 0x00, 0x00];

fn padded(front: &[u8], fill: u8, length: usize, back: &[u8]) -> Vec<u8> {
    let mut bytes = front.to_vec();
    while bytes.len() < length {
        bytes.push(fill);
    }
    bytes.extend_from_slice(back);
    bytes
}

#[test]
fn images_are_known_by_their_signature() {
    assert_eq!(classify(&PNG).unwrap(), "png");
    assert_eq!(classify(&JPEG).unwrap(), "jpg");
    assert_eq!(classify(b"GIF89a\x01\x00\x01\x00").unwrap(), "gif");
    assert_eq!(classify(b"BM\x46\x00\x00\x00").unwrap(), "bmp");
}

#[test]
fn svg_is_known_by_its_tag() {
    assert_eq!(classify(b"<svg xmlns=\"http://www.w3.org/2000/svg\"></svg>").unwrap(), "svg");
    assert_eq!(classify(b"<?xml version=\"1.0\"?>\n<svg width=\"1\"/>").unwrap(), "svg");
    assert_eq!(classify(b"<svg").unwrap(), "svg");
    assert_eq!(classify("caf\u{e9} <svg>".as_bytes()).unwrap(), "svg");
}

#[test]
fn svg_tag_wins_over_a_signature() {
    assert_eq!(classify(b"GIF89a and then <svg>").unwrap(), "svg");
    assert_eq!(classify(b"PK\x03\x04 <svg>").unwrap(), "svg");
    assert_eq!(classify(b"BM <svg>").unwrap(), "svg");
}

#[test]
fn other_signatures_are_refused() {
    assert!(matches!(classify(&ZIP), Err(DownloadError::Extension)));
    assert!(matches!(classify(b"%PDF-1.4\n"), Err(DownloadError::Extension)));
    assert!(matches!(classify(b"\x7fELF\x02\x01\x01\x00"), Err(DownloadError::Extension)));
    assert!(matches!(classify(b"<html ><body></body></html>"), Err(DownloadError::Extension)));
}

#[test]
fn bytes_without_a_signature_are_refused() {
    assert!(matches!(classify(b""), Err(DownloadError::Extension)));
    assert!(matches!(classify(b"plain words"), Err(DownloadError::Extension)));
    assert!(matches!(classify(&[0, 1, 2, 3]), Err(DownloadError::Extension)));
    assert!(matches!(classify(b"<sv"), Err(DownloadError::Extension)));
}

#[test]
fn tag_counts_only_in_the_head() {
    assert!(has_svg_tag(&padded(b"", b' ', 1020, b"<svg>")));
    assert!(!has_svg_tag(&padded(b"", b' ', 1021, b"<svg>")));
    assert!(!has_svg_tag(&padded(b"", b' ', 1024, b"<svg>")));
    assert!(!has_svg_tag(&padded(b"", b' ', 5000, b"<svg>")));
    assert_eq!(classify(&padded(b"", b' ', 1020, b"<svg>")).unwrap(), "svg");
    assert!(matches!(
        classify(&padded(b"", b' ', 1021, b"<svg>")),
        Err(DownloadError::Extension)
    ));
    assert_eq!(classify(&padded(b"GIF89a", b' ', 2000, b"<svg>")).unwrap(), "gif");
}

#[test]
fn head_that_is_no_text_holds_no_tag() {
    assert!(!has_svg_tag(b"\xff<svg>"));
    assert!(!has_svg_tag(&padded(b"<svg>", b' ', 1023, "\u{e9}".as_bytes())));
    assert!(has_svg_tag(&padded(b"<svg>", b' ', 1022, "\u{e9}".as_bytes())));
    assert!(has_svg_tag(&padded(b"<svg>", b' ', 1024, b"\xff\xff")));
    assert_eq!(classify(&padded(&PNG, b' ', 100, b"<svg>")).unwrap(), "png");
    assert_eq!(classify(&padded(&JPEG, b' ', 100, b"<svg>")).unwrap(), "jpg");
    assert!(matches!(classify(b"\xff<svg>"), Err(DownloadError::Extension)));
}

#[test]
fn only_the_signature_of_an_image_has_an_extension() {
    assert_eq!(extension_of(Some((Category::Image, "png".to_string()))).unwrap(), "png");
    assert_eq!(extension_of(Some((Category::Image, "webp".to_string()))).unwrap(), "webp");
    assert!(matches!(extension_of(None), Err(DownloadError::Extension)));
    for category in [
        Category::App,
        Category::Archive,
        Category::Audio,
        Category::Book,
        Category::Doc,
        Category::Font,
        Category::Text,
        Category::Video,
        Category::Custom,
    ] {
        assert!(matches!(
            extension_of(Some((category, "zip".to_string()))),
            Err(DownloadError::Extension)
        ));
    }
}
