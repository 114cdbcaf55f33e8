use boinc::format::{detect_format_from, is_plain_text, sniff, Format, Sniffed, RASTERS};
use boinc::error::ConversionError;

#[test]
fn extension_parsing() {
    assert_eq!(Format::from_extension("png"), Some(Format::Png));
    assert_eq!(Format::from_extension(".PNG"), Some(Format::Png));
    assert_eq!(Format::from_extension("jpeg"), Some(Format::Jpg));
    assert_eq!(Format::from_extension("JPG"), Some(Format::Jpg));
    assert_eq!(Format::from_extension("md"), Some(Format::Md));
    assert_eq!(Format::from_extension("markdown"), Some(Format::Md));
    assert_eq!(Format::from_extension("txt"), None);
}

#[test]
fn sniffs_magic_bytes() {
    assert!(matches!(
        sniff(b"\x89PNG\r\n\x1a\n...."),
        Sniffed::Known(Format::Png)
    ));
    assert!(matches!(
        sniff(&[0xFF, 0xD8, 0xFF, 0xE0]),
        Sniffed::Known(Format::Jpg)
    ));
    assert!(matches!(sniff(b"%PDF-1.7\n"), Sniffed::Known(Format::Pdf)));
    assert!(matches!(
        sniff(b"PK\x03\x04....word/document.xml"),
        Sniffed::Known(Format::Docx)
    ));
    assert!(matches!(sniff(b"PK\x03\x04....other.txt"), Sniffed::Zip));
    assert!(matches!(
        sniff(b"# Heading\n\nBody *text*.\n"),
        Sniffed::Text
    ));
    assert!(matches!(sniff("héllo".as_bytes()), Sniffed::Text));
    // A multi-byte character split by the sniff window is still text...
    assert!(matches!(sniff(&"héllo".as_bytes()[..2]), Sniffed::Text));
    // ...but invalid UTF-8 or control bytes in the middle are not.
    assert!(matches!(sniff(&[0x68, 0xFF, 0x69]), Sniffed::Unknown));
    assert!(matches!(sniff(b"hel\x00lo"), Sniffed::Unknown));
}

#[test]
fn every_extension_parses_back() {
    for f in boinc::format::ALL {
        assert_eq!(Format::from_extension(f.extension()), Some(f));
        let dotted = format!(".{}", f.extension().to_uppercase());
        assert_eq!(Format::from_extension(&dotted), Some(f));
    }
}

#[test]
fn extension_edge_cases() {
    assert_eq!(Format::from_extension("..png"), Some(Format::Png));
    assert_eq!(Format::from_extension("MarkDown"), Some(Format::Md));
    assert_eq!(Format::from_extension("WEBP"), Some(Format::WebP));
    assert_eq!(Format::from_extension(""), None);
    assert_eq!(Format::from_extension("."), None);
    assert_eq!(Format::from_extension("png "), None);
}

#[test]
fn names_and_extensions() {
    assert_eq!(Format::Md.display_name(), "Markdown");
    assert_eq!(Format::WebP.display_name(), "WebP");
    assert_eq!(Format::Docx.extension(), "docx");
    assert_eq!(RASTERS.len(), 5);
    assert!(RASTERS.iter().all(|f| f.is_raster()));
    assert!(!Format::Svg.is_raster());
    assert!(!Format::Pdf.is_raster());
}

#[test]
fn sniffs_other_rasters_and_svg() {
    assert!(matches!(sniff(b"GIF89a\x01\x00"), Sniffed::Known(Format::Gif)));
    assert!(matches!(sniff(b"GIF87a"), Sniffed::Known(Format::Gif)));
    assert!(matches!(
        sniff(b"RIFF\x10\x00\x00\x00WEBPVP8 "),
        Sniffed::Known(Format::WebP)
    ));
    assert!(matches!(
        sniff(b"BM\x36\x00\x00\x00\x00\x00\x00\x00\x36\x00\x00\x00"),
        Sniffed::Known(Format::Bmp)
    ));
    // Text that merely starts with "BM" is not a bitmap.
    assert!(matches!(sniff(b"BMW cars are fast\n"), Sniffed::Text));
    assert!(matches!(
        sniff(b"<?xml version=\"1.0\"?>\n<svg width=\"1\"></svg>\n"),
        Sniffed::Known(Format::Svg)
    ));
    assert!(matches!(sniff(b"  <svg></svg>"), Sniffed::Known(Format::Svg)));
    // Markdown mentioning an svg tag mid-text stays text.
    assert!(matches!(sniff(b"# Title\n<svg>\n"), Sniffed::Text));
    assert!(matches!(sniff(b""), Sniffed::Text));
}

#[test]
fn plain_text_rules() {
    assert!(is_plain_text(b"tab\tok\r\n\x0cform feed"));
    assert!(!is_plain_text(b"bell\x07"));
    // Overlong encoding and surrogates are not UTF-8.
    assert!(!is_plain_text(&[0xC0, 0x80]));
    assert!(!is_plain_text(&[0xED, 0xA0, 0x80]));
    // A truncated four-byte sequence at the end is fine, a broken one is not.
    assert!(is_plain_text(&[0x61, 0xF0, 0x9F, 0x98]));
    assert!(!is_plain_text(&[0x61, 0xF0, 0x9F, 0x41]));
    assert!(is_plain_text("😀".as_bytes()));
}

#[test]
fn markdown_is_detected() {
    let md = detect_format_from("notes.md", b"# Heading\n\nSome *text* with `code`.\n", Some("md"));
    assert_eq!(md, Ok(Format::Md));
    let markdown = detect_format_from("notes.markdown", b"plain paragraph\n", Some("markdown"));
    assert_eq!(markdown, Ok(Format::Md));
}

#[test]
fn binary_data_with_md_extension_is_unknown() {
    let err = detect_format_from("fake.md", &[0u8, 159, 146, 150, 7, 3], Some("md")).unwrap_err();
    assert!(matches!(err, ConversionError::UnknownFormat { .. }));
    assert_eq!(err.message(), "could not determine the format of fake.md");
}

#[test]
fn detection_ignores_wrong_extension() {
    assert_eq!(
        detect_format_from("actually-a-png.jpg", b"\x89PNG\r\n\x1a\n....", Some("jpg")),
        Ok(Format::Png)
    );
}

#[test]
fn zip_needs_docx_extension() {
    assert_eq!(
        detect_format_from("a.docx", b"PK\x03\x04....content", Some("docx")),
        Ok(Format::Docx)
    );
    assert!(detect_format_from("a.zip", b"PK\x03\x04....content", Some("zip")).is_err());
    assert!(detect_format_from("notes", b"just text\n", None).is_err());
}

#[test]
fn del_is_a_control_byte() {
    assert!(!boinc::format::is_plain_text(&[0x7f]));
    assert!(!boinc::format::is_plain_text(b"abc\x7fdef"));
    assert!(boinc::format::is_plain_text(b"tab\tand\x0cfeed\r\n"));
    assert_eq!(boinc::format::sniff(b"text\x7f"), boinc::format::Sniffed::Unknown);
}

#[test]
fn only_the_sniff_window_counts() {
    let mut png = b"\x89PNG\r\n\x1a\n".to_vec();
    png.resize(boinc::format::SNIFF_LEN, b'a');
    png.extend_from_slice(b"%PDF-1.7 and more bytes past the window");
    assert_eq!(boinc::format::detect_format_in("x.md", &png, Some("md")), Ok(Format::Png));
    let mut text = vec![b'a'; boinc::format::SNIFF_LEN];
    text.push(0);
    assert_eq!(boinc::format::detect_format_in("notes.md", &text, Some("md")), Ok(Format::Md));
    assert!(boinc::format::detect_format_from("notes.md", &text, Some("md")).is_err());
}
