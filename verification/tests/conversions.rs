use boinc::converter::ConversionOptions;
use boinc::error::ConversionError;
use boinc::format::{detect_format_from, sniff, Format, Sniffed};
use boinc::output::OutputPolicy;
use boinc::pipeline::{plan_conversion, ConversionRequest, OutputChoice};
use boinc::registry::ConverterRegistry;

/// A 3×2 PNG with a different red level in every pixel.
fn test_png() -> Vec<u8> {
    let mut img = image::RgbaImage::new(3, 2);
    for (i, pixel) in img.pixels_mut().enumerate() {
        *pixel = image::Rgba([(i * 40) as u8, 100, 200, 255]);
    }
    let mut out = std::io::Cursor::new(Vec::new());
    img.write_to(&mut out, image::ImageFormat::Png).unwrap();
    out.into_inner()
}

fn dimensions(bytes: &[u8]) -> (u32, u32) {
    let img = image::load_from_memory(bytes).unwrap();
    (img.width(), img.height())
}


/// The library's form of a decoded image.
fn to_decoded(img: image::DynamicImage) -> boinc::raster::DecodedImage {
    let (width, height) = (img.width(), img.height());
    let samples = match img {
        image::DynamicImage::ImageLuma8(b) => boinc::raster::Samples::L8(b.into_raw()),
        image::DynamicImage::ImageLumaA8(b) => boinc::raster::Samples::La8(b.into_raw()),
        image::DynamicImage::ImageRgb8(b) => boinc::raster::Samples::Rgb8(b.into_raw()),
        image::DynamicImage::ImageRgba8(b) => boinc::raster::Samples::Rgba8(b.into_raw()),
        image::DynamicImage::ImageLuma16(b) => boinc::raster::Samples::L16(b.into_raw()),
        image::DynamicImage::ImageLumaA16(b) => boinc::raster::Samples::La16(b.into_raw()),
        image::DynamicImage::ImageRgb16(b) => boinc::raster::Samples::Rgb16(b.into_raw()),
        image::DynamicImage::ImageRgba16(b) => boinc::raster::Samples::Rgba16(b.into_raw()),
        other => panic!("unexpected colour type {:?}", other.color()),
    };
    boinc::raster::DecodedImage { width, height, samples }
}

/// Decode `bytes` as the program does, then convert them with the library.
fn convert_raster(
    bytes: &[u8],
    from: Format,
    to: Format,
    options: &ConversionOptions,
) -> Result<Vec<u8>, ConversionError> {
    let img = image::load_from_memory(bytes)
        .map_err(|e| ConversionError::Image { message: e.to_string() })?;
    match boinc::raster::raster_encoding(from, to, options)? {
        boinc::raster::RasterEncoding::Jpeg { quality, background } => {
            let rgba = img.to_rgba8();
            let (w, h) = rgba.dimensions();
            boinc::raster::encode_jpeg_flattened(rgba.as_raw(), w, h, quality, background)
        }
        _ => boinc::raster::reencode(to_decoded(img), to),
    }
}

/// Decode `bytes`, then trace their RGBA pixels with the library.
fn image_to_svg(bytes: &[u8]) -> Result<String, ConversionError> {
    let img = image::load_from_memory(bytes)
        .map_err(|e| ConversionError::Image { message: e.to_string() })?;
    let rgba = img.to_rgba8();
    let (w, h) = rgba.dimensions();
    boinc::vector::trace_to_svg(rgba.into_raw(), w as usize, h as usize)
}

fn svg_markup(bytes: &[u8]) -> String {
    let svg = image_to_svg(bytes).unwrap();
    assert_eq!(sniff(svg.as_bytes()), Sniffed::Known(Format::Svg));
    svg
}

#[test]
fn png_jpg_round_trip() {
    let options = ConversionOptions::default();
    let png = test_png();
    let jpg = convert_raster(&png, Format::Png, Format::Jpg, &options).unwrap();
    assert_eq!(detect_format_from("pic.jpg", &jpg, Some("jpg")), Ok(Format::Jpg));
    let back = convert_raster(&jpg, Format::Jpg, Format::Png, &options).unwrap();
    assert_eq!(detect_format_from("pic.png", &back, Some("png")), Ok(Format::Png));
    assert_eq!(dimensions(&back), (3, 2));
    // Next to the input, under the input's stem.
    let policy = OutputPolicy::default();
    assert_eq!(
        policy.output_path("/photos", Some("pic"), Format::Jpg, |name: &str| name == "pic.png"),
        Some(("/photos".to_string(), "pic.jpg".to_string()))
    );
}

#[test]
fn default_output_never_overwrites() {
    let policy = OutputPolicy::default();
    let first = policy.output_path("/d", Some("pic"), Format::Jpg, |name: &str| name == "pic.png");
    assert_eq!(first, Some(("/d".to_string(), "pic.jpg".to_string())));
    let taken = ["pic.png", "pic.jpg"];
    let second = policy.output_path("/d", Some("pic"), Format::Jpg, |name: &str| taken.contains(&name));
    assert_eq!(second, Some(("/d".to_string(), "pic (1).jpg".to_string())));
}

#[test]
fn explicit_existing_output_is_an_error() {
    let registry = ConverterRegistry::with_defaults();
    let mut request = ConversionRequest::new("/d/pic.png".to_string(), Format::Jpg);
    request.output = Some("/d/out.jpg".to_string());
    assert_eq!(
        plan_conversion(&registry, &request, Ok(Format::Png), false, true),
        Err(ConversionError::OutputExists { path: "/d/out.jpg".to_string() })
    );
    assert!(matches!(
        plan_conversion(&registry, &request, Ok(Format::Png), false, false),
        Ok((Format::Png, _, OutputChoice::Explicit { .. }))
    ));
}

#[test]
fn garbage_input_is_unknown() {
    let registry = ConverterRegistry::with_defaults();
    let detected = detect_format_from("junk.png", b"not an image at all", Some("png"));
    let request = ConversionRequest::new("junk.png".to_string(), Format::Jpg);
    let err = plan_conversion(&registry, &request, detected, true, false).unwrap_err();
    assert!(matches!(err, ConversionError::UnknownFormat { .. }));
    assert_eq!(err.message(), "could not determine the format of junk.png");
}

#[test]
fn png_to_svg() {
    let svg = svg_markup(&test_png());
    assert!(svg.to_ascii_lowercase().contains("<svg"));
    assert_eq!(
        OutputPolicy::default().output_path("/d", Some("pic"), Format::Svg, |_: &str| false),
        Some(("/d".to_string(), "pic.svg".to_string()))
    );
}

#[test]
fn jpg_to_svg() {
    let jpg = convert_raster(&test_png(), Format::Png, Format::Jpg, &ConversionOptions::default()).unwrap();
    let svg = svg_markup(&jpg);
    assert!(svg.to_ascii_lowercase().contains("<svg"));
}

#[test]
fn bmp_gif_webp_round_trip_and_to_svg() {
    let options = ConversionOptions::default();
    let png = test_png();
    for to in [Format::Bmp, Format::Gif, Format::WebP] {
        let raster = convert_raster(&png, Format::Png, to, &options).unwrap();
        assert_eq!(detect_format_from("pic", &raster, None), Ok(to), "encode {to:?}");
        let back = convert_raster(&raster, to, Format::Png, &options).unwrap();
        assert_eq!(dimensions(&back), (3, 2), "round-trip {to:?}");
        let svg = svg_markup(&raster);
        assert!(svg.to_ascii_lowercase().contains("<svg"), "svg markup for {to:?}");
    }
}

#[test]
fn minimal_docx_is_detected() {
    // The start of a DOCX container: a ZIP local file header naming a part
    // under `word/`.
    let mut docx = b"PK\x03\x04\x14\x00\x00\x00\x08\x00\x00\x00\x00\x00".to_vec();
    docx.extend_from_slice(b"\x00\x00\x00\x00\x00\x00\x00\x00\x00\x00\x00\x00\x11\x00\x00\x00");
    docx.extend_from_slice(b"word/document.xml");
    assert_eq!(detect_format_from("hello.docx", &docx, Some("docx")), Ok(Format::Docx));
    assert_eq!(detect_format_from("hello.zip", &docx, Some("zip")), Ok(Format::Docx));
}
