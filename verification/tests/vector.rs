use boinc::error::ConversionError;
use boinc::vector::trace_to_svg;

/// Decode `bytes`, then trace their RGBA pixels with the library.
fn image_to_svg(bytes: &[u8]) -> Result<String, ConversionError> {
    let img = image::load_from_memory(bytes)
        .map_err(|e| ConversionError::Image { message: e.to_string() })?;
    let rgba = img.to_rgba8();
    let (w, h) = rgba.dimensions();
    boinc::vector::trace_to_svg(rgba.into_raw(), w as usize, h as usize)
}


#[test]
fn traces_pixels_into_svg_markup() {
    let mut pixels = Vec::new();
    for i in 0..6u8 {
        pixels.extend_from_slice(&[i * 40, 100, 200, 255]);
    }
    let svg = trace_to_svg(pixels, 3, 2).unwrap();
    assert!(svg.starts_with("<?xml version=\"1.0\" encoding=\"UTF-8\"?>\n"));
    assert!(svg.contains("width=\"3\" height=\"2\""));
    assert!(svg.ends_with("</svg>\n"));
    assert!(matches!(
        boinc::format::sniff(svg.as_bytes()),
        boinc::format::Sniffed::Known(boinc::format::Format::Svg)
    ));
}

#[test]
fn traces_an_encoded_image() {
    let img = image::RgbaImage::from_pixel(4, 3, image::Rgba([0, 128, 255, 255]));
    let mut png = std::io::Cursor::new(Vec::new());
    img.write_to(&mut png, image::ImageFormat::Png).unwrap();
    let svg = image_to_svg(&png.into_inner()).unwrap();
    assert!(svg.contains("width=\"4\" height=\"3\""));
    assert!(matches!(
        image_to_svg(b"garbage"),
        Err(ConversionError::Image { .. })
    ));
}

#[test]
fn traced_transparent_images_are_detected_as_svg() {
    let mut img = image::RgbaImage::from_pixel(6, 6, image::Rgba([0, 0, 0, 0]));
    img.put_pixel(2, 2, image::Rgba([200, 10, 10, 255]));
    let mut png = std::io::Cursor::new(Vec::new());
    img.write_to(&mut png, image::ImageFormat::Png).unwrap();
    let svg = image_to_svg(&png.into_inner()).unwrap();
    assert!(svg.bytes().all(|b| (0x20..=0x7e).contains(&b) || b == b'\n'));
    assert_eq!(
        boinc::format::detect_format_in("out.svg", svg.as_bytes(), Some("txt")),
        Ok(boinc::format::Format::Svg)
    );
}

#[test]
fn tracing_succeeds_with_a_free_key_colour() {
    // Transparent pixels need a key colour; pure red is used by the image,
    // but green is free, so tracing cannot fail.
    let mut pixels = Vec::new();
    for i in 0..16u8 {
        if i % 2 == 0 {
            pixels.extend_from_slice(&[255, 0, 0, 255]);
        } else {
            pixels.extend_from_slice(&[0, 0, 0, 0]);
        }
    }
    assert!(trace_to_svg(pixels, 4, 4).is_ok());
}

#[test]
fn tracing_empty_images() {
    // Nothing to trace: an empty document, no panic.
    let svg = trace_to_svg(Vec::new(), 0, 0).unwrap();
    assert!(svg.ends_with("</svg>\n"));
    assert!(trace_to_svg(Vec::new(), 0, 5).is_ok());
    assert!(trace_to_svg(Vec::new(), 5, 0).is_ok());
    assert!(trace_to_svg(vec![0, 0, 0, 0], 1, 1).is_ok());
}
