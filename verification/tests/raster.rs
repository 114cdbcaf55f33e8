use boinc::converter::ConversionOptions;
use boinc::error::ConversionError;
use boinc::format::Format;
use boinc::raster::{
    clamp_quality, encode_jpeg_flattened, flatten, raster_encoding, RasterEncoding,
};

#[test]
fn flatten_blends_transparency_onto_background() {
    // Two RGBA pixels: opaque, then fully transparent.
    let img = vec![10u8, 20, 30, 255, 10, 20, 30, 0];
    let out = flatten(&img, [200, 100, 50]);
    assert_eq!(&out[0..3], &[10, 20, 30]);
    assert_eq!(&out[3..6], &[200, 100, 50]);
}

#[test]
fn flatten_half_transparent() {
    let out = flatten(&[255, 0, 100, 128], [0, 255, 100]);
    assert_eq!(out, vec![128, 127, 100]);
    assert!(flatten(&[], [1, 2, 3]).is_empty());
}

#[test]
fn encodings_per_target() {
    let mut options = ConversionOptions::default();
    assert_eq!(options.jpeg_quality, 90);
    assert_eq!(options.background, [255, 255, 255]);
    options.jpeg_quality = 0;
    options.background = [255, 0, 0];
    assert_eq!(
        raster_encoding(Format::Png, Format::Jpg, &options),
        Ok(RasterEncoding::Jpeg { quality: 1, background: [255, 0, 0] })
    );
    assert_eq!(raster_encoding(Format::Jpg, Format::WebP, &options), Ok(RasterEncoding::WebP));
    assert_eq!(
        raster_encoding(Format::Png, Format::Pdf, &options),
        Err(ConversionError::Unsupported { from: Format::Png, to: Format::Pdf })
    );
    assert_eq!(clamp_quality(250), 100);
    assert_eq!(clamp_quality(55), 55);
}


/// The library's form of a decoded image.
fn to_decoded(img: image::DynamicImage) -> boinc::raster::DecodedImage {
    let (width, height) = (img.width(), img.height());
    let samples = match img {
        image::DynamicImage::ImageLuma8(b) => boinc::raster::Samples::L8(b.into_raw()),
        image::DynamicImage::ImageLumaA8(b) => boinc::raster::Samples::La8(b.into_raw()),
        image::DynamicImage::ImageRgb8(b) => boinc::raster::Samples::Rgb8(b.into_raw()),
        image::DynamicImage::ImageRgba8(b) => boinc::raster::Samples::Rgba8(b.into_raw()),
        image::DynamicImage::ImageLuma16(b) => boinc::raster::Samples::L16(b.into_raw()),
        image::DynamicImage::ImageLumaA16(b) => boinc::raster::Samples::La16(b.into_raw()),
        image::DynamicImage::ImageRgb16(b) => boinc::raster::Samples::Rgb16(b.into_raw()),
        image::DynamicImage::ImageRgba16(b) => boinc::raster::Samples::Rgba16(b.into_raw()),
        other => panic!("unexpected colour type {:?}", other.color()),
    };
    boinc::raster::DecodedImage { width, height, samples }
}

/// Decode `bytes` as the program does, then convert them with the library.
fn convert_raster(
    bytes: &[u8],
    from: Format,
    to: Format,
    options: &ConversionOptions,
) -> Result<Vec<u8>, ConversionError> {
    let img = image::load_from_memory(bytes)
        .map_err(|e| ConversionError::Image { message: e.to_string() })?;
    match boinc::raster::raster_encoding(from, to, options)? {
        boinc::raster::RasterEncoding::Jpeg { quality, background } => {
            let rgba = img.to_rgba8();
            let (w, h) = rgba.dimensions();
            boinc::raster::encode_jpeg_flattened(rgba.as_raw(), w, h, quality, background)
        }
        _ => boinc::raster::reencode(to_decoded(img), to),
    }
}

fn png_bytes(img: &image::RgbaImage) -> Vec<u8> {
    let mut out = std::io::Cursor::new(Vec::new());
    img.write_to(&mut out, image::ImageFormat::Png).unwrap();
    out.into_inner()
}

#[test]
fn transparent_png_flattens_onto_background() {
    let img = image::RgbaImage::from_pixel(8, 8, image::Rgba([0, 0, 0, 0]));
    let mut options = ConversionOptions::default();
    options.background = [255, 0, 0];
    let jpg = convert_raster(&png_bytes(&img), Format::Png, Format::Jpg, &options).unwrap();
    assert_eq!(boinc::format::sniff(&jpg), boinc::format::Sniffed::Known(Format::Jpg));
    let back = image::load_from_memory(&jpg).unwrap().to_rgb8();
    let pixel = back.get_pixel(4, 4).0;
    assert!(pixel[0] > 220 && pixel[1] < 40 && pixel[2] < 40, "got {pixel:?}");
}

#[test]
fn raster_targets_keep_dimensions() {
    let mut img = image::RgbaImage::new(3, 2);
    for (i, pixel) in img.pixels_mut().enumerate() {
        *pixel = image::Rgba([(i * 40) as u8, 100, 200, 255]);
    }
    let png = png_bytes(&img);
    let options = ConversionOptions::default();
    for to in [Format::Jpg, Format::Bmp, Format::Gif, Format::WebP] {
        let out = convert_raster(&png, Format::Png, to, &options).unwrap();
        assert_eq!(boinc::format::sniff(&out), boinc::format::Sniffed::Known(to));
        let decoded = image::load_from_memory(&out).unwrap();
        assert_eq!((decoded.width(), decoded.height()), (3, 2));
    }
    // Lossless targets keep the pixels exactly.
    let webp = convert_raster(&png, Format::Png, Format::WebP, &options).unwrap();
    assert_eq!(image::load_from_memory(&webp).unwrap().to_rgba8(), img);
    let back = convert_raster(&webp, Format::WebP, Format::Png, &options).unwrap();
    assert_eq!(image::load_from_memory(&back).unwrap().to_rgba8(), img);
}

#[test]
fn raster_errors() {
    let options = ConversionOptions::default();
    assert!(matches!(
        convert_raster(b"not an image", Format::Png, Format::Jpg, &options),
        Err(ConversionError::Image { .. })
    ));
    let img = image::RgbaImage::from_pixel(2, 2, image::Rgba([1, 2, 3, 255]));
    assert_eq!(
        convert_raster(&png_bytes(&img), Format::Png, Format::Svg, &options),
        Err(ConversionError::Unsupported { from: Format::Png, to: Format::Svg })
    );
    let pixels = vec![1u8, 2, 3, 255, 1, 2, 3, 255, 1, 2, 3, 255, 1, 2, 3, 255];
    let jpg = encode_jpeg_flattened(&pixels, 2, 2, 90, [255, 255, 255]).unwrap();
    assert!(jpg.starts_with(&[0xFF, 0xD8, 0xFF]));
    // A zero-sized image is refused by the encoder.
    assert!(matches!(
        encode_jpeg_flattened(&[], 0, 0, 90, [0, 0, 0]),
        Err(ConversionError::Image { .. })
    ));
}

#[test]
fn reencoding_keeps_the_colour_type() {
    // An RGB image (no alpha) stays RGB through PNG, and 16-bit depth is kept.
    let rgb = image::RgbImage::from_pixel(2, 2, image::Rgb([10, 20, 30]));
    let mut png = std::io::Cursor::new(Vec::new());
    rgb.write_to(&mut png, image::ImageFormat::Png).unwrap();
    let out = convert_raster(&png.into_inner(), Format::Png, Format::Bmp, &ConversionOptions::default()).unwrap();
    let back = image::load_from_memory(&out).unwrap();
    assert_eq!(back.color(), image::ColorType::Rgb8);
    let deep = image::ImageBuffer::<image::Rgb<u16>, Vec<u16>>::from_pixel(2, 1, image::Rgb([1000, 2000, 3000]));
    let mut png16 = std::io::Cursor::new(Vec::new());
    deep.write_to(&mut png16, image::ImageFormat::Png).unwrap();
    let again = convert_raster(&png16.into_inner(), Format::Png, Format::Png, &ConversionOptions::default()).unwrap();
    assert_eq!(image::load_from_memory(&again).unwrap().color(), image::ColorType::Rgb16);
}

#[test]
fn reencoding_decoded_samples() {
    let gray = boinc::raster::DecodedImage {
        width: 2,
        height: 1,
        samples: boinc::raster::Samples::L8(vec![7, 200]),
    };
    assert!(gray.is_complete());
    let png = boinc::raster::reencode(gray.clone(), Format::Png).unwrap();
    let back = image::load_from_memory(&png).unwrap();
    assert_eq!(back.color(), image::ColorType::L8);
    assert_eq!(back.to_luma8().into_raw(), vec![7, 200]);
    // GIF takes only RGB and RGBA, as the encoder says.
    assert!(matches!(boinc::raster::reencode(gray, Format::Gif), Err(ConversionError::Image { .. })));
    // 16-bit samples become 8-bit for BMP.
    let deep = boinc::raster::DecodedImage {
        width: 1,
        height: 1,
        samples: boinc::raster::Samples::Rgb16(vec![65535, 0, 32896]),
    };
    let bmp = boinc::raster::reencode(deep, Format::Bmp).unwrap();
    let px = image::load_from_memory(&bmp).unwrap().to_rgb8().into_raw();
    assert_eq!(px, vec![255, 0, 128]);
    let short = boinc::raster::DecodedImage {
        width: 2,
        height: 2,
        samples: boinc::raster::Samples::Rgba8(vec![0; 15]),
    };
    assert!(!short.is_complete());
}
