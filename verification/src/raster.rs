//! Raster image conversion decisions: how each target is encoded, and
//! flattening transparency onto a background for JPEG.

use std::io::Cursor;

use image::codecs::jpeg::JpegEncoder;
use image::DynamicImage::{
    ImageLuma16, ImageLuma8, ImageLumaA16, ImageLumaA8, ImageRgb16, ImageRgb8, ImageRgba16,
    ImageRgba8,
};
use image::{DynamicImage, ExtendedColorType, ImageBuffer, ImageFormat};
use vstd::prelude::*;

use crate::converter::ConversionOptions;
use crate::error::ConversionError;
use crate::format::Format;

verus! {

/// How a decoded bitmap is written out.
#[derive(Debug, Clone, Copy, PartialEq, Eq)]
pub enum RasterEncoding {
    /// JPEG has no alpha channel: flatten onto `background`, then encode at
    /// `quality` (1–100).
    Jpeg { quality: u8, background: [u8; 3] },
    Png,
    Bmp,
    Gif,
    WebP,
}

/// `q` clamped to `1..=100`.
pub open spec fn spec_clamp_quality(q: u8) -> u8 {
    if q < 1 {
        1
    } else if q > 100 {
        100
    } else {
        q
    }
}

/// JPEG quality clamped to `1..=100`.
pub fn clamp_quality(q: u8) -> (r: u8)
    ensures
        r == spec_clamp_quality(q),
        1 <= r <= 100,
{
    if q < 1 {
        1
    } else if q > 100 {
        100
    } else {
        q
    }
}

/// The encoding for writing a bitmap as `to` (see [`raster_encoding`]).
pub open spec fn spec_raster_encoding(from: Format, to: Format, options: ConversionOptions) -> Result<
    RasterEncoding,
    ConversionError,
> {
    match to {
        Format::Jpg => Ok(
            RasterEncoding::Jpeg {
                quality: spec_clamp_quality(options.jpeg_quality),
                background: options.background,
            },
        ),
        Format::Png => Ok(RasterEncoding::Png),
        Format::Bmp => Ok(RasterEncoding::Bmp),
        Format::Gif => Ok(RasterEncoding::Gif),
        Format::WebP => Ok(RasterEncoding::WebP),
        _ => Err(ConversionError::Unsupported { from, to }),
    }
}

/// The encoding for writing a bitmap as `to`: JPEG flattens onto the
/// configured background at the clamped quality; PNG, BMP, GIF and WebP keep
/// alpha where the container supports it; any other target is
/// `Unsupported { from, to }`.
pub fn raster_encoding(from: Format, to: Format, options: &ConversionOptions) -> (r: Result<
    RasterEncoding,
    ConversionError,
>)
    ensures
        r == spec_raster_encoding(from, to, *options),
        match to {
            Format::Jpg => r matches Ok(RasterEncoding::Jpeg { quality, background }) && quality
                == spec_clamp_quality(options.jpeg_quality) && background == options.background,
            Format::Png => r == Ok::<RasterEncoding, ConversionError>(RasterEncoding::Png),
            Format::Bmp => r == Ok::<RasterEncoding, ConversionError>(RasterEncoding::Bmp),
            Format::Gif => r == Ok::<RasterEncoding, ConversionError>(RasterEncoding::Gif),
            Format::WebP => r == Ok::<RasterEncoding, ConversionError>(RasterEncoding::WebP),
            _ => r == Err::<RasterEncoding, ConversionError>(
                ConversionError::Unsupported { from, to },
            ),
        },
{
    match to {
        Format::Jpg => Ok(
            RasterEncoding::Jpeg {
                quality: clamp_quality(options.jpeg_quality),
                background: options.background,
            },
        ),
        Format::Png => Ok(RasterEncoding::Png),
        Format::Bmp => Ok(RasterEncoding::Bmp),
        Format::Gif => Ok(RasterEncoding::Gif),
        Format::WebP => Ok(RasterEncoding::WebP),
        other => Err(ConversionError::Unsupported { from, to: other }),
    }
}

/// A foreground channel alpha-blended over a background channel.
pub open spec fn blend(fg: u8, bg: u8, alpha: u8) -> int {
    (fg * alpha + bg * (255 - alpha)) / 255
}

proof fn lemma_blend_bounds(fg: u8, bg: u8, alpha: u8)
    ensures
        0 <= fg * alpha + bg * (255 - alpha) <= 255 * 255,
        0 <= blend(fg, bg, alpha) <= 255,
{
    assert(0 <= fg * alpha <= 255 * alpha) by (nonlinear_arith)
        requires
            fg <= 255,
            alpha <= 255,
    ;
    assert(0 <= bg * (255 - alpha) <= 255 * (255 - alpha)) by (nonlinear_arith)
        requires
            bg <= 255,
            alpha <= 255,
    ;
}

fn blend_channel(fg: u8, bg: u8, alpha: u8) -> (r: u8)
    ensures
        r == blend(fg, bg, alpha),
{
    proof {
        lemma_blend_bounds(fg, bg, alpha);
    }
    let a = alpha as u32;
    let mixed = (fg as u32) * a + (bg as u32) * (255 - a);
    (mixed / 255) as u8
}

/// The RGB bytes of `rgba` (four bytes a pixel) blended over `background`.
pub open spec fn flattened(rgba: Seq<u8>, background: [u8; 3]) -> Seq<u8> {
    Seq::new(
        rgba.len() / 4 * 3,
        |i: int| blend(rgba[4 * (i / 3) + i % 3], background[i % 3], rgba[4 * (i / 3) + 3]) as u8,
    )
}

/// Alpha-blend every RGBA pixel of `rgba` over `background`, giving RGB
/// pixels in the same order.
pub fn flatten(rgba: &[u8], background: [u8; 3]) -> (rgb: Vec<u8>)
    requires
        rgba@.len() % 4 == 0,
    ensures
        rgb@ == flattened(rgba@, background),
        rgb@.len() == rgba@.len() / 4 * 3,
        forall|k: int, c: int|
            0 <= k < rgba@.len() / 4 && 0 <= c < 3 ==> #[trigger] rgb@[3 * k + c] == blend(
                rgba@[4 * k + c],
                background[c],
                rgba@[4 * k + 3],
            ),
{
    let n = rgba.len() / 4;
    assert(n * 4 == rgba@.len());
    let mut rgb: Vec<u8> = Vec::new();
    for k in 0..n
        invariant
            n == rgba@.len() / 4,
            n * 4 == rgba@.len(),
            rgba@.len() <= usize::MAX,
            rgba@.len() % 4 == 0,
            rgb@.len() == 3 * k,
            forall|j: int, c: int|
                0 <= j < k && 0 <= c < 3 ==> #[trigger] rgb@[3 * j + c] == blend(
                    rgba@[4 * j + c],
                    background[c],
                    rgba@[4 * j + 3],
                ),
    {
        assert(4 * k + 3 < rgba@.len());
        let a = rgba[4 * k + 3];
        let r = blend_channel(rgba[4 * k], background[0], a);
        let g = blend_channel(rgba[4 * k + 1], background[1], a);
        let b = blend_channel(rgba[4 * k + 2], background[2], a);
        rgb.push(r);
        rgb.push(g);
        rgb.push(b);
        assert forall|j: int, c: int|
            0 <= j < k + 1 && 0 <= c < 3 implies #[trigger] rgb@[3 * j + c] == blend(
                rgba@[4 * j + c],
                background[c],
                rgba@[4 * j + 3],
            ) by {
            if j == k {
                if c == 0 {
                } else if c == 1 {
                } else {
                }
            }
        }
    }
    assert forall|i: int| 0 <= i < rgb@.len() implies #[trigger] rgb@[i] == flattened(
        rgba@,
        background,
    )[i] by {
        let k = i / 3;
        let c = i % 3;
        assert(i == 3 * k + c);
        lemma_blend_bounds(rgba@[4 * k + c], background[c], rgba@[4 * k + 3]);
        assert(rgb@[3 * k + c] == blend(rgba@[4 * k + c], background[c], rgba@[4 * k + 3]));
    }
    assert(rgb@ =~= flattened(rgba@, background));
    rgb
}

/// The JPEG bytes `image`'s `JpegEncoder` writes for RGB pixels at `quality`,
/// or the codec's message.
pub uninterp spec fn jpeg_encoded(rgb: Seq<u8>, width: u32, height: u32, quality: u8) -> Result<
    Seq<u8>,
    Seq<char>,
>;

/// The samples of a decoded image in its own colour type: one sample per
/// channel per pixel, row by row, 8 or 16 bits deep (grey, grey with alpha,
/// RGB, RGBA).
#[derive(Debug, Clone, PartialEq, Eq)]
pub enum Samples {
    L8(Vec<u8>),
    La8(Vec<u8>),
    Rgb8(Vec<u8>),
    Rgba8(Vec<u8>),
    L16(Vec<u16>),
    La16(Vec<u16>),
    Rgb16(Vec<u16>),
    Rgba16(Vec<u16>),
}

/// A decoded image: its size and its samples.
#[derive(Debug, Clone, PartialEq, Eq)]
pub struct DecodedImage {
    pub width: u32,
    pub height: u32,
    pub samples: Samples,
}

/// The colour type of samples as a number, in declaration order.
pub open spec fn layout(s: Samples) -> u8 {
    match s {
        Samples::L8(_) => 0,
        Samples::La8(_) => 1,
        Samples::Rgb8(_) => 2,
        Samples::Rgba8(_) => 3,
        Samples::L16(_) => 4,
        Samples::La16(_) => 5,
        Samples::Rgb16(_) => 6,
        Samples::Rgba16(_) => 7,
    }
}

/// Channels per pixel.
pub open spec fn channels(s: Samples) -> nat {
    match s {
        Samples::L8(_) | Samples::L16(_) => 1,
        Samples::La8(_) | Samples::La16(_) => 2,
        Samples::Rgb8(_) | Samples::Rgb16(_) => 3,
        Samples::Rgba8(_) | Samples::Rgba16(_) => 4,
    }
}

/// The sample values, in order.
pub open spec fn sample_values(s: Samples) -> Seq<int> {
    match s {
        Samples::L8(v) | Samples::La8(v) | Samples::Rgb8(v) | Samples::Rgba8(v) => v@.map_values(
            |x: u8| x as int,
        ),
        Samples::L16(v) | Samples::La16(v) | Samples::Rgb16(v) | Samples::Rgba16(v) => v@.map_values(
            |x: u16| x as int,
        ),
    }
}

impl DecodedImage {
    /// Every pixel has its samples: `width * height * channels` of them.
    pub open spec fn wf(self) -> bool {
        sample_values(self.samples).len() == self.width * self.height * channels(self.samples)
    }

    /// Whether every pixel has its samples.
    pub fn is_complete(&self) -> (r: bool)
        ensures
            r == self.wf(),
    {
        let (n, c): (usize, u128) = match &self.samples {
            Samples::L8(v) => (v.len(), 1),
            Samples::La8(v) => (v.len(), 2),
            Samples::Rgb8(v) => (v.len(), 3),
            Samples::Rgba8(v) => (v.len(), 4),
            Samples::L16(v) => (v.len(), 1),
            Samples::La16(v) => (v.len(), 2),
            Samples::Rgb16(v) => (v.len(), 3),
            Samples::Rgba16(v) => (v.len(), 4),
        };
        assert(n == sample_values(self.samples).len());
        assert(c == channels(self.samples));
        let w = self.width as u128;
        let h = self.height as u128;
        assert(w * h <= 0xffff_ffffu128 * 0xffff_ffffu128) by (nonlinear_arith)
            requires
                w <= 0xffff_ffffu128,
                h <= 0xffff_ffffu128,
        ;
        assert(w * h * c <= 0xffff_ffffu128 * 0xffff_ffffu128 * 4) by (nonlinear_arith)
            requires
                w * h <= 0xffff_ffffu128 * 0xffff_ffffu128,
                c <= 4,
        ;
        (n as u128) == w * h * c
    }
}

/// The bytes `DynamicImage::write_to` writes in the container `to` for an
/// image of `width` × `height` pixels whose colour type is `layout` (see
/// [`layout`]) and whose samples are `samples`, or the codec's message.
pub uninterp spec fn image_written(
    layout: u8,
    samples: Seq<int>,
    width: u32,
    height: u32,
    to: Format,
) -> Result<Seq<u8>, Seq<char>>;

/// Encodes RGB pixels as JPEG with `JpegEncoder::new_with_quality` and
/// `encode`. Claimed: the result is a function of the arguments. `encode`
/// asserts the buffer length, which `requires` states.
#[verifier::external_body]
fn encode_jpeg(rgb: &[u8], width: u32, height: u32, quality: u8) -> (r: Result<Vec<u8>, String>)
    requires
        rgb@.len() == width * height * 3,
    ensures
        match r {
            Ok(out) => jpeg_encoded(rgb@, width, height, quality) == Ok::<Seq<u8>, Seq<char>>(
                out@,
            ),
            Err(message) => jpeg_encoded(rgb@, width, height, quality) == Err::<
                Seq<u8>,
                Seq<char>,
            >(message@),
        },
{
    let mut out: Vec<u8> = Vec::new();
    let written = JpegEncoder::new_with_quality(&mut out, quality).encode(
        rgb,
        width,
        height,
        ExtendedColorType::Rgb8,
    );
    written.map(|()| out).map_err(|e| e.to_string())
}

/// Builds the 8-bit `image::DynamicImage` with `channels` channels (grey,
/// grey with alpha, RGB, RGBA) from its samples (`ImageBuffer::from_raw`)
/// and writes it in the container `to` with `DynamicImage::write_to`, which
/// keeps the colour type where the container supports it and converts it
/// otherwise. Claimed: the result is a function of the arguments. `from_raw`
/// gives an image whenever the buffer holds every pixel, which `requires`
/// states. (8-bit and 16-bit samples have a writer each: their buffers are
/// of different types.)
#[verifier::external_body]
fn write_image8(channels: u8, samples: Vec<u8>, w: u32, h: u32, to: Format) -> (r: Result<
    Vec<u8>,
    String,
>)
    requires
        1 <= channels <= 4,
        samples@.len() == w * h * channels,
        to is Png || to is Bmp || to is Gif || to is WebP,
    ensures
        match r {
            Ok(out) => image_written((channels - 1) as u8, samples@.map_values(|x: u8| x as int), w, h, to)
                == Ok::<Seq<u8>, Seq<char>>(out@),
            Err(m) => image_written((channels - 1) as u8, samples@.map_values(|x: u8| x as int), w, h, to)
                == Err::<Seq<u8>, Seq<char>>(m@),
        },
{
    let img: Option<DynamicImage> = match channels {
        1 => ImageBuffer::from_raw(w, h, samples).map(ImageLuma8),
        2 => ImageBuffer::from_raw(w, h, samples).map(ImageLumaA8),
        3 => ImageBuffer::from_raw(w, h, samples).map(ImageRgb8),
        _ => ImageBuffer::from_raw(w, h, samples).map(ImageRgba8),
    };
    let format = match to { Format::Png => ImageFormat::Png, Format::Bmp => ImageFormat::Bmp, Format::Gif => ImageFormat::Gif, _ => ImageFormat::WebP };
    let mut out = Cursor::new(Vec::new());
    let written = img.expect("the buffer holds every pixel").write_to(&mut out, format);
    written.map(|()| out.into_inner()).map_err(|e| e.to_string())
}

/// The 16-bit counterpart of `write_image8`, with the same claims.
#[verifier::external_body]
fn write_image16(channels: u8, samples: Vec<u16>, w: u32, h: u32, to: Format) -> (r: Result<
    Vec<u8>,
    String,
>)
    requires
        1 <= channels <= 4,
        samples@.len() == w * h * channels,
        to is Png || to is Bmp || to is Gif || to is WebP,
    ensures
        match r {
            Ok(out) => image_written((channels + 3) as u8, samples@.map_values(|x: u16| x as int), w, h, to)
                == Ok::<Seq<u8>, Seq<char>>(out@),
            Err(m) => image_written((channels + 3) as u8, samples@.map_values(|x: u16| x as int), w, h, to)
                == Err::<Seq<u8>, Seq<char>>(m@),
        },
{
    let img: Option<DynamicImage> = match channels {
        1 => ImageBuffer::from_raw(w, h, samples).map(ImageLuma16),
        2 => ImageBuffer::from_raw(w, h, samples).map(ImageLumaA16),
        3 => ImageBuffer::from_raw(w, h, samples).map(ImageRgb16),
        _ => ImageBuffer::from_raw(w, h, samples).map(ImageRgba16),
    };
    let format = match to { Format::Png => ImageFormat::Png, Format::Bmp => ImageFormat::Bmp, Format::Gif => ImageFormat::Gif, _ => ImageFormat::WebP };
    let mut out = Cursor::new(Vec::new());
    let written = img.expect("the buffer holds every pixel").write_to(&mut out, format);
    written.map(|()| out.into_inner()).map_err(|e| e.to_string())
}

/// The outcome of a codec step as a conversion result: a codec's message
/// becomes an `Image` error.
pub open spec fn codec_outcome(r: Result<Vec<u8>, ConversionError>, codec: Result<Seq<u8>, Seq<char>>) -> bool {
    match codec {
        Ok(bytes) => r matches Ok(out) && out@ == bytes,
        Err(message) => r matches Err(ConversionError::Image { message: m }) && m@ == message,
    }
}

/// Flatten RGBA pixels (`width` × `height`) onto `background` and encode
/// them as JPEG at `quality`. A codec failure is an `Image` error with the
/// codec's message.
pub fn encode_jpeg_flattened(
    rgba: &[u8],
    width: u32,
    height: u32,
    quality: u8,
    background: [u8; 3],
) -> (r: Result<Vec<u8>, ConversionError>)
    requires
        rgba@.len() == width * height * 4,
    ensures
        codec_outcome(r, jpeg_encoded(flattened(rgba@, background), width, height, quality)),
{
    let rgb = flatten(rgba, background);
    assert(rgba@.len() / 4 * 3 == width * height * 3) by (nonlinear_arith)
        requires
            rgba@.len() == width * height * 4,
    ;
    match encode_jpeg(&rgb, width, height, quality) {
        Ok(out) => Ok(out),
        Err(message) => Err(ConversionError::Image { message }),
    }
}

/// Write a decoded image as PNG, BMP, GIF or WebP, keeping its own colour
/// type where the container supports it; an encoder failure is an `Image`
/// error with the codec's message.
pub fn reencode(image: DecodedImage, to: Format) -> (r: Result<Vec<u8>, ConversionError>)
    requires
        image.wf(),
        to is Png || to is Bmp || to is Gif || to is WebP,
    ensures
        codec_outcome(
            r,
            image_written(layout(image.samples), sample_values(image.samples), image.width,
                image.height, to),
        ),
{
    let (w, h) = (image.width, image.height);
    let written = match image.samples {
        Samples::L8(v) => write_image8(1, v, w, h, to),
        Samples::La8(v) => write_image8(2, v, w, h, to),
        Samples::Rgb8(v) => write_image8(3, v, w, h, to),
        Samples::Rgba8(v) => write_image8(4, v, w, h, to),
        Samples::L16(v) => write_image16(1, v, w, h, to),
        Samples::La16(v) => write_image16(2, v, w, h, to),
        Samples::Rgb16(v) => write_image16(3, v, w, h, to),
        Samples::Rgba16(v) => write_image16(4, v, w, h, to),
    };
    match written {
        Ok(out) => Ok(out),
        Err(message) => Err(ConversionError::Image { message }),
    }
}

} // verus!
