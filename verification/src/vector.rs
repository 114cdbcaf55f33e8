//! Bitmap → SVG tracing with vtracer.

use vstd::prelude::*;

use crate::error::ConversionError;
use crate::text::{decimal, owned};

verus! {

/// The opening of every SVG document vtracer 0.6.5 writes for an image of
/// `width` × `height` pixels.
pub open spec fn svg_prelude(width: nat, height: nat) -> Seq<char> {
    "<?xml version=\"1.0\" encoding=\"UTF-8\"?>\n<!-- Generator: visioncortex VTracer 0.6.5 -->\n<svg version=\"1.1\" xmlns=\"http://www.w3.org/2000/svg\" width=\""@
        + decimal(width) + "\" height=\""@ + decimal(height) + "\">\n"@
}

/// A character of vtracer's path lines: printable ASCII or a line feed.
pub open spec fn svg_char(c: char) -> bool {
    (' ' <= c && c <= '~') || c == '\n'
}

/// An SVG document as vtracer writes it for a `width` × `height` image: the
/// opening, then path lines (`<path d="…" fill="#RRGGBB"
/// transform="translate(…,…)"/>`, numbers and letters only), then the
/// closing tag.
pub open spec fn traced_svg(svg: Seq<char>, width: nat, height: nat) -> bool {
    exists|paths: Seq<char>|
        {
            &&& svg == svg_prelude(width, height) + paths + "</svg>\n"@
            &&& forall|k: int| 0 <= k < paths.len() ==> svg_char(#[trigger] paths[k])
        }
}

/// Some pixel of the RGBA `pixels` has the colour `r`, `g`, `b`.
pub open spec fn has_color(pixels: Seq<u8>, r: u8, g: u8, b: u8) -> bool {
    exists|k: int|
        0 <= k && 4 * k + 3 < pixels.len() && #[trigger] pixels[4 * k] == r && pixels[4 * k + 1]
            == g && pixels[4 * k + 2] == b
}

/// One of the six colours vtracer tries first as the key for transparent
/// pixels (red, green, blue, yellow, cyan, magenta) is unused by the image,
/// so tracing cannot fail for want of a key colour.
pub open spec fn key_color_free(pixels: Seq<u8>) -> bool {
    ||| !has_color(pixels, 255, 0, 0)
    ||| !has_color(pixels, 0, 255, 0)
    ||| !has_color(pixels, 0, 0, 255)
    ||| !has_color(pixels, 255, 255, 0)
    ||| !has_color(pixels, 0, 255, 255)
    ||| !has_color(pixels, 255, 0, 255)
}

/// Traces RGBA pixels (`width` × `height`, four bytes each) into an SVG
/// document with `vtracer::convert` and vtracer's default configuration.
/// The paths are not described beyond their characters (`SvgPath`'s
/// `Display` writes the path data, a `#RRGGBB` colour and an offset, all
/// printable ASCII, one line each): vtracer picks a key color at random for
/// transparent images, so only the document's frame is stated. The only
/// failure `convert` has is finding no unused key colour for a transparent
/// image, after trying six fixed colours first; so it succeeds whenever one
/// of them is unused. No admitted input makes it panic: the frame is written
/// for any size, an image without pixels gives no clusters and so no path,
/// and every traced cluster has pixels, so the first point of its path
/// exists.
#[verifier::external_body]
fn vtracer_convert(pixels: Vec<u8>, width: usize, height: usize) -> (r: Result<String, String>)
    requires
        pixels@.len() == width * height * 4,
    ensures
        key_color_free(pixels@) ==> r is Ok,
        r matches Ok(svg) ==> traced_svg(svg@, width as nat, height as nat),
{
    let image = vtracer::ColorImage { pixels, width, height };
    vtracer::convert(image, vtracer::Config::default()).map(|svg| svg.to_string())
}

/// Traces an RGBA image into SVG markup; a tracing failure becomes
/// `ToolFailed` from `vtracer` with vtracer's message. Tracing succeeds
/// whenever one of vtracer's six fixed key colours is unused by the image.
pub fn trace_to_svg(pixels: Vec<u8>, width: usize, height: usize) -> (r: Result<
    String,
    ConversionError,
>)
    requires
        pixels@.len() == width * height * 4,
    ensures
        key_color_free(pixels@) ==> r is Ok,
        r matches Ok(svg) ==> traced_svg(svg@, width as nat, height as nat),
        r matches Err(e) ==> e matches ConversionError::ToolFailed { tool, message: _ } && tool@
            == "vtracer"@,
{
    match vtracer_convert(pixels, width, height) {
        Ok(svg) => Ok(svg),
        Err(message) => Err(ConversionError::ToolFailed { tool: owned("vtracer"), message }),
    }
}

} // verus!
