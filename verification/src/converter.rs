//! Conversion options and the converters Boinc knows about.

use vstd::prelude::*;

use crate::format::{spec_is_raster, Format};

verus! {

/// Options shared by all conversions. Converters read the fields relevant to
/// them and ignore the rest.
#[derive(Debug, Clone, Copy, PartialEq, Eq)]
pub struct ConversionOptions {
    /// JPEG encoding quality, 1–100.
    pub jpeg_quality: u8,
    /// Background color (RGB) used when flattening transparency away.
    pub background: [u8; 3],
}

impl Default for ConversionOptions {
    fn default() -> (r: Self)
        ensures
            r.jpeg_quality == 90,
            r.background@ == seq![255u8, 255u8, 255u8],
    {
        let r = ConversionOptions { jpeg_quality: 90, background: [255, 255, 255] };
        assert(r.background@ =~= seq![255u8, 255u8, 255u8]);
        r
    }
}

/// The engine that performs a conversion.
#[derive(Debug, Clone, Copy, PartialEq, Eq, Structural)]
pub enum Backend {
    /// Bitmap to bitmap, in process (`image`).
    Raster,
    /// Bitmap to SVG, in process (`vtracer`).
    Vector,
    /// DOCX and PDF through headless LibreOffice (`soffice`).
    LibreOffice,
    /// Markdown rendered to HTML, then laid out by headless LibreOffice.
    MarkdownToPdf,
    /// The text layer of a PDF, in process (`pdf-extract`).
    PdfToMarkdown,
    /// A converter supplied by the embedding program, with a fixed
    /// availability.
    External { available: bool },
}

/// Whether a converter can run on this machine, given whether LibreOffice's
/// `soffice` was found. Only the LibreOffice-backed converters depend on it.
pub open spec fn spec_backend_available(b: Backend, soffice_found: bool) -> bool {
    match b {
        Backend::LibreOffice | Backend::MarkdownToPdf => soffice_found,
        Backend::External { available } => available,
        _ => true,
    }
}

impl Backend {
    /// Whether this converter can run, given whether `soffice` was found.
    pub fn is_available(self, soffice_found: bool) -> (r: bool)
        ensures
            r == spec_backend_available(self, soffice_found),
    {
        match self {
            Backend::LibreOffice | Backend::MarkdownToPdf => soffice_found,
            Backend::External { available } => available,
            _ => true,
        }
    }
}

/// A single (input format → output format) conversion and its engine.
#[derive(Debug, Clone, Copy, PartialEq, Eq, Structural)]
pub struct ConverterEntry {
    pub from: Format,
    pub to: Format,
    pub backend: Backend,
}

impl ConverterEntry {
    /// The (from, to) pair this converter handles.
    pub fn supports(&self) -> (p: (Format, Format))
        ensures
            p == (self.from, self.to),
    {
        (self.from, self.to)
    }
}

/// Raster image conversion; one instance per (from, to) pair.
#[derive(Debug, Clone, Copy, PartialEq, Eq, Structural)]
pub struct RasterConverter {
    pub from: Format,
    pub to: Format,
}

impl RasterConverter {
    /// A converter for a raster pair. Both ends are rasters and distinct.
    pub fn new(from: Format, to: Format) -> (c: Self)
        requires
            spec_is_raster(from),
            spec_is_raster(to),
            from != to,
        ensures
            c.from == from,
            c.to == to,
    {
        RasterConverter { from, to }
    }

    pub fn png_to_jpg() -> (c: Self)
        ensures
            c.from == Format::Png,
            c.to == Format::Jpg,
    {
        Self::new(Format::Png, Format::Jpg)
    }

    pub fn jpg_to_png() -> (c: Self)
        ensures
            c.from == Format::Jpg,
            c.to == Format::Png,
    {
        Self::new(Format::Jpg, Format::Png)
    }

    /// The registry entry for this converter.
    pub fn entry(&self) -> (e: ConverterEntry)
        ensures
            e == (ConverterEntry { from: self.from, to: self.to, backend: Backend::Raster }),
    {
        ConverterEntry { from: self.from, to: self.to, backend: Backend::Raster }
    }
}

/// Raster image to SVG; one instance per input bitmap format.
#[derive(Debug, Clone, Copy, PartialEq, Eq, Structural)]
pub struct BitmapToSvg {
    pub from: Format,
}

impl BitmapToSvg {
    /// A converter for any raster input format.
    pub fn new(from: Format) -> (c: Self)
        requires
            spec_is_raster(from),
        ensures
            c.from == from,
    {
        BitmapToSvg { from }
    }

    pub fn png() -> (c: Self)
        ensures
            c.from == Format::Png,
    {
        Self::new(Format::Png)
    }

    pub fn jpg() -> (c: Self)
        ensures
            c.from == Format::Jpg,
    {
        Self::new(Format::Jpg)
    }

    /// The registry entry for this converter.
    pub fn entry(&self) -> (e: ConverterEntry)
        ensures
            e == (ConverterEntry { from: self.from, to: Format::Svg, backend: Backend::Vector }),
    {
        ConverterEntry { from: self.from, to: Format::Svg, backend: Backend::Vector }
    }
}

/// PDF ↔ DOCX conversion delegated to headless LibreOffice.
#[derive(Debug, Clone, Copy, PartialEq, Eq, Structural)]
pub struct LibreOfficeConverter {
    pub from: Format,
    pub to: Format,
}

impl LibreOfficeConverter {
    pub fn docx_to_pdf() -> (c: Self)
        ensures
            c.from == Format::Docx,
            c.to == Format::Pdf,
    {
        LibreOfficeConverter { from: Format::Docx, to: Format::Pdf }
    }

    pub fn pdf_to_docx() -> (c: Self)
        ensures
            c.from == Format::Pdf,
            c.to == Format::Docx,
    {
        LibreOfficeConverter { from: Format::Pdf, to: Format::Docx }
    }

    /// The registry entry for this converter.
    pub fn entry(&self) -> (e: ConverterEntry)
        ensures
            e == (ConverterEntry { from: self.from, to: self.to, backend: Backend::LibreOffice }),
    {
        ConverterEntry { from: self.from, to: self.to, backend: Backend::LibreOffice }
    }
}

/// Markdown → PDF: HTML rendering, then LibreOffice layout.
#[derive(Debug, Clone, Copy, PartialEq, Eq, Structural)]
pub struct MarkdownToPdf;

impl MarkdownToPdf {
    /// The registry entry for this converter.
    pub fn entry(&self) -> (e: ConverterEntry)
        ensures
            e == (ConverterEntry {
                from: Format::Md,
                to: Format::Pdf,
                backend: Backend::MarkdownToPdf,
            }),
    {
        ConverterEntry { from: Format::Md, to: Format::Pdf, backend: Backend::MarkdownToPdf }
    }
}

/// PDF → Markdown: the PDF's text layer, tidied into paragraphs.
#[derive(Debug, Clone, Copy, PartialEq, Eq, Structural)]
pub struct PdfToMarkdown;

impl PdfToMarkdown {
    /// The registry entry for this converter.
    pub fn entry(&self) -> (e: ConverterEntry)
        ensures
            e == (ConverterEntry {
                from: Format::Pdf,
                to: Format::Md,
                backend: Backend::PdfToMarkdown,
            }),
    {
        ConverterEntry { from: Format::Pdf, to: Format::Md, backend: Backend::PdfToMarkdown }
    }
}

} // verus!
