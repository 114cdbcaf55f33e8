//! File formats: names, extensions, and content sniffing.

use vstd::prelude::*;

use crate::error::ConversionError;
use crate::text::{ascii_lower, chars_eq_str, chars_of, lower_chars, owned};

verus! {

/// A file format Boinc can convert between.
#[derive(Debug, Clone, Copy, PartialEq, Eq, Hash, PartialOrd, Ord, Structural)]
pub enum Format {
    Png,
    Jpg,
    Bmp,
    Gif,
    WebP,
    Svg,
    Pdf,
    Docx,
    Md,
}

/// Every format, in declaration order.
pub const ALL: [Format; 9] = [
    Format::Png,
    Format::Jpg,
    Format::Bmp,
    Format::Gif,
    Format::WebP,
    Format::Svg,
    Format::Pdf,
    Format::Docx,
    Format::Md,
];

/// The bitmap formats: any of them converts to any other, and to SVG.
pub const RASTERS: [Format; 5] = [Format::Png, Format::Jpg, Format::Bmp, Format::Gif, Format::WebP];

/// Position of a format in declaration order, which is also its sort order.
pub open spec fn rank(f: Format) -> int {
    match f {
        Format::Png => 0,
        Format::Jpg => 1,
        Format::Bmp => 2,
        Format::Gif => 3,
        Format::WebP => 4,
        Format::Svg => 5,
        Format::Pdf => 6,
        Format::Docx => 7,
        Format::Md => 8,
    }
}

/// The format at a position in declaration order (`0 <= i < 9`).
pub open spec fn format_at(i: int) -> Format {
    if i == 0 {
        Format::Png
    } else if i == 1 {
        Format::Jpg
    } else if i == 2 {
        Format::Bmp
    } else if i == 3 {
        Format::Gif
    } else if i == 4 {
        Format::WebP
    } else if i == 5 {
        Format::Svg
    } else if i == 6 {
        Format::Pdf
    } else if i == 7 {
        Format::Docx
    } else {
        Format::Md
    }
}

/// Positions and formats correspond one to one.
pub proof fn lemma_rank_format_at()
    ensures
        forall|f: Format| #[trigger] format_at(rank(f)) == f,
        forall|f: Format| 0 <= #[trigger] rank(f) < 9,
        forall|i: int| 0 <= i < 9 ==> #[trigger] rank(format_at(i)) == i,
{
}

/// Whether a format is a bitmap image.
pub open spec fn spec_is_raster(f: Format) -> bool {
    match f {
        Format::Png | Format::Jpg | Format::Bmp | Format::Gif | Format::WebP => true,
        _ => false,
    }
}

/// Canonical extension of a format: lowercase, without the dot.
pub open spec fn spec_extension(f: Format) -> Seq<char> {
    match f {
        Format::Png => seq!['p', 'n', 'g'],
        Format::Jpg => seq!['j', 'p', 'g'],
        Format::Bmp => seq!['b', 'm', 'p'],
        Format::Gif => seq!['g', 'i', 'f'],
        Format::WebP => seq!['w', 'e', 'b', 'p'],
        Format::Svg => seq!['s', 'v', 'g'],
        Format::Pdf => seq!['p', 'd', 'f'],
        Format::Docx => seq!['d', 'o', 'c', 'x'],
        Format::Md => seq!['m', 'd'],
    }
}

/// Name of a format in menus and messages.
pub open spec fn spec_display_name(f: Format) -> Seq<char> {
    match f {
        Format::Png => seq!['P', 'N', 'G'],
        Format::Jpg => seq!['J', 'P', 'G'],
        Format::Bmp => seq!['B', 'M', 'P'],
        Format::Gif => seq!['G', 'I', 'F'],
        Format::WebP => seq!['W', 'e', 'b', 'P'],
        Format::Svg => seq!['S', 'V', 'G'],
        Format::Pdf => seq!['P', 'D', 'F'],
        Format::Docx => seq!['D', 'O', 'C', 'X'],
        Format::Md => seq!['M', 'a', 'r', 'k', 'd', 'o', 'w', 'n'],
    }
}

/// The format a lowercase, dot-free extension names, aliases included.
pub open spec fn format_of_extension(e: Seq<char>) -> Option<Format> {
    if e == seq!['p', 'n', 'g'] {
        Some(Format::Png)
    } else if e == seq!['j', 'p', 'g'] || e == seq!['j', 'p', 'e', 'g'] {
        Some(Format::Jpg)
    } else if e == seq!['b', 'm', 'p'] {
        Some(Format::Bmp)
    } else if e == seq!['g', 'i', 'f'] {
        Some(Format::Gif)
    } else if e == seq!['w', 'e', 'b', 'p'] {
        Some(Format::WebP)
    } else if e == seq!['s', 'v', 'g'] {
        Some(Format::Svg)
    } else if e == seq!['p', 'd', 'f'] {
        Some(Format::Pdf)
    } else if e == seq!['d', 'o', 'c', 'x'] {
        Some(Format::Docx)
    } else if e == seq!['m', 'd'] || e == seq!['m', 'a', 'r', 'k', 'd', 'o', 'w', 'n'] {
        Some(Format::Md)
    } else {
        None
    }
}

/// Number of leading dots of `s`.
pub open spec fn leading_dots(s: Seq<char>) -> nat
    decreases s.len(),
{
    if s.len() > 0 && s[0] == '.' {
        1 + leading_dots(s.drop_first())
    } else {
        0
    }
}

/// What `Format::from_extension` returns: every leading dot is dropped, case
/// is ignored (ASCII), and aliases such as `jpeg` are accepted.
pub open spec fn spec_from_extension(s: Seq<char>) -> Option<Format> {
    format_of_extension(ascii_lower(s.skip(leading_dots(s) as int)))
}

pub proof fn lemma_leading_dots_bound(s: Seq<char>)
    ensures
        leading_dots(s) <= s.len(),
    decreases s.len(),
{
    if s.len() > 0 && s[0] == '.' {
        lemma_leading_dots_bound(s.drop_first());
    }
}

impl Format {
    /// Canonical file extension, lowercase, without the dot.
    pub fn extension(self) -> (e: &'static str)
        ensures
            e@ == spec_extension(self),
    {
        match self {
            Format::Png => {
                proof { reveal_strlit("png"); }
                "png"
            },
            Format::Jpg => {
                proof { reveal_strlit("jpg"); }
                "jpg"
            },
            Format::Bmp => {
                proof { reveal_strlit("bmp"); }
                "bmp"
            },
            Format::Gif => {
                proof { reveal_strlit("gif"); }
                "gif"
            },
            Format::WebP => {
                proof { reveal_strlit("webp"); }
                "webp"
            },
            Format::Svg => {
                proof { reveal_strlit("svg"); }
                "svg"
            },
            Format::Pdf => {
                proof { reveal_strlit("pdf"); }
                "pdf"
            },
            Format::Docx => {
                proof { reveal_strlit("docx"); }
                "docx"
            },
            Format::Md => {
                proof { reveal_strlit("md"); }
                "md"
            },
        }
    }

    /// Name shown in menus and messages.
    pub fn display_name(self) -> (n: &'static str)
        ensures
            n@ == spec_display_name(self),
    {
        match self {
            Format::Png => {
                proof { reveal_strlit("PNG"); }
                "PNG"
            },
            Format::Jpg => {
                proof { reveal_strlit("JPG"); }
                "JPG"
            },
            Format::Bmp => {
                proof { reveal_strlit("BMP"); }
                "BMP"
            },
            Format::Gif => {
                proof { reveal_strlit("GIF"); }
                "GIF"
            },
            Format::WebP => {
                proof { reveal_strlit("WebP"); }
                "WebP"
            },
            Format::Svg => {
                proof { reveal_strlit("SVG"); }
                "SVG"
            },
            Format::Pdf => {
                proof { reveal_strlit("PDF"); }
                "PDF"
            },
            Format::Docx => {
                proof { reveal_strlit("DOCX"); }
                "DOCX"
            },
            Format::Md => {
                proof { reveal_strlit("Markdown"); }
                "Markdown"
            },
        }
    }

    /// Whether the format is a bitmap image.
    pub fn is_raster(self) -> (r: bool)
        ensures
            r == spec_is_raster(self),
    {
        match self {
            Format::Png | Format::Jpg | Format::Bmp | Format::Gif | Format::WebP => true,
            _ => false,
        }
    }

    /// Position in declaration order (the sort order of formats).
    pub fn rank(self) -> (r: u8)
        ensures
            r == rank(self),
    {
        match self {
            Format::Png => 0,
            Format::Jpg => 1,
            Format::Bmp => 2,
            Format::Gif => 3,
            Format::WebP => 4,
            Format::Svg => 5,
            Format::Pdf => 6,
            Format::Docx => 7,
            Format::Md => 8,
        }
    }

    /// The format at a position in declaration order.
    pub fn from_rank(i: u8) -> (f: Format)
        requires
            i < 9,
        ensures
            f == format_at(i as int),
            rank(f) == i,
    {
        if i == 0 {
            Format::Png
        } else if i == 1 {
            Format::Jpg
        } else if i == 2 {
            Format::Bmp
        } else if i == 3 {
            Format::Gif
        } else if i == 4 {
            Format::WebP
        } else if i == 5 {
            Format::Svg
        } else if i == 6 {
            Format::Pdf
        } else if i == 7 {
            Format::Docx
        } else {
            Format::Md
        }
    }

    /// Parse an extension (with or without leading dot, any case), accepting
    /// aliases such as `jpeg`.
    pub fn from_extension(ext: &str) -> (f: Option<Format>)
        ensures
            f == spec_from_extension(ext@),
    {
        let v = chars_of(ext);
        let mut start: usize = 0;
        proof {
            reveal_strlit("png");
            reveal_strlit("jpg");
            reveal_strlit("jpeg");
            reveal_strlit("bmp");
            reveal_strlit("gif");
            reveal_strlit("webp");
            reveal_strlit("svg");
            reveal_strlit("pdf");
            reveal_strlit("docx");
            reveal_strlit("md");
            reveal_strlit("markdown");
            assert("png"@ =~= seq!['p', 'n', 'g']);
            assert("jpg"@ =~= seq!['j', 'p', 'g']);
            assert("jpeg"@ =~= seq!['j', 'p', 'e', 'g']);
            assert("bmp"@ =~= seq!['b', 'm', 'p']);
            assert("gif"@ =~= seq!['g', 'i', 'f']);
            assert("webp"@ =~= seq!['w', 'e', 'b', 'p']);
            assert("svg"@ =~= seq!['s', 'v', 'g']);
            assert("pdf"@ =~= seq!['p', 'd', 'f']);
            assert("docx"@ =~= seq!['d', 'o', 'c', 'x']);
            assert("md"@ =~= seq!['m', 'd']);
            assert("markdown"@ =~= seq!['m', 'a', 'r', 'k', 'd', 'o', 'w', 'n']);
            lemma_leading_dots_bound(v@);
            assert(v@.skip(0) == v@);
        }
        while start < v.len() && v[start] == '.'
            invariant
                start <= v@.len(),
                leading_dots(v@) == start + leading_dots(v@.skip(start as int)),
            decreases v@.len() - start,
        {
            assert(v@.skip(start + 1) == v@.skip(start as int).drop_first());
            start = start + 1;
        }
        let mut rest: Vec<char> = Vec::new();
        let mut i = start;
        while i < v.len()
            invariant
                start <= i <= v@.len(),
                rest@ == v@.subrange(start as int, i as int),
            decreases v@.len() - i,
        {
            rest.push(v[i]);
            i = i + 1;
        }
        assert(rest@ == v@.skip(leading_dots(v@) as int));
        let lowered = lower_chars(rest.as_slice());
        let e = lowered.as_slice();
        assert(e@ == ascii_lower(ext@.skip(leading_dots(ext@) as int)));
        if chars_eq_str(e, "png") {
            Some(Format::Png)
        } else if chars_eq_str(e, "jpg") || chars_eq_str(e, "jpeg") {
            Some(Format::Jpg)
        } else if chars_eq_str(e, "bmp") {
            Some(Format::Bmp)
        } else if chars_eq_str(e, "gif") {
            Some(Format::Gif)
        } else if chars_eq_str(e, "webp") {
            Some(Format::WebP)
        } else if chars_eq_str(e, "svg") {
            Some(Format::Svg)
        } else if chars_eq_str(e, "pdf") {
            Some(Format::Pdf)
        } else if chars_eq_str(e, "docx") {
            Some(Format::Docx)
        } else if chars_eq_str(e, "md") || chars_eq_str(e, "markdown") {
            Some(Format::Md)
        } else {
            None
        }
    }
}

// ---------------------------------------------------------------------------
// Content sniffing
// ---------------------------------------------------------------------------

/// How many leading bytes are read to identify a file: large enough that a
/// DOCX's early ZIP entry names ("word/document.xml") fall inside the window.
pub const SNIFF_LEN: usize = 65536;

/// What the leading bytes of a file tell on their own.
#[derive(Debug, Clone, Copy, PartialEq, Eq, Structural)]
pub enum Sniffed {
    Known(Format),
    /// A ZIP container that does not look like DOCX; the extension decides.
    Zip,
    /// Plain text that is not SVG; Markdown has no magic bytes, so the
    /// extension decides.
    Text,
    Unknown,
}

/// `b` begins with `p`.
pub open spec fn starts_with(b: Seq<u8>, p: Seq<u8>) -> bool {
    b.len() >= p.len() && b.take(p.len() as int) == p
}

/// `n` occurs in `h` at some position.
pub open spec fn occurs(h: Seq<u8>, n: Seq<u8>) -> bool {
    exists|i: int| 0 <= i && i + n.len() <= h.len() && #[trigger] h.subrange(i, i + n.len()) == n
}

pub open spec fn png_magic() -> Seq<u8> {
    seq![0x89u8, 0x50u8, 0x4eu8, 0x47u8, 0x0du8, 0x0au8, 0x1au8, 0x0au8]
}

pub open spec fn jpg_magic() -> Seq<u8> {
    seq![0xffu8, 0xd8u8, 0xffu8]
}

/// `%PDF-`
pub open spec fn pdf_magic() -> Seq<u8> {
    seq![0x25u8, 0x50u8, 0x44u8, 0x46u8, 0x2du8]
}

/// `PK\x03\x04`
pub open spec fn zip_magic() -> Seq<u8> {
    seq![0x50u8, 0x4bu8, 0x03u8, 0x04u8]
}

/// `word/`
pub open spec fn docx_marker() -> Seq<u8> {
    seq![0x77u8, 0x6fu8, 0x72u8, 0x64u8, 0x2fu8]
}

/// `GIF87a`
pub open spec fn gif87_magic() -> Seq<u8> {
    seq![0x47u8, 0x49u8, 0x46u8, 0x38u8, 0x37u8, 0x61u8]
}

/// `GIF89a`
pub open spec fn gif89_magic() -> Seq<u8> {
    seq![0x47u8, 0x49u8, 0x46u8, 0x38u8, 0x39u8, 0x61u8]
}

/// `<svg`
pub open spec fn svg_marker() -> Seq<u8> {
    seq![0x3cu8, 0x73u8, 0x76u8, 0x67u8]
}

/// A BMP file header: `BM`, the file size, then four reserved zero bytes.
pub open spec fn is_bmp(b: Seq<u8>) -> bool {
    &&& b.len() >= 14
    &&& b[0] == 0x42u8 && b[1] == 0x4du8
    &&& b[6] == 0u8 && b[7] == 0u8 && b[8] == 0u8 && b[9] == 0u8
}

/// A WebP file: `RIFF`, a size, then `WEBP`.
pub open spec fn is_webp(b: Seq<u8>) -> bool {
    &&& b.len() >= 12
    &&& b[0] == 0x52u8 && b[1] == 0x49u8 && b[2] == 0x46u8 && b[3] == 0x46u8
    &&& b[8] == 0x57u8 && b[9] == 0x45u8 && b[10] == 0x42u8 && b[11] == 0x50u8
}

/// ASCII whitespace bytes as XML allows them before the first tag.
pub open spec fn is_space_byte(x: u8) -> bool {
    x == 0x20u8 || x == 0x09u8 || x == 0x0au8 || x == 0x0du8
}

/// Number of leading whitespace bytes.
pub open spec fn leading_spaces(b: Seq<u8>) -> nat
    decreases b.len(),
{
    if b.len() > 0 && is_space_byte(b[0]) {
        1 + leading_spaces(b.drop_first())
    } else {
        0
    }
}

/// SVG markup: text whose first non-blank byte opens a tag, with an `<svg`
/// element somewhere in it.
pub open spec fn is_svg_text(b: Seq<u8>) -> bool {
    let s = leading_spaces(b) as int;
    &&& s < b.len()
    &&& b[s] == 0x3cu8
    &&& occurs(b, svg_marker())
}

/// Length of a UTF-8 sequence by its first byte (0: no sequence starts so).
pub open spec fn utf8_width(b0: u8) -> int {
    if b0 <= 0x7fu8 {
        1
    } else if 0xc2u8 <= b0 && b0 <= 0xdfu8 {
        2
    } else if 0xe0u8 <= b0 && b0 <= 0xefu8 {
        3
    } else if 0xf0u8 <= b0 && b0 <= 0xf4u8 {
        4
    } else {
        0
    }
}

/// The range the second byte of a UTF-8 sequence must fall in, given the first
/// (this excludes overlong forms, surrogates and code points past U+10FFFF).
pub open spec fn second_ok(b0: u8, b1: u8) -> bool {
    if b0 == 0xe0u8 {
        0xa0u8 <= b1 && b1 <= 0xbfu8
    } else if b0 == 0xedu8 {
        0x80u8 <= b1 && b1 <= 0x9fu8
    } else if b0 == 0xf0u8 {
        0x90u8 <= b1 && b1 <= 0xbfu8
    } else if b0 == 0xf4u8 {
        0x80u8 <= b1 && b1 <= 0x8fu8
    } else {
        0x80u8 <= b1 && b1 <= 0xbfu8
    }
}

/// A UTF-8 continuation byte.
pub open spec fn is_cont(b: u8) -> bool {
    0x80u8 <= b && b <= 0xbfu8
}

/// The bytes of `b` from position `i` on are well-formed UTF-8, where the last
/// sequence may be cut short by the end of the input.
pub open spec fn utf8_from(b: Seq<u8>, i: int) -> bool
    decreases b.len() + 4 - i,
{
    if i < 0 || i >= b.len() {
        true
    } else {
        let w = utf8_width(b[i]);
        if w == 0 {
            false
        } else if w == 1 {
            utf8_from(b, i + 1)
        } else {
            proof {
                assert(w >= 2);
            }
            &&& (i + 1 < b.len() ==> second_ok(b[i], b[i + 1]))
            &&& (w >= 3 && i + 2 < b.len() ==> is_cont(b[i + 2]))
            &&& (w == 4 && i + 3 < b.len() ==> is_cont(b[i + 3]))
            &&& utf8_from(b, i + w)
        }
    }
}

/// A byte that plain text does not hold: a control byte (below 0x20, or
/// DEL) other than tab, line feed, carriage return and form feed.
pub open spec fn is_control_byte(x: u8) -> bool {
    x == 0x7fu8 || (x < 0x20u8 && x != 0x09u8 && x != 0x0au8 && x != 0x0du8 && x != 0x0cu8)
}

/// Printable text: UTF-8 (a multi-byte sequence cut off at the end still
/// counts) with no control bytes beyond whitespace.
pub open spec fn spec_is_plain_text(b: Seq<u8>) -> bool {
    &&& utf8_from(b, 0)
    &&& forall|i: int| 0 <= i < b.len() ==> !is_control_byte(#[trigger] b[i])
}

/// What the leading bytes `b` of a file say about its format.
pub open spec fn spec_sniff(b: Seq<u8>) -> Sniffed {
    if starts_with(b, png_magic()) {
        Sniffed::Known(Format::Png)
    } else if starts_with(b, jpg_magic()) {
        Sniffed::Known(Format::Jpg)
    } else if starts_with(b, gif87_magic()) || starts_with(b, gif89_magic()) {
        Sniffed::Known(Format::Gif)
    } else if is_webp(b) {
        Sniffed::Known(Format::WebP)
    } else if is_bmp(b) {
        Sniffed::Known(Format::Bmp)
    } else if starts_with(b, pdf_magic()) {
        Sniffed::Known(Format::Pdf)
    } else if starts_with(b, zip_magic()) {
        if occurs(b, docx_marker()) {
            Sniffed::Known(Format::Docx)
        } else {
            Sniffed::Zip
        }
    } else if spec_is_plain_text(b) {
        if is_svg_text(b) {
            Sniffed::Known(Format::Svg)
        } else {
            Sniffed::Text
        }
    } else {
        Sniffed::Unknown
    }
}

/// Whether `bytes` begins with `prefix`.
pub fn has_prefix(bytes: &[u8], prefix: &[u8]) -> (r: bool)
    ensures
        r == starts_with(bytes@, prefix@),
{
    if bytes.len() < prefix.len() {
        return false;
    }
    let n = prefix.len();
    for i in 0..n
        invariant
            n == prefix@.len(),
            n <= bytes@.len(),
            forall|j: int| 0 <= j < i ==> bytes@[j] == prefix@[j],
    {
        if bytes[i] != prefix[i] {
            assert(bytes@.take(n as int)[i as int] != prefix@[i as int]);
            return false;
        }
    }
    assert(bytes@.take(n as int) =~= prefix@);
    true
}

/// Whether `needle` occurs in `haystack`.
pub fn contains(haystack: &[u8], needle: &[u8]) -> (r: bool)
    ensures
        r == occurs(haystack@, needle@),
{
    let h = haystack.len();
    let n = needle.len();
    if n > h {
        return false;
    }
    let mut i: usize = 0;
    while i <= h - n
        invariant
            h == haystack@.len(),
            n == needle@.len(),
            n <= h,
            i <= h - n + 1,
            forall|k: int| 0 <= k < i ==> #[trigger] haystack@.subrange(k, k + n) != needle@,
        decreases h - i,
    {
        let mut matched = true;
        let mut j: usize = 0;
        while j < n
            invariant
                h == haystack@.len(),
                n == needle@.len(),
                i + n <= h,
                j <= n,
                matched <==> forall|m: int| 0 <= m < j ==> haystack@[i + m] == needle@[m],
            decreases n - j,
        {
            if haystack[i + j] != needle[j] {
                matched = false;
            }
            j = j + 1;
        }
        if matched {
            assert(haystack@.subrange(i as int, i + n) =~= needle@);
            return true;
        }
        proof {
            if haystack@.subrange(i as int, i + n) == needle@ {
                assert forall|m: int| 0 <= m < n implies haystack@[i + m] == needle@[m] by {
                    assert(haystack@.subrange(i as int, i + n)[m] == haystack@[i + m]);
                }
            }
        }
        i = i + 1;
    }
    assert forall|k: int| 0 <= k && k + n <= h implies #[trigger] haystack@.subrange(k, k + n)
        != needle@ by {
        assert(k < i);
    }
    false
}

/// Number of leading whitespace bytes.
fn count_leading_spaces(b: &[u8]) -> (n: usize)
    ensures
        n == leading_spaces(b@),
        n <= b@.len(),
{
    let mut n: usize = 0;
    proof {
        lemma_leading_spaces_bound(b@);
        assert(b@.skip(0) == b@);
    }
    while n < b.len() && (b[n] == 0x20u8 || b[n] == 0x09u8 || b[n] == 0x0au8 || b[n] == 0x0du8)
        invariant
            n <= b@.len(),
            leading_spaces(b@) == n + leading_spaces(b@.skip(n as int)),
        decreases b@.len() - n,
    {
        assert(b@.skip(n + 1) == b@.skip(n as int).drop_first());
        n = n + 1;
    }
    n
}

proof fn lemma_leading_spaces_bound(b: Seq<u8>)
    ensures
        leading_spaces(b) <= b.len(),
    decreases b.len(),
{
    if b.len() > 0 && is_space_byte(b[0]) {
        lemma_leading_spaces_bound(b.drop_first());
    }
}

/// Whether `b` is UTF-8 whose last sequence may be cut short.
pub fn is_utf8_prefix(b: &[u8]) -> (r: bool)
    ensures
        r == utf8_from(b@, 0),
{
    let n = b.len();
    let mut i: usize = 0;
    while i < n
        invariant
            n == b@.len(),
            i <= n,
            utf8_from(b@, 0) == utf8_from(b@, i as int),
        decreases n - i,
    {
        let b0 = b[i];
        if b0 <= 0x7f {
            i = i + 1;
        } else {
            let w: usize = if 0xc2 <= b0 && b0 <= 0xdf {
                2
            } else if 0xe0 <= b0 && b0 <= 0xef {
                3
            } else if 0xf0 <= b0 && b0 <= 0xf4 {
                4
            } else {
                0
            };
            if w == 0 {
                return false;
            }
            let left = n - i;
            if left > 1 {
                let b1 = b[i + 1];
                let ok = if b0 == 0xe0 {
                    0xa0 <= b1 && b1 <= 0xbf
                } else if b0 == 0xed {
                    0x80 <= b1 && b1 <= 0x9f
                } else if b0 == 0xf0 {
                    0x90 <= b1 && b1 <= 0xbf
                } else if b0 == 0xf4 {
                    0x80 <= b1 && b1 <= 0x8f
                } else {
                    0x80 <= b1 && b1 <= 0xbf
                };
                if !ok {
                    return false;
                }
            }
            if w >= 3 && left > 2 && !(0x80 <= b[i + 2] && b[i + 2] <= 0xbf) {
                return false;
            }
            if w == 4 && left > 3 && !(0x80 <= b[i + 3] && b[i + 3] <= 0xbf) {
                return false;
            }
            if w >= left {
                assert(utf8_from(b@, i + w as int));
                return true;
            }
            i = i + w;
        }
    }
    true
}

/// Printable text: valid UTF-8 with no control bytes beyond whitespace. A
/// multi-byte sequence cut off at the sniff-window boundary still counts.
pub fn is_plain_text(bytes: &[u8]) -> (r: bool)
    ensures
        r == spec_is_plain_text(bytes@),
{
    if !is_utf8_prefix(bytes) {
        return false;
    }
    let n = bytes.len();
    for i in 0..n
        invariant
            n == bytes@.len(),
            forall|j: int| 0 <= j < i ==> !is_control_byte(#[trigger] bytes@[j]),
    {
        let x = bytes[i];
        if x == 0x7f || (x < 0x20 && x != 0x09 && x != 0x0a && x != 0x0d && x != 0x0c) {
            return false;
        }
    }
    true
}

/// SVG markup: the first non-blank byte opens a tag and `<svg` occurs.
fn looks_like_svg(bytes: &[u8]) -> (r: bool)
    ensures
        r == is_svg_text(bytes@),
{
    let s = count_leading_spaces(bytes);
    if s >= bytes.len() || bytes[s] != 0x3c {
        return false;
    }
    let marker = vec![0x3cu8, 0x73u8, 0x76u8, 0x67u8];
    contains(bytes, marker.as_slice())
}

/// Classify the leading bytes of a file by magic numbers.
pub fn sniff(bytes: &[u8]) -> (s: Sniffed)
    ensures
        s == spec_sniff(bytes@),
{
    let png = vec![0x89u8, 0x50u8, 0x4eu8, 0x47u8, 0x0du8, 0x0au8, 0x1au8, 0x0au8];
    let jpg = vec![0xffu8, 0xd8u8, 0xffu8];
    let gif87 = vec![0x47u8, 0x49u8, 0x46u8, 0x38u8, 0x37u8, 0x61u8];
    let gif89 = vec![0x47u8, 0x49u8, 0x46u8, 0x38u8, 0x39u8, 0x61u8];
    let pdf = vec![0x25u8, 0x50u8, 0x44u8, 0x46u8, 0x2du8];
    let zip = vec![0x50u8, 0x4bu8, 0x03u8, 0x04u8];
    let word = vec![0x77u8, 0x6fu8, 0x72u8, 0x64u8, 0x2fu8];
    let b = bytes;
    if has_prefix(b, png.as_slice()) {
        Sniffed::Known(Format::Png)
    } else if has_prefix(b, jpg.as_slice()) {
        Sniffed::Known(Format::Jpg)
    } else if has_prefix(b, gif87.as_slice()) || has_prefix(b, gif89.as_slice()) {
        Sniffed::Known(Format::Gif)
    } else if b.len() >= 12 && b[0] == 0x52 && b[1] == 0x49 && b[2] == 0x46 && b[3] == 0x46
        && b[8] == 0x57 && b[9] == 0x45 && b[10] == 0x42 && b[11] == 0x50 {
        Sniffed::Known(Format::WebP)
    } else if b.len() >= 14 && b[0] == 0x42 && b[1] == 0x4d && b[6] == 0 && b[7] == 0 && b[8] == 0
        && b[9] == 0 {
        Sniffed::Known(Format::Bmp)
    } else if has_prefix(b, pdf.as_slice()) {
        Sniffed::Known(Format::Pdf)
    } else if has_prefix(b, zip.as_slice()) {
        if contains(b, word.as_slice()) {
            Sniffed::Known(Format::Docx)
        } else {
            Sniffed::Zip
        }
    } else if is_plain_text(b) {
        if looks_like_svg(b) {
            Sniffed::Known(Format::Svg)
        } else {
            Sniffed::Text
        }
    } else {
        Sniffed::Unknown
    }
}

/// The format of a file with leading bytes `head` and extension `ext`:
/// content decides, and the extension only settles ZIP containers (DOCX)
/// and plain text (Markdown).
pub open spec fn spec_detect(head: Seq<u8>, ext: Option<Seq<char>>) -> Option<Format> {
    let by_ext = match ext {
        Some(e) => spec_from_extension(e),
        None => None,
    };
    match spec_sniff(head) {
        Sniffed::Known(f) => Some(f),
        Sniffed::Zip => if by_ext == Some(Format::Docx) {
            Some(Format::Docx)
        } else {
            None
        },
        Sniffed::Text => if by_ext == Some(Format::Md) {
            Some(Format::Md)
        } else {
            None
        },
        Sniffed::Unknown => None,
    }
}

/// Determine a file's format from its leading bytes `head` (the caller reads
/// at most `SNIFF_LEN` of them) and its extension. The extension is only
/// consulted where content is ambiguous; it never overrides content.
/// Fails with `UnknownFormat` naming `path` otherwise.
pub fn detect_format_from(path: &str, head: &[u8], ext: Option<&str>) -> (r: Result<
    Format,
    ConversionError,
>)
    ensures
        match spec_detect(head@, match ext {
            Some(e) => Some(e@),
            None => None,
        }) {
            Some(f) => r == Ok::<Format, ConversionError>(f),
            None => r matches Err(ConversionError::UnknownFormat { path: p }) && p@ == path@,
        },
{
    let by_extension = match ext {
        Some(e) => Format::from_extension(e),
        None => None,
    };
    match sniff(head) {
        Sniffed::Known(f) => Ok(f),
        Sniffed::Zip if by_extension == Some(Format::Docx) => Ok(Format::Docx),
        Sniffed::Text if by_extension == Some(Format::Md) => Ok(Format::Md),
        _ => Err(ConversionError::UnknownFormat { path: owned(path) }),
    }
}

/// The bytes of a file that detection looks at: its first `SNIFF_LEN`
/// bytes, or all of it when shorter.
pub open spec fn sniff_window(content: Seq<u8>) -> Seq<u8> {
    if content.len() <= SNIFF_LEN {
        content
    } else {
        content.take(SNIFF_LEN as int)
    }
}

/// Determine the format of a file with content `content` (all of it, or at
/// least its first `SNIFF_LEN` bytes) and extension `ext`: only the sniff
/// window counts.
pub fn detect_format_in(path: &str, content: &[u8], ext: Option<&str>) -> (r: Result<
    Format,
    ConversionError,
>)
    ensures
        match spec_detect(sniff_window(content@), match ext {
            Some(e) => Some(e@),
            None => None,
        }) {
            Some(f) => r == Ok::<Format, ConversionError>(f),
            None => r matches Err(ConversionError::UnknownFormat { path: p }) && p@ == path@,
        },
{
    if content.len() <= SNIFF_LEN {
        return detect_format_from(path, content, ext);
    }
    let mut head: Vec<u8> = Vec::new();
    for i in 0..SNIFF_LEN
        invariant
            content@.len() > SNIFF_LEN,
            head@ == content@.take(i as int),
    {
        head.push(content[i]);
        assert(head@ =~= content@.take(i + 1));
    }
    detect_format_from(path, head.as_slice(), ext)
}

} // verus!
