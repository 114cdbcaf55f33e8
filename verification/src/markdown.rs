//! PDF ↔ Markdown: tidying extracted PDF text into Markdown paragraphs, and
//! wrapping rendered Markdown into the HTML page LibreOffice lays out.

use vstd::prelude::*;

use crate::error::ConversionError;
use crate::libreoffice::{file_url, spec_file_url};
use crate::text::{chars_of, owned, push_char, push_range, trim_end, trim_end_len};

verus! {

/// Position of the first line feed at or after `i`, or the end of `s`.
pub open spec fn line_end(s: Seq<char>, i: int) -> int
    decreases s.len() - i,
{
    if i < 0 || i >= s.len() || s[i] == '\n' {
        i
    } else {
        line_end(s, i + 1)
    }
}

pub proof fn lemma_line_end(s: Seq<char>, i: int)
    requires
        0 <= i <= s.len(),
    ensures
        i <= line_end(s, i) <= s.len(),
        line_end(s, i) < s.len() ==> s[line_end(s, i)] == '\n',
        forall|k: int| i <= k < line_end(s, i) ==> s[k] != '\n',
    decreases s.len() - i,
{
    if i < s.len() && s[i] != '\n' {
        lemma_line_end(s, i + 1);
    }
}

/// The separator put before a non-blank line: nothing before the first one,
/// a blank line where blank lines (or page breaks) were collapsed, else a
/// line break.
pub open spec fn separator(started: bool, gap: bool) -> Seq<char> {
    if !started {
        seq![]
    } else if gap {
        seq!['\n', '\n']
    } else {
        seq!['\n']
    }
}

/// The tidied text of the lines of `s` from position `i` on: each line loses
/// its trailing whitespace, blank lines vanish, and a run of them between two
/// lines becomes one blank line; the result ends with one line feed unless it
/// is empty. `started` says a line was already written, `gap` that blank
/// lines followed it.
pub open spec fn tidy_from(s: Seq<char>, i: int, started: bool, gap: bool) -> Seq<char>
    decreases s.len() + 1 - i,
{
    if i < 0 || i >= s.len() {
        if started {
            seq!['\n']
        } else {
            seq![]
        }
    } else {
        let e = line_end(s, i);
        proof {
            lemma_line_end(s, i);
        }
        let line = trim_end(s.subrange(i, e));
        if line.len() == 0 {
            tidy_from(s, e + 1, started, true)
        } else {
            separator(started, gap) + line + tidy_from(s, e + 1, true, false)
        }
    }
}

/// What `normalize` makes of extracted text.
pub open spec fn spec_normalize(s: Seq<char>) -> Seq<char> {
    tidy_from(s, 0, false, false)
}

/// Tidy extracted text into presentable Markdown: strip trailing whitespace,
/// and collapse the blank-line runs and page breaks PDF extraction produces
/// into single blank lines (paragraph breaks).
pub fn normalize(text: &str) -> (out: String)
    ensures
        out@ == spec_normalize(text@),
{
    let v = chars_of(text);
    let n = v.len();
    let mut out = String::new();
    let mut started = false;
    let mut pending = false;
    let mut i: usize = 0;
    while i < n
        invariant
            n == v@.len(),
            v@ == text@,
            out@ + tidy_from(v@, i as int, started, pending) == spec_normalize(text@),
        decreases n - i,
    {
        let ghost before = out@;
        let ghost started0 = started;
        let ghost pending0 = pending;
        proof {
            lemma_line_end(v@, i as int);
        }
        let mut e = i;
        while e < n && v[e] != '\n'
            invariant
                i <= e <= n,
                n == v@.len(),
                line_end(v@, i as int) == line_end(v@, e as int),
            decreases n - e,
        {
            e = e + 1;
        }
        let mut line: Vec<char> = Vec::new();
        let mut k = i;
        while k < e
            invariant
                i <= k <= e <= n,
                n == v@.len(),
                line@ == v@.subrange(i as int, k as int),
            decreases e - k,
        {
            line.push(v[k]);
            k = k + 1;
        }
        let len = trim_end_len(line.as_slice());
        assert(e == line_end(v@, i as int));
        assert(line@.take(len as int) == trim_end(v@.subrange(i as int, e as int)));
        assert(tidy_from(v@, i as int, started0, pending0) == if len == 0 {
            tidy_from(v@, e + 1, started0, true)
        } else {
            separator(started0, pending0) + line@.take(len as int) + tidy_from(v@, e + 1, true, false)
        });
        if len == 0 {
            pending = true;
        } else {
            if started {
                if pending {
                    push_char(&mut out, '\n');
                    push_char(&mut out, '\n');
                } else {
                    push_char(&mut out, '\n');
                }
            }
            push_range(&mut out, line.as_slice(), 0, len);
            assert(line@.subrange(0, len as int) == line@.take(len as int));
            pending = false;
            started = true;
            assert(out@ == before + separator(started0, pending0) + line@.take(len as int));
        }
        if e < n {
            i = e + 1;
        } else {
            assert(tidy_from(v@, e + 1, started, pending) == tidy_from(v@, n as int, started, pending));
            i = n;
        }
    }
    if started {
        push_char(&mut out, '\n');
    }
    out
}

/// The HTML that pulldown-cmark renders for Markdown `source` with the
/// extension flags `options`.
pub uninterp spec fn markdown_html(source: Seq<char>, options: u32) -> Seq<char>;

/// Markdown extensions enabled for rendering: tables, footnotes,
/// strikethrough and task lists.
pub const MARKDOWN_OPTIONS: u32 = 30;

/// Renders Markdown to HTML with `pulldown_cmark::Parser::new_ext` and
/// `pulldown_cmark::html::push_html`. The result is named, not described:
/// it is what pulldown-cmark produces for these arguments.
#[verifier::external_body]
fn render_markdown(source: &str, options: u32) -> (html: String)
    ensures
        html@ == markdown_html(source@, options),
{
    let mut html = String::new();
    let parser = pulldown_cmark::Parser::new_ext(
        source,
        pulldown_cmark::Options::from_bits_truncate(options),
    );
    pulldown_cmark::html::push_html(&mut html, parser);
    html
}

/// The page LibreOffice lays out: the rendered `body`, and a `<base>` at the
/// Markdown file's directory (if known) so relative image links resolve
/// there rather than in the temporary directory the page is written to.
pub open spec fn spec_html_document(body: Seq<char>, base_dir: Option<Seq<char>>) -> Seq<char> {
    let base = match base_dir {
        Some(d) => "<base href=\""@ + spec_file_url(d) + "/\">"@,
        None => seq![],
    };
    "<!DOCTYPE html>\n<html><head><meta charset=\"utf-8\">"@ + base + "</head><body>\n"@ + body
        + "</body></html>\n"@
}

/// The HTML page around a rendered `body` (see `spec_html_document`).
pub fn html_document(body: &str, base_dir: Option<&str>) -> (doc: String)
    ensures
        doc@ == spec_html_document(
            body@,
            match base_dir {
                Some(d) => Some(d@),
                None => None,
            },
        ),
{
    let mut doc = String::new();
    doc.append("<!DOCTYPE html>\n<html><head><meta charset=\"utf-8\">");
    match base_dir {
        Some(d) => {
            doc.append("<base href=\"");
            let url = file_url(d);
            doc.append(url.as_str());
            doc.append("/\">");
        },
        None => {},
    }
    doc.append("</head><body>\n");
    doc.append(body);
    doc.append("</body></html>\n");
    doc
}

/// Markdown `source` rendered to a complete HTML page (see
/// `spec_html_document`).
pub fn markdown_document(source: &str, base_dir: Option<&str>) -> (doc: String)
    ensures
        doc@ == spec_html_document(
            markdown_html(source@, MARKDOWN_OPTIONS),
            match base_dir {
                Some(d) => Some(d@),
                None => None,
            },
        ),
{
    let body = render_markdown(source, MARKDOWN_OPTIONS);
    html_document(body.as_str(), base_dir)
}

/// The error when PDF text extraction fails: with the extractor's message,
/// or, when the parser gave up on the file (`message` is `None`), saying so.
pub fn extraction_failed(message: Option<String>) -> (e: ConversionError)
    ensures
        e matches ConversionError::ToolFailed { tool, message: m } && tool@
            == "PDF text extraction"@ && m@ == match message {
            Some(t) => t@,
            None => "the PDF parser gave up on this file"@,
        },
{
    let m = match message {
        Some(t) => t,
        None => owned("the PDF parser gave up on this file"),
    };
    ConversionError::ToolFailed { tool: owned("PDF text extraction"), message: m }
}

} // verus!
