//! Properties of the library as a whole, proved over the specifications the
//! functions' contracts use.

use vstd::prelude::*;

use crate::settings::spec_from_form;
use crate::converter::{spec_backend_available, Backend};
use crate::entries::{spec_windows_extensions, MenuEntry};
use crate::output::{candidate_name, output_stem, probed};
use crate::libreoffice::spec_soffice_args;
use crate::registry::default_backend;
use crate::state::{ids_ordered, JobView};
use crate::markdown::{lemma_line_end, line_end, separator, spec_normalize, tidy_from};
use crate::vector::{svg_char, svg_prelude, traced_svg};
use crate::format::{
    spec_is_plain_text, is_svg_text, leading_spaces, occurs, svg_marker, utf8_from, sniff_window, SNIFF_LEN, leading_dots, spec_detect, spec_extension, spec_from_extension, spec_sniff, Format, Sniffed,
};
use crate::raster::blend;
use crate::text::{all_digits, ascii_lower, ascii_lower_char, decimal, digit_char, digits_value, spec_parse_uint};
use crate::text::{is_white, lead_white, trail_white, trim, trim_end};
use crate::update::{find_char, leading_vs, spec_newer, spec_parse_version};

verus! {

/// Every format's canonical extension parses back to that format.
pub proof fn law_extension_round_trip(f: Format)
    ensures
        spec_from_extension(spec_extension(f)) == Some(f),
{
    let e = spec_extension(f);
    assert(leading_dots(e) == 0);
    assert(e.skip(0) == e);
    assert(ascii_lower(e) =~= e);
}

proof fn lemma_lower_dots(s: Seq<char>)
    ensures
        leading_dots(ascii_lower(s)) == leading_dots(s),
        ascii_lower(s).skip(leading_dots(s) as int) == ascii_lower(s.skip(leading_dots(s) as int)),
    decreases s.len(),
{
    crate::format::lemma_leading_dots_bound(s);
    if s.len() > 0 && s[0] == '.' {
        assert(ascii_lower(s).drop_first() =~= ascii_lower(s.drop_first()));
        lemma_lower_dots(s.drop_first());
        assert(s.skip(leading_dots(s) as int) =~= s.drop_first().skip(leading_dots(s.drop_first()) as int));
        assert(ascii_lower(s).skip(leading_dots(s) as int) =~= ascii_lower(s).drop_first().skip(
            leading_dots(s.drop_first()) as int,
        ));
    } else {
        if s.len() > 0 {
            assert(ascii_lower(s)[0] == ascii_lower_char(s[0]));
        }
        assert(s.skip(0) == s);
        assert(ascii_lower(s).skip(0) == ascii_lower(s));
    }
}

/// Parsing an extension ignores leading dots and letter case: `.X` parses
/// like `X`, and so does its lowercase form.
pub proof fn law_extension_ignores_dots_and_case(s: Seq<char>)
    ensures
        spec_from_extension(seq!['.'] + s) == spec_from_extension(s),
        spec_from_extension(ascii_lower(s)) == spec_from_extension(s),
{
    let d = seq!['.'] + s;
    assert(d.drop_first() =~= s);
    crate::format::lemma_leading_dots_bound(s);
    assert(d.skip(leading_dots(d) as int) =~= s.skip(leading_dots(s) as int));
    lemma_lower_dots(s);
    let t = s.skip(leading_dots(s) as int);
    assert(ascii_lower(ascii_lower(t)) =~= ascii_lower(t));
}

/// Content decides the format: when the leading bytes identify a format, the
/// extension plays no part, whatever it says.
pub proof fn law_content_beats_extension(
    head: Seq<u8>,
    ext1: Option<Seq<char>>,
    ext2: Option<Seq<char>>,
    f: Format,
)
    requires
        spec_sniff(head) == Sniffed::Known(f),
    ensures
        spec_detect(head, ext1) == Some(f),
        spec_detect(head, ext1) == spec_detect(head, ext2),
{
}

/// The extension only breaks ties: a detected format is what the content
/// says, or DOCX for an unidentified ZIP container, or Markdown for plain
/// text.
pub proof fn law_extension_only_breaks_ties(head: Seq<u8>, ext: Option<Seq<char>>, f: Format)
    requires
        spec_detect(head, ext) == Some(f),
    ensures
        spec_sniff(head) == Sniffed::Known(f) || (spec_sniff(head) == Sniffed::Zip && f
            == Format::Docx) || (spec_sniff(head) == Sniffed::Text && f == Format::Md),
{
}

/// Flattening keeps opaque pixels as they are and turns fully transparent
/// ones into the background.
pub proof fn law_blend_extremes(fg: u8, bg: u8)
    ensures
        blend(fg, bg, 255) == fg,
        blend(fg, bg, 0) == bg,
{
    assert(fg * 255 + bg * 0 == fg * 255) by (nonlinear_arith);
    assert((fg * 255) / 255 == fg as int) by (nonlinear_arith);
    assert(fg * 0 + bg * 255 == bg * 255) by (nonlinear_arith);
    assert((bg * 255) / 255 == bg as int) by (nonlinear_arith);
}

/// "Newer" orders versions strictly and totally: never newer than itself,
/// never both ways, transitive, and of two different versions one is newer.
pub proof fn law_newer_is_strict_total_order(a: (u64, u64, u64), b: (u64, u64, u64), c: (u64, u64, u64))
    ensures
        !spec_newer(a, a),
        spec_newer(a, b) ==> !spec_newer(b, a),
        spec_newer(a, b) && spec_newer(b, c) ==> spec_newer(a, c),
        a != b ==> spec_newer(a, b) || spec_newer(b, a),
{
}

proof fn lemma_decimal_digits(n: nat)
    ensures
        decimal(n).len() > 0,
        all_digits(decimal(n)),
        digits_value(decimal(n)) == n,
    decreases n,
{
    let d = digit_char(n % 10);
    assert((d as u32) - 48 == n % 10);
    if n >= 10 {
        lemma_decimal_digits(n / 10);
        let s = decimal(n);
        assert(s.drop_last() == decimal(n / 10));
        assert(s.last() == d);
        assert((n / 10) * 10 + n % 10 == n);
        assert(digits_value(s) == digits_value(s.drop_last()) * 10 + ((s.last() as u32) - 48) as nat);
        assert forall|i: int| 0 <= i < s.len() implies '0' <= #[trigger] s[i] && s[i] <= '9' by {
            if i < s.len() - 1 {
                assert(s[i] == decimal(n / 10)[i]);
            }
        }
    } else {
        let s = decimal(n);
        assert(s[0] == d);
        assert(s.last() == d);
        assert(s.drop_last().len() == 0);
        assert(digits_value(s.drop_last()) == 0);
        assert(digits_value(s) == digits_value(s.drop_last()) * 10 + ((s.last() as u32) - 48) as nat);
    }
}

/// A number written in decimal reads back as itself.
pub proof fn law_decimal_parses_back(n: nat, max: nat)
    requires
        n <= max,
    ensures
        spec_parse_uint(decimal(n), max) == Some(n),
{
    lemma_decimal_digits(n);
    let s = decimal(n);
    assert(s[0] != '+');
}

proof fn lemma_find_char_at(s: Seq<char>, i: int, j: int, c: char)
    requires
        0 <= i <= j < s.len(),
        s[j] == c,
        forall|k: int| i <= k < j ==> s[k] != c,
    ensures
        find_char(s, i, c) == j,
    decreases j - i,
{
    if i < j {
        lemma_find_char_at(s, i + 1, j, c);
    }
}

/// A version written as `a.b.c` parses back to `(a, b, c)`.
pub proof fn law_version_round_trip(a: u64, b: u64, c: u64)
    ensures
        spec_parse_version(decimal(a as nat) + "."@ + decimal(b as nat) + "."@ + decimal(c as nat))
            == Some((a, b, c)),
{
    reveal_strlit(".");
    let da = decimal(a as nat);
    let db = decimal(b as nat);
    let dc = decimal(c as nat);
    lemma_decimal_digits(a as nat);
    lemma_decimal_digits(b as nat);
    lemma_decimal_digits(c as nat);
    let s = da + "."@ + db + "."@ + dc;
    assert("."@ =~= seq!['.']);
    let la = da.len() as int;
    let lb = db.len() as int;
    assert(s.len() == la + 1 + lb + 1 + dc.len());
    assert(s[0] == da[0]);
    assert(s.last() == dc.last());
    assert('0' <= dc[dc.len() - 1] && dc[dc.len() - 1] <= '9');
    assert(trail_white(s) == 0);
    assert(trim_end(s) =~= s);
    assert('0' <= da[0] && da[0] <= '9');
    assert(lead_white(s) == 0);
    assert(s.skip(0) =~= s);
    assert(trim(s) == s);
    assert(leading_vs(s) == 0);
    assert forall|k: int| 0 <= k < la implies s[k] != '.' by {
        assert(s[k] == da[k]);
        assert('0' <= da[k] && da[k] <= '9');
    }
    assert(s[la] == '.');
    lemma_find_char_at(s, 0, la, '.');
    assert forall|k: int| la + 1 <= k < la + 1 + lb implies s[k] != '.' by {
        assert(s[k] == db[k - la - 1]);
        assert('0' <= db[k - la - 1] && db[k - la - 1] <= '9');
    }
    assert(s[la + 1 + lb] == '.');
    lemma_find_char_at(s, la + 1, la + 1 + lb, '.');
    assert(s.subrange(0, la) =~= da);
    assert(s.subrange(la + 1, la + 1 + lb) =~= db);
    assert(s.subrange(la + 1 + lb + 1, s.len() as int) =~= dc);
    law_decimal_parses_back(a as nat, u64::MAX as nat);
    law_decimal_parses_back(b as nat, u64::MAX as nat);
    law_decimal_parses_back(c as nat, u64::MAX as nat);
}

/// No three line feeds in a row: at most one blank line between lines.
pub open spec fn no_blank_runs(o: Seq<char>) -> bool {
    forall|i: int|
        0 <= i && i + 2 < o.len() ==> !(#[trigger] o[i] == '\n' && o[i + 1] == '\n' && o[i + 2]
            == '\n')
}

/// No whitespace other than a line feed right before a line feed.
pub open spec fn no_trailing_white(o: Seq<char>) -> bool {
    forall|i: int|
        0 <= i && i + 1 < o.len() && o[i + 1] == '\n' ==> #[trigger] o[i] == '\n' || !is_white(
            o[i],
        )
}

/// Ends in exactly one line feed.
pub open spec fn ends_in_one_newline(o: Seq<char>) -> bool {
    &&& o.len() > 0
    &&& o.last() == '\n'
    &&& o.len() >= 2 ==> o[o.len() - 2] != '\n'
}

proof fn lemma_trim_end_last(x: Seq<char>)
    ensures
        trim_end(x).len() > 0 ==> !is_white(trim_end(x).last()),
        trail_white(x) <= x.len(),
        trim_end(x).len() <= x.len(),
        forall|k: int| 0 <= k < trim_end(x).len() ==> #[trigger] trim_end(x)[k] == x[k],
    decreases x.len(),
{
    if x.len() > 0 && is_white(x.last()) {
        lemma_trim_end_last(x.drop_last());
        assert(trail_white(x) == 1 + trail_white(x.drop_last()));
        assert(trim_end(x) =~= trim_end(x.drop_last()));
    } else {
        assert(trim_end(x) =~= x);
    }
}

/// The shape of the tidied text from position `i` on.
proof fn lemma_tidy_shape(s: Seq<char>, i: int, started: bool, gap: bool)
    requires
        0 <= i,
    ensures
        no_blank_runs(tidy_from(s, i, started, gap)),
        no_trailing_white(tidy_from(s, i, started, gap)),
        started ==> ends_in_one_newline(tidy_from(s, i, started, gap)),
        started ==> tidy_from(s, i, started, gap)[0] == '\n',
        !started ==> tidy_from(s, i, started, gap).len() == 0 || (ends_in_one_newline(
            tidy_from(s, i, started, gap),
        ) && tidy_from(s, i, started, gap)[0] != '\n'),
    decreases s.len() + 1 - i,
{
    if i < s.len() {
        let e = line_end(s, i);
        lemma_line_end(s, i);
        let raw = s.subrange(i, e);
        let line = trim_end(raw);
        lemma_trim_end_last(raw);
        if line.len() == 0 {
            lemma_tidy_shape(s, e + 1, started, true);
        } else {
            lemma_tidy_shape(s, e + 1, true, false);
            let rest = tidy_from(s, e + 1, true, false);
            let sep = separator(started, gap);
            let o = sep + line + rest;
            assert(tidy_from(s, i, started, gap) == o);
            let a = sep.len() as int;
            let b = a + line.len();
            assert forall|k: int| a <= k < b implies o[k] != '\n' && o[k] == line[k - a] by {
                assert(line[k - a] == raw[k - a]);
                assert(raw[k - a] == s[i + k - a]);
            }
            assert forall|k: int| 0 <= k < a implies o[k] == '\n' by {}
            assert forall|k: int| b <= k < o.len() implies o[k] == rest[k - b] by {}
            assert(o[b - 1] == line.last());
            assert forall|k: int|
                0 <= k && k + 2 < o.len() implies !(#[trigger] o[k] == '\n' && o[k + 1] == '\n'
                && o[k + 2] == '\n') by {
                if k >= b {
                    assert(o[k] == rest[k - b] && o[k + 1] == rest[k - b + 1] && o[k + 2] == rest[k
                        - b + 2]);
                } else if k + 2 >= b && k + 1 < b {
                    assert(a <= k + 1 < b || k + 1 < a);
                } else if k + 2 < b {
                    assert(a <= k + 2 < b);
                }
            }
            assert forall|k: int|
                0 <= k && k + 1 < o.len() && o[k + 1] == '\n' implies #[trigger] o[k] == '\n'
                || !is_white(o[k]) by {
                if k >= b {
                    assert(o[k] == rest[k - b] && o[k + 1] == rest[k - b + 1]);
                } else if k == b - 1 {
                } else if k + 1 < a {
                } else {
                    assert(a <= k + 1 < b);
                }
            }
            assert(o.last() == rest.last());
            if rest.len() >= 2 {
                assert(o[o.len() - 2] == rest[rest.len() - 2]);
            } else {
                assert(o[o.len() - 2] == o[b - 1]);
            }
            if started {
                assert(a > 0);
                assert(o[0] == '\n');
            } else {
                assert(a == 0);
                assert(o[0] == line[0]);
            }
        }
    }
}

/// The tidied PDF text is presentable Markdown: no line ends in whitespace,
/// runs of blank lines and page breaks become single blank lines, it does
/// not start with a blank line, and it ends with a single line feed unless
/// it is empty.
pub proof fn law_normalize_shape(text: Seq<char>)
    ensures
        no_blank_runs(spec_normalize(text)),
        no_trailing_white(spec_normalize(text)),
        spec_normalize(text).len() == 0 || (ends_in_one_newline(spec_normalize(text))
            && spec_normalize(text)[0] != '\n'),
{
    lemma_tidy_shape(text, 0, false, false);
}

/// Decimal digits are not whitespace, so trimming leaves a number alone.
proof fn lemma_trim_decimal(n: nat)
    ensures
        trim(decimal(n)) == decimal(n),
{
    lemma_decimal_digits(n);
    let d = decimal(n);
    assert('0' <= d[d.len() - 1] && d[d.len() - 1] <= '9');
    assert(trail_white(d) == 0);
    assert(trim_end(d) =~= d);
    assert('0' <= d[0] && d[0] <= '9');
    assert(lead_white(d) == 0);
    assert(d.skip(0) =~= d);
}

/// Saving the settings form as it was filled in from the current settings
/// keeps them: the quality written in decimal parses back, and an output
/// directory without surrounding whitespace (or none, shown as an empty
/// field) is kept as it is.
pub proof fn law_settings_form_round_trip(
    output_dir: Option<Seq<char>>,
    quality: u8,
    launch_at_login: bool,
    check_updates: bool,
)
    requires
        1 <= quality <= 100,
        output_dir matches Some(d) ==> d.len() > 0 && trim(d) == d,
    ensures
        spec_from_form(
            match output_dir {
                Some(d) => d,
                None => seq![],
            },
            decimal(quality as nat),
            launch_at_login,
            check_updates,
        ) == Ok::<(Option<Seq<char>>, u8, bool, bool), Seq<char>>(
            (output_dir, quality, launch_at_login, check_updates),
        ),
{
    lemma_trim_decimal(quality as nat);
    law_decimal_parses_back(quality as nat, 255);
    let empty: Seq<char> = seq![];
    assert(trail_white(empty) == 0);
    assert(trim_end(empty) =~= empty);
    assert(trim(empty) =~= empty);
}

/// The worker runs the oldest queued job first: with ids increasing along
/// the queue, the first queued job (the one the worker picks) has the
/// smallest id of all queued jobs.
pub proof fn law_next_job_is_oldest_queued(jobs: Seq<JobView>, next_id: u64, i: int)
    requires
        ids_ordered(jobs, next_id),
        0 <= i < jobs.len(),
        jobs[i].status is Queued,
        forall|k: int| 0 <= k < i ==> !(#[trigger] jobs[k].status is Queued),
    ensures
        forall|k: int|
            0 <= k < jobs.len() && #[trigger] jobs[k].status is Queued ==> jobs[i].id <= jobs[k].id,
{
    assert forall|k: int| 0 <= k < jobs.len() && #[trigger] jobs[k].status is Queued implies jobs[i].id
        <= jobs[k].id by {
        if k < i {
        } else if k > i {
            assert(jobs[i].id < jobs[k].id);
        }
    }
}

/// Context menus and the format picker agree, both being generated from the
/// registry: files of format `from` get a "Convert to" entry for `t`
/// exactly when `t` is among the targets offered for `from`.
pub proof fn law_menus_match_targets(
    registry: Map<(Format, Format), Backend>,
    soffice_found: bool,
    entries: Seq<MenuEntry>,
    from: Format,
    targets: Seq<Format>,
)
    requires
        forall|e: MenuEntry|
            entries.contains(e) <==> registry.contains_key((e.from, e.to)) && spec_backend_available(
                registry[(e.from, e.to)],
                soffice_found,
            ),
        forall|t: Format|
            targets.contains(t) <==> registry.contains_key((from, t)) && spec_backend_available(
                registry[(from, t)],
                soffice_found,
            ),
    ensures
        forall|t: Format| entries.contains(MenuEntry { from, to: t }) <==> targets.contains(t),
{
    assert forall|t: Format| entries.contains(MenuEntry { from, to: t }) <==> targets.contains(t) by {
        let e = MenuEntry { from, to: t };
        assert(entries.contains(e) <==> registry.contains_key((e.from, e.to))
            && spec_backend_available(registry[(e.from, e.to)], soffice_found));
    }
}

/// `s` from position `i` on; empty from its end on.
pub open spec fn suffix(s: Seq<char>, i: int) -> Seq<char> {
    if 0 <= i < s.len() {
        s.skip(i)
    } else {
        seq![]
    }
}

/// The non-blank lines of `s`, each without its trailing whitespace, in
/// order, each with whether blank lines came before it (`gap` stands for
/// what came before `s`).
pub open spec fn text_lines(s: Seq<char>, gap: bool) -> Seq<(bool, Seq<char>)>
    decreases s.len(),
{
    if s.len() == 0 {
        seq![]
    } else {
        let e = line_end(s, 0);
        proof {
            lemma_line_end(s, 0);
        }
        let line = trim_end(s.take(e));
        let rest = if e < s.len() {
            s.skip(e + 1)
        } else {
            seq![]
        };
        if line.len() == 0 {
            text_lines(rest, true)
        } else {
            seq![(gap, line)] + text_lines(rest, false)
        }
    }
}

/// The non-blank lines of `s`, each without its trailing whitespace, in
/// order.
pub open spec fn kept_lines(s: Seq<char>) -> Seq<Seq<char>> {
    text_lines(s, false).map_values(|p: (bool, Seq<char>)| p.1)
}

/// Lines written out, each ended by a line feed, with one blank line before
/// each line that had blank lines before it (but the first).
pub open spec fn emit(ls: Seq<(bool, Seq<char>)>, first: bool) -> Seq<char>
    decreases ls.len(),
{
    if ls.len() == 0 {
        seq![]
    } else {
        (if ls[0].0 && !first {
            seq!['\n']
        } else {
            seq![]
        }) + ls[0].1 + seq!['\n'] + emit(ls.drop_first(), false)
    }
}

/// A line as `text_lines` gives it: not empty, no line feed, not ending in
/// whitespace.
pub open spec fn clean_line(l: Seq<char>) -> bool {
    &&& l.len() > 0
    &&& forall|k: int| 0 <= k < l.len() ==> #[trigger] l[k] != '\n'
    &&& !is_white(l.last())
}

proof fn lemma_line_end_shift(s: Seq<char>, i: int, j: int)
    requires
        0 <= i <= s.len(),
        0 <= j <= s.len() - i,
    ensures
        line_end(s, i + j) == i + line_end(s.skip(i), j),
    decreases s.len() - i - j,
{
    if i + j < s.len() {
        assert(s.skip(i)[j] == s[i + j]);
        if s[i + j] != '\n' {
            lemma_line_end_shift(s, i, j + 1);
        }
    }
}

/// The tidied text is the text's lines written out.
proof fn lemma_tidy_emit(s: Seq<char>, i: int, started: bool, gap: bool)
    requires
        0 <= i,
    ensures
        tidy_from(s, i, started, gap) == if started {
            seq!['\n'] + emit(text_lines(suffix(s, i), gap), false)
        } else {
            emit(text_lines(suffix(s, i), gap), true)
        },
    decreases s.len() + 1 - i,
{
    if i < s.len() {
        let e = line_end(s, i);
        lemma_line_end(s, i);
        let x = suffix(s, i);
        assert(x == s.skip(i));
        lemma_line_end_shift(s, i, 0);
        let ex = line_end(x, 0);
        assert(e == i + ex);
        assert(x.take(ex) =~= s.subrange(i, e));
        let rest = if ex < x.len() {
            x.skip(ex + 1)
        } else {
            seq![]
        };
        assert(rest =~= suffix(s, e + 1));
        lemma_tidy_emit(s, e + 1, true, false);
        lemma_tidy_emit(s, e + 1, started, true);
        let line = trim_end(s.subrange(i, e));
        if line.len() > 0 {
            let t = text_lines(rest, false);
            let ls = seq![(gap, line)] + t;
            assert(text_lines(x, gap) == ls);
            assert(ls.drop_first() =~= t);
            assert(ls[0] == (gap, line));
            if started {
                assert(tidy_from(s, i, started, gap) =~= seq!['\n'] + emit(ls, false));
            } else {
                assert(tidy_from(s, i, started, gap) =~= emit(ls, true));
            }
        }
    }
}

proof fn lemma_text_lines_clean(s: Seq<char>, gap: bool)
    ensures
        forall|k: int|
            0 <= k < text_lines(s, gap).len() ==> clean_line(#[trigger] text_lines(s, gap)[k].1),
    decreases s.len(),
{
    if s.len() > 0 {
        let e = line_end(s, 0);
        lemma_line_end(s, 0);
        let raw = s.take(e);
        lemma_trim_end_last(raw);
        let line = trim_end(raw);
        let rest = if e < s.len() {
            s.skip(e + 1)
        } else {
            seq![]
        };
        lemma_text_lines_clean(rest, true);
        lemma_text_lines_clean(rest, false);
        if line.len() > 0 {
            assert forall|k: int| 0 <= k < line.len() implies #[trigger] line[k] != '\n' by {
                assert(line[k] == raw[k]);
            }
            let t = text_lines(rest, false);
            assert(text_lines(s, gap) == seq![(gap, line)] + t);
            assert(clean_line(line));
            assert forall|k: int|
                0 <= k < text_lines(s, gap).len() implies clean_line(
                #[trigger] text_lines(s, gap)[k].1,
            ) by {
                if k > 0 {
                    assert(text_lines(s, gap)[k] == t[k - 1]);
                } else {
                    assert(text_lines(s, gap)[0] == (gap, line));
                }
            }
        } else {
            assert(text_lines(s, gap) == text_lines(rest, true));
        }
    }
}

/// Reading written-out clean lines back gives them again; the first loses
/// its blank-lines mark when nothing came before it.
proof fn lemma_read_back(ls: Seq<(bool, Seq<char>)>, first: bool)
    requires
        forall|k: int| 0 <= k < ls.len() ==> clean_line(#[trigger] ls[k].1),
    ensures
        text_lines(emit(ls, first), false) == if first && ls.len() > 0 {
            ls.update(0, (false, ls[0].1))
        } else {
            ls
        },
    decreases ls.len(),
{
    if ls.len() > 0 {
        let l = ls[0].1;
        let rest = ls.drop_first();
        assert forall|k: int| 0 <= k < rest.len() implies clean_line(#[trigger] rest[k].1) by {
            assert(rest[k] == ls[k + 1]);
        }
        lemma_read_back(rest, false);
        let e = emit(rest, false);
        assert(clean_line(ls[0].1));
        let body = l + seq!['\n'] + e;
        assert(body[l.len() as int] == '\n');
        lemma_line_end(body, 0);
        assert forall|k: int| 0 <= k < l.len() implies body[k] != '\n' by {
            assert(body[k] == l[k]);
        }
        let be = line_end(body, 0);
        assert(be == l.len());
        assert(body.take(be) =~= l);
        assert(trail_white(l) == 0);
        assert(trim_end(l) =~= l);
        assert(body.skip(be + 1) =~= e);
        if ls[0].0 && !first {
            let full = seq!['\n'] + body;
            assert(emit(ls, first) =~= full);
            assert(line_end(full, 0) == 0);
            assert(full.take(0) =~= Seq::<char>::empty());
            assert(trail_white(Seq::<char>::empty()) == 0);
            assert(full.skip(1) =~= body);
            assert(text_lines(full, false) == text_lines(body, true));
            assert(text_lines(body, true) =~= seq![(true, l)] + rest);
            assert(ls =~= seq![(true, l)] + rest);
        } else {
            assert(emit(ls, first) =~= body);
            assert(text_lines(body, false) =~= seq![(false, l)] + rest);
            if first {
                assert(ls.update(0, (false, l)) =~= seq![(false, l)] + rest);
            } else {
                assert(ls =~= seq![(false, l)] + rest);
            }
        }
    }
}

/// Tidying extracted text twice gives what tidying it once gives, and it
/// keeps the text's non-blank lines, each without its trailing whitespace,
/// in their order; the result is empty exactly when the text has no
/// non-blank line.
pub proof fn law_normalize_idempotent_keeps_lines(text: Seq<char>)
    ensures
        spec_normalize(spec_normalize(text)) == spec_normalize(text),
        kept_lines(spec_normalize(text)) == kept_lines(text),
        spec_normalize(text).len() == 0 <==> kept_lines(text).len() == 0,
{
    lemma_tidy_emit(text, 0, false, false);
    assert(suffix(text, 0) =~= text);
    let ls = text_lines(text, false);
    let o = emit(ls, true);
    assert(spec_normalize(text) == o);
    lemma_text_lines_clean(text, false);
    lemma_read_back(ls, true);
    lemma_tidy_emit(o, 0, false, false);
    assert(suffix(o, 0) =~= o);
    let back = text_lines(o, false);
    if ls.len() > 0 {
        assert(back == ls.update(0, (false, ls[0].1)));
        assert(back.drop_first() =~= ls.drop_first());
        assert(emit(back, true) =~= emit(ls, true));
        assert(o.len() >= ls[0].1.len());
    } else {
        assert(back == ls);
    }
    assert(kept_lines(o) =~= kept_lines(text));
}

/// Only a file's first `SNIFF_LEN` bytes decide its format: bytes past
/// them never change what is detected.
pub proof fn law_bytes_past_window_never_matter(
    content: Seq<u8>,
    more: Seq<u8>,
    ext: Option<Seq<char>>,
)
    requires
        content.len() >= SNIFF_LEN,
    ensures
        spec_detect(sniff_window(content + more), ext) == spec_detect(sniff_window(content), ext),
{
    assert((content + more).take(SNIFF_LEN as int) =~= content.take(SNIFF_LEN as int));
    if content.len() == SNIFF_LEN {
        assert(content.take(SNIFF_LEN as int) =~= content);
    }
}

/// The bytes of a text of ASCII characters (its UTF-8 encoding).
pub open spec fn ascii_bytes(s: Seq<char>) -> Seq<u8> {
    s.map_values(|c: char| c as u8)
}

proof fn lemma_ascii_utf8(b: Seq<u8>, i: int)
    requires
        0 <= i,
        forall|k: int| 0 <= k < b.len() ==> #[trigger] b[k] < 0x80u8,
    ensures
        utf8_from(b, i),
    decreases b.len() - i,
{
    if i < b.len() {
        lemma_ascii_utf8(b, i + 1);
    }
}

/// Every character of vtracer's documents is printable ASCII or a line feed.
proof fn lemma_traced_chars(svg: Seq<char>, width: nat, height: nat)
    requires
        traced_svg(svg, width, height),
    ensures
        forall|k: int| 0 <= k < svg.len() ==> svg_char(#[trigger] svg[k]),
        svg.len() > 90,
        svg[0] == '<',
        svg.subrange(86, 90) == seq!['<', 's', 'v', 'g'],
{
    let paths = choose|paths: Seq<char>|
        {
            &&& svg == svg_prelude(width, height) + paths + "</svg>\n"@
            &&& forall|k: int| 0 <= k < paths.len() ==> svg_char(#[trigger] paths[k])
        };
    let head = "<?xml version=\"1.0\" encoding=\"UTF-8\"?>\n<!-- Generator: visioncortex VTracer 0.6.5 -->\n<svg version=\"1.1\" xmlns=\"http://www.w3.org/2000/svg\" width=\""@;
    let mid = "\" height=\""@;
    let tail = "\">\n"@;
    let close = "</svg>\n"@;
    reveal_strlit("<?xml version=\"1.0\" encoding=\"UTF-8\"?>\n<!-- Generator: visioncortex VTracer 0.6.5 -->\n<svg version=\"1.1\" xmlns=\"http://www.w3.org/2000/svg\" width=\"");
    reveal_strlit("\" height=\"");
    reveal_strlit("\">\n");
    reveal_strlit("</svg>\n");
    let dw = decimal(width);
    let dh = decimal(height);
    lemma_decimal_digits(width);
    lemma_decimal_digits(height);
    assert(head.len() == 147);
    assert forall|k: int| 0 <= k < head.len() implies svg_char(#[trigger] head[k]) by {}
    assert forall|k: int| 0 <= k < mid.len() implies svg_char(#[trigger] mid[k]) by {}
    assert forall|k: int| 0 <= k < tail.len() implies svg_char(#[trigger] tail[k]) by {}
    assert forall|k: int| 0 <= k < close.len() implies svg_char(#[trigger] close[k]) by {}
    assert forall|k: int| 0 <= k < dw.len() implies svg_char(#[trigger] dw[k]) by {
        assert('0' <= dw[k] && dw[k] <= '9');
    }
    assert forall|k: int| 0 <= k < dh.len() implies svg_char(#[trigger] dh[k]) by {
        assert('0' <= dh[k] && dh[k] <= '9');
    }
    assert(svg =~= head + dw + mid + dh + tail + paths + close);
    assert forall|k: int| 0 <= k < svg.len() implies svg_char(#[trigger] svg[k]) by {
        let a1 = head.len() as int;
        let a2 = a1 + dw.len();
        let a3 = a2 + mid.len();
        let a4 = a3 + dh.len();
        let a5 = a4 + tail.len();
        let a6 = a5 + paths.len();
        if k < a1 {
            assert(svg[k] == head[k]);
        } else if k < a2 {
            assert(svg[k] == dw[k - a1]);
        } else if k < a3 {
            assert(svg[k] == mid[k - a2]);
        } else if k < a4 {
            assert(svg[k] == dh[k - a3]);
        } else if k < a5 {
            assert(svg[k] == tail[k - a4]);
        } else if k < a6 {
            assert(svg[k] == paths[k - a5]);
        } else {
            assert(svg[k] == close[k - a6]);
        }
    }
    assert(svg[0] == head[0]);
    assert(svg.subrange(86, 90) =~= head.subrange(86, 90));
    assert(head.subrange(86, 90) =~= seq!['<', 's', 'v', 'g']);
}

/// What vtracer writes is detected as SVG: its bytes are printable ASCII,
/// its first byte opens a tag and `<svg` comes within the sniff window,
/// whatever paths it traced.
pub proof fn law_traced_svg_is_detected_as_svg(
    svg: Seq<char>,
    width: nat,
    height: nat,
    ext: Option<Seq<char>>,
)
    requires
        traced_svg(svg, width, height),
    ensures
        spec_detect(sniff_window(ascii_bytes(svg)), ext) == Some(Format::Svg),
{
    lemma_traced_chars(svg, width, height);
    let all = ascii_bytes(svg);
    let b = sniff_window(all);
    assert forall|k: int| 0 <= k < all.len() implies #[trigger] all[k] == svg[k] as u8 && (
    0x20u8 <= all[k] <= 0x7eu8 || all[k] == 0x0au8) by {
        assert(svg_char(svg[k]));
    }
    assert(b.len() > 90);
    assert forall|k: int| 0 <= k < b.len() implies #[trigger] b[k] == all[k] by {}
    assert forall|k: int| 0 <= k < b.len() implies #[trigger] b[k] < 0x80u8 by {
        assert(b[k] == all[k]);
    }
    lemma_ascii_utf8(b, 0);
    assert forall|k: int| 0 <= k < b.len() implies !crate::format::is_control_byte(#[trigger] b[k]) by {
        assert(b[k] == all[k]);
    }
    assert(spec_is_plain_text(b));
    assert(b[0] == 0x3cu8) by {
        assert(b[0] == all[0]);
    }
    assert(leading_spaces(b) == 0);
    assert(b.subrange(86, 90) =~= svg_marker()) by {
        assert(b[86] == all[86] && b[87] == all[87] && b[88] == all[88] && b[89] == all[89]);
    }
    assert(svg_marker().len() == 4);
    assert(b.subrange(86, 86 + svg_marker().len() as int) == svg_marker());
    assert(occurs(b, svg_marker()));
    assert(is_svg_text(b));
    assert(b.take(8) != crate::format::png_magic());
    assert(b.take(3) != crate::format::jpg_magic());
    assert(b.take(6) != crate::format::gif87_magic());
    assert(b.take(6) != crate::format::gif89_magic());
    assert(b.take(5) != crate::format::pdf_magic());
    assert(b.take(4) != crate::format::zip_magic());
}

/// A dotted extension parses as the extension without the dot.
proof fn lemma_dotted_parses(x: Seq<char>, f: Format)
    requires
        spec_from_extension(x) == Some(f),
    ensures
        spec_from_extension(seq!['.'] + x) == Some(f),
{
    law_extension_ignores_dots_and_case(x);
}

/// A lowercase alias without dots parses to the format it names.
proof fn lemma_alias_parses(x: Seq<char>, f: Format)
    requires
        crate::format::format_of_extension(x) == Some(f),
        x.len() > 0,
        x[0] != '.',
        ascii_lower(x) == x,
    ensures
        spec_from_extension(x) == Some(f),
{
    assert(leading_dots(x) == 0);
    assert(x.skip(0) =~= x);
}

/// Every extension that selects a format in Windows' file associations is
/// dotted and parses back to that format, and every format has one.
pub proof fn law_windows_extensions_parse_back(f: Format)
    ensures
        spec_windows_extensions(f).len() > 0,
        forall|i: int|
            0 <= i < spec_windows_extensions(f).len() ==> {
                let e = #[trigger] spec_windows_extensions(f)[i];
                &&& e.len() > 0
                &&& e[0] == '.'
                &&& spec_from_extension(e) == Some(f)
            },
{
    reveal_strlit(".png");
    reveal_strlit(".jpg");
    reveal_strlit(".jpeg");
    reveal_strlit(".bmp");
    reveal_strlit(".gif");
    reveal_strlit(".webp");
    reveal_strlit(".svg");
    reveal_strlit(".pdf");
    reveal_strlit(".docx");
    reveal_strlit(".md");
    reveal_strlit(".markdown");
    law_extension_round_trip(f);
    let canonical = spec_extension(f);
    lemma_dotted_parses(canonical, f);
    let ws = spec_windows_extensions(f);
    assert(ws[0] =~= seq!['.'] + canonical);
    if f == Format::Jpg {
        let jpeg = seq!['j', 'p', 'e', 'g'];
        assert(ascii_lower(jpeg) =~= jpeg);
        lemma_alias_parses(jpeg, f);
        lemma_dotted_parses(jpeg, f);
        assert(ws[1] =~= seq!['.'] + jpeg);
    }
    if f == Format::Md {
        let markdown = seq!['m', 'a', 'r', 'k', 'd', 'o', 'w', 'n'];
        assert(ascii_lower(markdown) =~= markdown);
        lemma_alias_parses(markdown, f);
        lemma_dotted_parses(markdown, f);
        assert(ws[1] =~= seq!['.'] + markdown);
    }
}

/// A probe that answers every name one way only (a directory listing at
/// one moment).
pub open spec fn answers_once<F: Fn(&str) -> bool>(probe: F, name: Seq<char>) -> bool {
    forall|a: bool, b: bool| probed(probe, name, a) && probed(probe, name, b) ==> a == b
}

/// Repeating a conversion never overwrites the first one's output. Take the
/// first output name `candidate(n1)` (free, all before it taken) and a second
/// run of `output_path` for the same stem and extension whose probe still
/// finds every name the first found taken, and now the first output too;
/// the second name `candidate(n2)` comes later and is another.
pub proof fn law_repeated_conversion_takes_a_new_name<F: Fn(&str) -> bool, G: Fn(&str) -> bool>(
    first: F,
    second: G,
    stem: Seq<char>,
    ext: Seq<char>,
    n1: nat,
    n2: nat,
)
    requires
        probed(first, candidate_name(stem, ext, n1), false),
        forall|m: nat| m < n1 ==> probed(first, #[trigger] candidate_name(stem, ext, m), true),
        probed(second, candidate_name(stem, ext, n2), false),
        forall|m: nat| m < n2 ==> probed(second, #[trigger] candidate_name(stem, ext, m), true),
        forall|m: nat|
            probed(first, #[trigger] candidate_name(stem, ext, m), true) ==> probed(
                second,
                candidate_name(stem, ext, m),
                true,
            ),
        probed(second, candidate_name(stem, ext, n1), true),
        forall|m: nat| answers_once(second, #[trigger] candidate_name(stem, ext, m)),
    ensures
        n2 > n1,
        candidate_name(stem, ext, n2) != candidate_name(stem, ext, n1),
{
    if n2 < n1 {
        assert(probed(first, candidate_name(stem, ext, n2), true));
        assert(probed(second, candidate_name(stem, ext, n2), true));
        assert(answers_once(second, candidate_name(stem, ext, n2)));
    } else if n2 == n1 {
        assert(answers_once(second, candidate_name(stem, ext, n1)));
    }
    assert(answers_once(second, candidate_name(stem, ext, n2)));
}

/// Converting back next to the original names the copy ` (1)`: when the
/// original `stem.ext` is there and `stem (1).ext` is not, the output is
/// `stem (1).ext` (e.g. `pic.png` → `pic.jpg` → `pic (1).png`).
pub proof fn law_converting_back_names_the_copy<F: Fn(&str) -> bool>(
    probe: F,
    stem: Seq<char>,
    ext: Seq<char>,
    n: nat,
)
    requires
        probed(probe, candidate_name(stem, ext, n), false),
        forall|m: nat| m < n ==> probed(probe, #[trigger] candidate_name(stem, ext, m), true),
        probed(probe, candidate_name(stem, ext, 0), true),
        probed(probe, candidate_name(stem, ext, 1), false),
        answers_once(probe, candidate_name(stem, ext, 0)),
        answers_once(probe, candidate_name(stem, ext, 1)),
    ensures
        n == 1,
        candidate_name(stem, ext, n) == stem + " (1)."@ + ext,
{
    reveal_strlit(" (1).");
    if n == 0 {
    } else if n > 1 {
        assert(probed(probe, candidate_name(stem, ext, 1), true));
    }
    assert(decimal(1) =~= seq!['1']);
    assert(candidate_name(stem, ext, 1) =~= stem + " (1)."@ + ext);
}

/// The UTF-8 encoding of one character (RFC 3629): one to four bytes by
/// the size of its code point.
pub open spec fn utf8_of_char(c: char) -> Seq<u8> {
    let x = c as int;
    if x < 0x80 {
        seq![x as u8]
    } else if x < 0x800 {
        seq![(0xc0 + x / 64) as u8, (0x80 + x % 64) as u8]
    } else if x < 0x10000 {
        seq![(0xe0 + x / 4096) as u8, (0x80 + (x / 64) % 64) as u8, (0x80 + x % 64) as u8]
    } else {
        seq![
            (0xf0 + x / 262144) as u8,
            (0x80 + (x / 4096) % 64) as u8,
            (0x80 + (x / 64) % 64) as u8,
            (0x80 + x % 64) as u8,
        ]
    }
}

/// The UTF-8 encoding of a text: its characters' encodings in order.
pub open spec fn utf8_of(s: Seq<char>) -> Seq<u8>
    decreases s.len(),
{
    if s.len() == 0 {
        seq![]
    } else {
        utf8_of_char(s[0]) + utf8_of(s.drop_first())
    }
}

/// A character that plain text may hold: not a control character other
/// than tab, line feed, carriage return and form feed.
pub open spec fn text_char(c: char) -> bool {
    !((c as int) < 0x20 && c != '\t' && c != '\n' && c != '\r' && c != '\x0c') && c != '\x7f'
}

proof fn lemma_utf8_char_shape(c: char)
    ensures
        ({
            let e = utf8_of_char(c);
            &&& 1 <= e.len() <= 4
            &&& crate::format::utf8_width(e[0]) == e.len()
            &&& e.len() >= 2 ==> crate::format::second_ok(e[0], e[1])
            &&& e.len() >= 3 ==> crate::format::is_cont(e[2])
            &&& e.len() == 4 ==> crate::format::is_cont(e[3])
            &&& e.len() == 1 ==> e[0] == c as int
            &&& e.len() >= 2 ==> forall|k: int| 0 <= k < e.len() ==> e[k] >= 0x80u8
        }),
{
    let x = c as int;
    assert(0 <= x <= 0x10ffff);
    assert(!(0xd800 <= x <= 0xdfff));
    if x < 0x80 {
    } else if x < 0x800 {
        assert(2 <= x / 64 < 32);
    } else if x < 0x10000 {
        assert(0 <= x / 4096 < 16);
        assert(0 <= (x / 64) % 64 < 64);
        if x < 0x1000 {
            assert(x / 4096 == 0);
            assert(32 <= x / 64 < 64);
            assert((x / 64) % 64 == x / 64);
        }
        if 0xd000 <= x < 0xe000 {
            assert(x / 4096 == 13);
            assert(0xd000 <= x <= 0xd7ff);
            assert(0x340 <= x / 64 <= 0x35f);
            assert((x / 64) % 64 == x / 64 - 0x340);
        }
    } else {
        assert(0 <= x / 262144 <= 4);
        assert(0 <= (x / 4096) % 64 < 64);
        if x < 0x40000 {
            assert(x / 262144 == 0);
            assert(16 <= x / 4096 < 64);
            assert((x / 4096) % 64 == x / 4096);
        }
        if x >= 0x100000 {
            assert(x / 262144 == 4);
            assert(0x100 <= x / 4096 <= 0x10f);
            assert((x / 4096) % 64 == x / 4096 - 0x100);
        }
    }
}

#[verifier::spinoff_prover]
#[verifier::rlimit(40)]
proof fn lemma_utf8_text_from(pre: Seq<u8>, s: Seq<char>, n: int)
    requires
        pre.len() <= n <= pre.len() + utf8_of(s).len(),
    ensures
        utf8_from((pre + utf8_of(s)).take(n), pre.len() as int),
    decreases s.len(),
{
    let t = (pre + utf8_of(s)).take(n);
    let k = pre.len() as int;
    if k < t.len() {
        assert(s.len() > 0);
        let e = utf8_of_char(s[0]);
        let rest = s.drop_first();
        lemma_utf8_char_shape(s[0]);
        assert(utf8_of(s) == e + utf8_of(rest));
        assert forall|j: int| 0 <= j < e.len() && k + j < t.len() implies t[k + j] == e[j] by {}
        let pre2 = pre + e;
        let w = e.len() as int;
        assert(t[k] == e[0]);
        assert(crate::format::utf8_width(t[k]) == w);
        if k + w < t.len() {
            assert((pre2 + utf8_of(rest)) =~= pre + utf8_of(s));
            lemma_utf8_text_from(pre2, rest, n);
            assert(utf8_from(t, k + w));
        } else {
            assert(utf8_from(t, k + w));
        }
        if w >= 2 && k + 1 < t.len() {
            assert(t[k + 1] == e[1]);
        }
        if w >= 3 && k + 2 < t.len() {
            assert(t[k + 2] == e[2]);
        }
        if w == 4 && k + 3 < t.len() {
            assert(t[k + 3] == e[3]);
        }
    }
}

/// Every text, written in UTF-8, is well-formed UTF-8 to the text sniffer,
/// even when cut off anywhere; and when it holds no control characters it
/// is plain text. (So Markdown with dashes, curly quotes, euro signs or CJK
/// is recognised as text.)
pub proof fn law_utf8_text_is_plain_text(s: Seq<char>, n: nat)
    requires
        n <= utf8_of(s).len(),
    ensures
        utf8_from(utf8_of(s).take(n as int), 0),
        (forall|i: int| 0 <= i < s.len() ==> text_char(#[trigger] s[i])) ==> spec_is_plain_text(
            utf8_of(s).take(n as int),
        ),
{
    let empty: Seq<u8> = seq![];
    assert(empty + utf8_of(s) =~= utf8_of(s));
    lemma_utf8_text_from(empty, s, n as int);
    if forall|i: int| 0 <= i < s.len() ==> text_char(#[trigger] s[i]) {
        lemma_utf8_no_control(s);
    }
}

proof fn lemma_utf8_no_control(s: Seq<char>)
    requires
        forall|i: int| 0 <= i < s.len() ==> text_char(#[trigger] s[i]),
    ensures
        forall|k: int| 0 <= k < utf8_of(s).len() ==> !crate::format::is_control_byte(
            #[trigger] utf8_of(s)[k],
        ),
    decreases s.len(),
{
    if s.len() > 0 {
        let rest = s.drop_first();
        assert forall|i: int| 0 <= i < rest.len() implies text_char(#[trigger] rest[i]) by {
            assert(rest[i] == s[i + 1]);
        }
        lemma_utf8_no_control(rest);
        let e = utf8_of_char(s[0]);
        lemma_utf8_char_shape(s[0]);
        assert(text_char(s[0]));
        assert(utf8_of(s) == e + utf8_of(rest));
        assert forall|k: int| 0 <= k < utf8_of(s).len() implies !crate::format::is_control_byte(
            #[trigger] utf8_of(s)[k],
        ) by {
            if k < e.len() {
                assert(utf8_of(s)[k] == e[k]);
            } else {
                assert(utf8_of(s)[k] == utf8_of(rest)[k - e.len()]);
            }
        }
    }
}

/// A version as one number: major, then minor, then patch, each in its
/// own 64-bit place.
pub open spec fn version_number(v: (u64, u64, u64)) -> int {
    v.0 * 0x1_0000_0000_0000_0000_0000_0000_0000_0000int + v.1 * 0x1_0000_0000_0000_0000int + v.2
}

/// "Newer" is the numeric order of versions read as one number with the
/// major part most significant: a larger major number is newer whatever the
/// rest, and only equal major (then minor) numbers let the next part decide.
pub proof fn law_newer_is_numeric_order(a: (u64, u64, u64), b: (u64, u64, u64))
    ensures
        spec_newer(a, b) <==> version_number(a) > version_number(b),
        a.0 > b.0 ==> spec_newer(a, b),
        a.0 < b.0 ==> !spec_newer(a, b),
        a.0 == b.0 && a.1 > b.1 ==> spec_newer(a, b),
        a.0 == b.0 && a.1 < b.1 ==> !spec_newer(a, b),
{
    let p = 0x1_0000_0000_0000_0000int;
    assert(0 <= a.1 < p && 0 <= b.1 < p && 0 <= a.2 < p && 0 <= b.2 < p);
    assert(version_number(a) == (a.0 * p + a.1) * p + a.2);
    assert(version_number(b) == (b.0 * p + b.1) * p + b.2);
    if a.0 > b.0 {
        assert(a.0 * p >= b.0 * p + p) by (nonlinear_arith)
            requires a.0 >= b.0 + 1, p > 0;
        assert((a.0 * p + a.1) * p >= (b.0 * p + b.1) * p + p) by (nonlinear_arith)
            requires a.0 * p + a.1 >= b.0 * p + b.1 + 1, p > 0;
    } else if a.0 < b.0 {
        assert(b.0 * p >= a.0 * p + p) by (nonlinear_arith)
            requires b.0 >= a.0 + 1, p > 0;
        assert((b.0 * p + b.1) * p >= (a.0 * p + a.1) * p + p) by (nonlinear_arith)
            requires b.0 * p + b.1 >= a.0 * p + a.1 + 1, p > 0;
    } else if a.1 > b.1 {
        assert((a.0 * p + a.1) * p >= (b.0 * p + b.1) * p + p) by (nonlinear_arith)
            requires a.0 * p + a.1 >= b.0 * p + b.1 + 1, p > 0;
    } else if a.1 < b.1 {
        assert((b.0 * p + b.1) * p >= (a.0 * p + a.1) * p + p) by (nonlinear_arith)
            requires b.0 * p + b.1 >= a.0 * p + a.1 + 1, p > 0;
    }
}

/// The output keeps the input's whole name: every output name for an input
/// with stem `stem` begins with the whole stem (dots and all), and the name
/// tried first is exactly the stem, a dot and the target extension.
pub proof fn law_output_name_keeps_whole_stem(stem: Seq<char>, ext: Seq<char>, n: nat)
    ensures
        candidate_name(output_stem(Some(stem)), ext, n).len() > stem.len() + ext.len(),
        candidate_name(output_stem(Some(stem)), ext, n).take(stem.len() as int) == stem,
        candidate_name(output_stem(Some(stem)), ext, n).skip(
            candidate_name(output_stem(Some(stem)), ext, n).len() - ext.len() - 1,
        ) == seq!['.'] + ext,
        candidate_name(output_stem(Some(stem)), ext, 0) == stem + seq!['.'] + ext,
{
    let name = candidate_name(output_stem(Some(stem)), ext, n);
    assert(name.take(stem.len() as int) =~= stem);
    assert(name.skip(name.len() - ext.len() - 1) =~= seq!['.'] + ext);
}

/// What each conversion engine converts, by its own description: bitmaps
/// to other bitmaps (`image`), bitmaps to SVG (`vtracer`), DOCX and PDF into
/// each other (LibreOffice), Markdown to PDF (rendered HTML laid out), and
/// PDF to Markdown (its text layer).
pub open spec fn engine_converts(b: Backend, from: Format, to: Format) -> bool {
    match b {
        Backend::Raster => crate::format::spec_is_raster(from) && crate::format::spec_is_raster(to)
            && from != to,
        Backend::Vector => crate::format::spec_is_raster(from) && to == Format::Svg,
        Backend::LibreOffice => (from == Format::Docx && to == Format::Pdf) || (from == Format::Pdf
            && to == Format::Docx),
        Backend::MarkdownToPdf => from == Format::Md && to == Format::Pdf,
        Backend::PdfToMarkdown => from == Format::Pdf && to == Format::Md,
        Backend::External { .. } => false,
    }
}

/// Each default pair is served by the engine built for it, and every pair
/// a built-in engine converts is registered by default: Markdown goes to
/// PDF through rendering, never as raw text through LibreOffice, which only
/// gets DOCX and PDF.
pub proof fn law_defaults_use_the_engine_built_for_the_pair(from: Format, to: Format, b: Backend)
    ensures
        default_backend(from, to) == Some(b) ==> engine_converts(b, from, to),
        engine_converts(b, from, to) ==> default_backend(from, to) == Some(b),
{
}

/// `soffice` gets the input last and the output directory right after
/// `--outdir`, whatever the import filter; an import filter only inserts
/// `--infilter=…` after the fixed options, leaving the rest as it is.
pub proof fn law_soffice_args_order(
    profile_url: Seq<char>,
    infilter: Option<Seq<char>>,
    target: Seq<char>,
    outdir: Seq<char>,
    input: Seq<char>,
)
    ensures
        ({
            let a = spec_soffice_args(profile_url, infilter, target, outdir, input);
            &&& a.len() >= 8
            &&& a.last() == input
            &&& a[a.len() - 2] == outdir
            &&& a[a.len() - 3] == "--outdir"@
            &&& a[a.len() - 4] == target
            &&& a[a.len() - 5] == "--convert-to"@
        }),
        forall|f: Seq<char>|
            spec_soffice_args(profile_url, Some(f), target, outdir, input) == spec_soffice_args(
                profile_url,
                None,
                target,
                outdir,
                input,
            ).insert(3, "--infilter="@ + f),
{
    assert forall|f: Seq<char>|
        spec_soffice_args(profile_url, Some(f), target, outdir, input) == spec_soffice_args(
            profile_url,
            None,
            target,
            outdir,
            input,
        ).insert(3, "--infilter="@ + f) by {
        assert(spec_soffice_args(profile_url, Some(f), target, outdir, input) =~= spec_soffice_args(
            profile_url,
            None,
            target,
            outdir,
            input,
        ).insert(3, "--infilter="@ + f));
    }
}

} // verus!
