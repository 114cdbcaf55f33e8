//! Context-menu entries derived from the converter registry, and the
//! per-platform type identifiers each entry needs.

use vstd::prelude::*;

use crate::converter::spec_backend_available;
use crate::format::{rank, spec_display_name, spec_extension, Format};
use crate::registry::{pairs_sorted, slot, ConverterRegistry};
use crate::text::owned;

verus! {

/// One "Convert to X" context-menu entry for files of format `from`.
#[derive(Debug, Clone, Copy, PartialEq, Eq, Structural)]
pub struct MenuEntry {
    pub from: Format,
    pub to: Format,
}

/// The pair an entry converts.
pub open spec fn entry_pair(e: MenuEntry) -> (Format, Format) {
    (e.from, e.to)
}

impl MenuEntry {
    /// Menu label, e.g. "Convert to JPG".
    pub fn label(&self) -> (s: String)
        ensures
            s@ == "Convert to "@ + spec_display_name(self.to),
    {
        let mut s = owned("Convert to ");
        s.append(self.to.display_name());
        s
    }

    /// Stable identifier used in file names, registry keys and action ids,
    /// e.g. "png-to-jpg".
    pub fn id(&self) -> (s: String)
        ensures
            s@ == spec_extension(self.from) + "-to-"@ + spec_extension(self.to),
    {
        let mut s = owned(self.from.extension());
        s.append("-to-");
        s.append(self.to.extension());
        s
    }
}

/// Entries for every conversion available on this machine right now (given
/// whether `soffice` was found), in (from, to) order.
pub fn menu_entries(registry: &ConverterRegistry, soffice_found: bool) -> (v: Vec<MenuEntry>)
    requires
        registry.wf(),
    ensures
        pairs_sorted(v@.map_values(|e: MenuEntry| entry_pair(e))),
        forall|e: MenuEntry|
            v@.contains(e) <==> registry@.contains_key((e.from, e.to)) && spec_backend_available(
                registry@[(e.from, e.to)],
                soffice_found,
            ),
{
    let pairs = registry.pairs();
    let mut v: Vec<MenuEntry> = Vec::new();
    let n = pairs.len();
    for i in 0..n
        invariant
            n == pairs@.len(),
            registry.wf(),
            pairs_sorted(pairs@),
            forall|p: (Format, Format)| pairs@.contains(p) <==> registry@.contains_key(p),
            pairs_sorted(v@.map_values(|e: MenuEntry| entry_pair(e))),
            forall|k: int, j: int|
                0 <= k < v@.len() && i <= j < n ==> slot(#[trigger] v@[k].from, v@[k].to) < slot(
                    #[trigger] pairs@[j].0,
                    pairs@[j].1,
                ),
            forall|e: MenuEntry|
                v@.contains(e) <==> (exists|j: int| 0 <= j < i && pairs@[j] == (e.from, e.to))
                    && registry@.contains_key((e.from, e.to)) && spec_backend_available(
                    registry@[(e.from, e.to)],
                    soffice_found,
                ),
    {
        let (from, to) = pairs[i];
        assert(pairs@.contains((from, to)));
        match registry.get(from, to) {
            Some(b) => {
                if b.is_available(soffice_found) {
                    let ghost old_v = v@;
                    let e = MenuEntry { from, to };
                    v.push(e);
                    assert(v@.map_values(|e: MenuEntry| entry_pair(e)) =~= old_v.map_values(
                        |e: MenuEntry| entry_pair(e),
                    ).push((from, to)));
                    assert forall|f: MenuEntry|
                        v@.contains(f) <==> (exists|j: int| 0 <= j < i + 1 && pairs@[j] == (f.from, f.to))
                            && registry@.contains_key((f.from, f.to)) && spec_backend_available(
                            registry@[(f.from, f.to)],
                            soffice_found,
                        ) by {
                        if f == e {
                            assert(v@[v@.len() - 1] == e);
                            assert(pairs@[i as int] == (f.from, f.to));
                        } else {
                            if v@.contains(f) {
                                let k = choose|k: int| 0 <= k < v@.len() && v@[k] == f;
                                assert(old_v[k] == f);
                            }
                            if old_v.contains(f) {
                                let k = choose|k: int| 0 <= k < old_v.len() && old_v[k] == f;
                                assert(v@[k] == f);
                            }
                            if exists|j: int| 0 <= j < i + 1 && pairs@[j] == (f.from, f.to) {
                                let j = choose|j: int| 0 <= j < i + 1 && pairs@[j] == (f.from, f.to);
                                if j == i {
                                    assert(f.from == from && f.to == to);
                                }
                            }
                        }
                    }
                    assert forall|k: int, j: int|
                        0 <= k < v@.len() && i + 1 <= j < n implies slot(
                            #[trigger] v@[k].from,
                            v@[k].to,
                        ) < slot(#[trigger] pairs@[j].0, pairs@[j].1) by {
                        if k < old_v.len() {
                            assert(v@[k] == old_v[k]);
                        } else {
                            assert(v@[k] == e);
                        }
                    }
                } else {
                    assert forall|f: MenuEntry|
                        v@.contains(f) <==> (exists|j: int| 0 <= j < i + 1 && pairs@[j] == (f.from, f.to))
                            && registry@.contains_key((f.from, f.to)) && spec_backend_available(
                            registry@[(f.from, f.to)],
                            soffice_found,
                        ) by {
                        if exists|j: int| 0 <= j < i + 1 && pairs@[j] == (f.from, f.to) {
                            let j = choose|j: int| 0 <= j < i + 1 && pairs@[j] == (f.from, f.to);
                            if j == i {
                                assert(f.from == from && f.to == to);
                            }
                        }
                    }
                }
            },
            None => {
                assert forall|f: MenuEntry|
                    v@.contains(f) <==> (exists|j: int| 0 <= j < i + 1 && pairs@[j] == (f.from, f.to))
                        && registry@.contains_key((f.from, f.to)) && spec_backend_available(
                        registry@[(f.from, f.to)],
                        soffice_found,
                    ) by {
                    if exists|j: int| 0 <= j < i + 1 && pairs@[j] == (f.from, f.to) {
                        let j = choose|j: int| 0 <= j < i + 1 && pairs@[j] == (f.from, f.to);
                        if j == i {
                            assert(f.from == from && f.to == to);
                        }
                    }
                }
            },
        }
    }
    assert forall|e: MenuEntry|
        v@.contains(e) <==> registry@.contains_key((e.from, e.to)) && spec_backend_available(
            registry@[(e.from, e.to)],
            soffice_found,
        ) by {
        if registry@.contains_key((e.from, e.to)) {
            assert(pairs@.contains((e.from, e.to)));
            let j = choose|j: int| 0 <= j < pairs@.len() && pairs@[j] == (e.from, e.to);
            assert(pairs@[j] == (e.from, e.to));
        }
    }
    v
}

/// The entries of `s` whose source format is `f`, in order.
pub open spec fn entries_from(s: Seq<MenuEntry>, f: Format) -> Seq<MenuEntry>
    decreases s.len(),
{
    if s.len() == 0 {
        seq![]
    } else if s.last().from == f {
        entries_from(s.drop_last(), f).push(s.last())
    } else {
        entries_from(s.drop_last(), f)
    }
}

/// Entries grouped by source format: one group per format that has entries,
/// in format order, each holding that format's entries in their order.
pub fn group_by_source(entries: &Vec<MenuEntry>) -> (groups: Vec<(Format, Vec<MenuEntry>)>)
    ensures
        forall|i: int, j: int| 0 <= i < j < groups@.len() ==> rank(groups@[i].0) < rank(groups@[j].0),
        forall|i: int|
            0 <= i < groups@.len() ==> #[trigger] groups@[i].1@ == entries_from(entries@, groups@[i].0)
                && groups@[i].1@.len() > 0,
        forall|k: int|
            0 <= k < entries@.len() ==> exists|i: int|
                0 <= i < groups@.len() && groups@[i].0 == #[trigger] entries@[k].from,
{
    let mut groups: Vec<(Format, Vec<MenuEntry>)> = Vec::new();
    let n = entries.len();
    proof {
        crate::format::lemma_rank_format_at();
    }
    for r in 0..9u8
        invariant
            n == entries@.len(),
            forall|i: int, j: int| 0 <= i < j < groups@.len() ==> rank(groups@[i].0) < rank(groups@[j].0),
            forall|i: int| 0 <= i < groups@.len() ==> rank(#[trigger] groups@[i].0) < r,
            forall|i: int|
                0 <= i < groups@.len() ==> #[trigger] groups@[i].1@ == entries_from(entries@, groups@[i].0)
                    && groups@[i].1@.len() > 0,
            forall|k: int|
                0 <= k < entries@.len() && rank(entries@[k].from) < r ==> exists|i: int|
                    0 <= i < groups@.len() && groups@[i].0 == #[trigger] entries@[k].from,
    {
        let f = Format::from_rank(r);
        let mut group: Vec<MenuEntry> = Vec::new();
        for k in 0..n
            invariant
                n == entries@.len(),
                group@ == entries_from(entries@.take(k as int), f),
                forall|m: int| 0 <= m < k && entries@[m].from == f ==> group@.len() > 0,
        {
            if entries[k].from == f {
                group.push(entries[k]);
            }
            assert(entries@.take(k + 1).drop_last() =~= entries@.take(k as int));
        }
        assert(entries@.take(n as int) =~= entries@);
        if group.len() > 0 {
            let ghost old_g = groups@;
            groups.push((f, group));
            assert forall|k: int|
                0 <= k < entries@.len() && rank(entries@[k].from) < r + 1 implies exists|i: int|
                0 <= i < groups@.len() && groups@[i].0 == #[trigger] entries@[k].from by {
                if rank(entries@[k].from) == r {
                    assert(entries@[k].from == f);
                    assert(groups@[groups@.len() - 1].0 == f);
                } else {
                    let i = choose|i: int| 0 <= i < old_g.len() && old_g[i].0 == #[trigger] entries@[k].from;
                    assert(groups@[i] == old_g[i]);
                }
            }
        } else {
            assert forall|k: int|
                0 <= k < entries@.len() && rank(entries@[k].from) < r + 1 implies exists|i: int|
                0 <= i < groups@.len() && groups@[i].0 == #[trigger] entries@[k].from by {
                if rank(entries@[k].from) == r {
                    assert(entries@[k].from == f);
                }
            }
        }
    }
    assert forall|k: int| 0 <= k < entries@.len() implies exists|i: int|
        0 <= i < groups@.len() && groups@[i].0 == #[trigger] entries@[k].from by {
        assert(rank(entries@[k].from) < 9);
    }
    groups
}

/// XDG MIME type (Linux service menus).
pub open spec fn spec_mime_type(f: Format) -> Seq<char> {
    match f {
        Format::Png => "image/png"@,
        Format::Jpg => "image/jpeg"@,
        Format::Bmp => "image/bmp"@,
        Format::Gif => "image/gif"@,
        Format::WebP => "image/webp"@,
        Format::Svg => "image/svg+xml"@,
        Format::Pdf => "application/pdf"@,
        Format::Docx => "application/vnd.openxmlformats-officedocument.wordprocessingml.document"@,
        Format::Md => "text/markdown"@,
    }
}

/// XDG MIME type (Linux service menus).
pub fn mime_type(format: Format) -> (m: &'static str)
    ensures
        m@ == spec_mime_type(format),
{
    match format {
        Format::Png => "image/png",
        Format::Jpg => "image/jpeg",
        Format::Bmp => "image/bmp",
        Format::Gif => "image/gif",
        Format::WebP => "image/webp",
        Format::Svg => "image/svg+xml",
        Format::Pdf => "application/pdf",
        Format::Docx => "application/vnd.openxmlformats-officedocument.wordprocessingml.document",
        Format::Md => "text/markdown",
    }
}

/// File extensions (with dot) that select a format on Windows.
pub open spec fn spec_windows_extensions(f: Format) -> Seq<Seq<char>> {
    match f {
        Format::Png => seq![".png"@],
        Format::Jpg => seq![".jpg"@, ".jpeg"@],
        Format::Bmp => seq![".bmp"@],
        Format::Gif => seq![".gif"@],
        Format::WebP => seq![".webp"@],
        Format::Svg => seq![".svg"@],
        Format::Pdf => seq![".pdf"@],
        Format::Docx => seq![".docx"@],
        Format::Md => seq![".md"@, ".markdown"@],
    }
}

/// File extensions (with dot) that select a format on Windows.
pub fn windows_extensions(format: Format) -> (v: Vec<&'static str>)
    ensures
        v@.map_values(|s: &str| s@) == spec_windows_extensions(format),
{
    let v = match format {
        Format::Png => vec![".png"],
        Format::Jpg => vec![".jpg", ".jpeg"],
        Format::Bmp => vec![".bmp"],
        Format::Gif => vec![".gif"],
        Format::WebP => vec![".webp"],
        Format::Svg => vec![".svg"],
        Format::Pdf => vec![".pdf"],
        Format::Docx => vec![".docx"],
        Format::Md => vec![".md", ".markdown"],
    };
    assert(v@.map_values(|s: &str| s@) =~= spec_windows_extensions(format));
    v
}

/// Uniform Type Identifier (macOS Quick Actions).
pub open spec fn spec_uti(f: Format) -> Seq<char> {
    match f {
        Format::Png => "public.png"@,
        Format::Jpg => "public.jpeg"@,
        Format::Bmp => "com.microsoft.bmp"@,
        Format::Gif => "com.compuserve.gif"@,
        Format::WebP => "org.webmproject.webp"@,
        Format::Svg => "public.svg-image"@,
        Format::Pdf => "com.adobe.pdf"@,
        Format::Docx => "org.openxmlformats.wordprocessingml.document"@,
        Format::Md => "net.daringfireball.markdown"@,
    }
}

/// Uniform Type Identifier (macOS Quick Actions).
pub fn uti(format: Format) -> (u: &'static str)
    ensures
        u@ == spec_uti(format),
{
    match format {
        Format::Png => "public.png",
        Format::Jpg => "public.jpeg",
        Format::Bmp => "com.microsoft.bmp",
        Format::Gif => "com.compuserve.gif",
        Format::WebP => "org.webmproject.webp",
        Format::Svg => "public.svg-image",
        Format::Pdf => "com.adobe.pdf",
        Format::Docx => "org.openxmlformats.wordprocessingml.document",
        Format::Md => "net.daringfireball.markdown",
    }
}

} // verus!
