//! The registry of converters, keyed by (input format, output format).
//! Context-menu entries, listings and the format picker all derive from it.

use vstd::prelude::*;

use crate::converter::{
    spec_backend_available, Backend, BitmapToSvg, ConverterEntry, LibreOfficeConverter,
    MarkdownToPdf, PdfToMarkdown, RasterConverter,
};
use crate::format::{format_at, lemma_rank_format_at, rank, spec_is_raster, Format, RASTERS};

verus! {

/// Position of a format pair in (from, to) order.
pub open spec fn slot(from: Format, to: Format) -> int {
    rank(from) * 9 + rank(to)
}

/// Pairs listed in strictly increasing (from, to) order, hence without
/// repetition.
pub open spec fn pairs_sorted(s: Seq<(Format, Format)>) -> bool {
    forall|i: int, j: int|
        0 <= i < j < s.len() ==> slot(s[i].0, s[i].1) < slot(s[j].0, s[j].1)
}

/// Formats listed in strictly increasing order, hence without repetition.
pub open spec fn formats_sorted(s: Seq<Format>) -> bool {
    forall|i: int, j: int| 0 <= i < j < s.len() ==> rank(s[i]) < rank(s[j])
}

/// The converters Boinc registers out of the box: every raster pair, every
/// raster to SVG, DOCX ↔ PDF, and Markdown ↔ PDF.
pub open spec fn default_backend(from: Format, to: Format) -> Option<Backend> {
    if spec_is_raster(from) && to == Format::Svg {
        Some(Backend::Vector)
    } else if spec_is_raster(from) && spec_is_raster(to) && from != to {
        Some(Backend::Raster)
    } else if (from == Format::Docx && to == Format::Pdf) || (from == Format::Pdf && to
        == Format::Docx) {
        Some(Backend::LibreOffice)
    } else if from == Format::Md && to == Format::Pdf {
        Some(Backend::MarkdownToPdf)
    } else if from == Format::Pdf && to == Format::Md {
        Some(Backend::PdfToMarkdown)
    } else {
        None
    }
}

/// Registry of converters keyed by (input, output) format pair; registering
/// a pair again replaces its converter.
pub struct ConverterRegistry {
    /// One slot per (from, to) pair, at position `slot(from, to)`.
    slots: Vec<Option<Backend>>,
}

impl View for ConverterRegistry {
    type V = Map<(Format, Format), Backend>;

    closed spec fn view(&self) -> Map<(Format, Format), Backend> {
        Map::new(
            |p: (Format, Format)| self.slots@[slot(p.0, p.1)] is Some,
            |p: (Format, Format)| self.slots@[slot(p.0, p.1)]->Some_0,
        )
    }
}

impl ConverterRegistry {
    /// Well-formed: one slot per format pair.
    pub closed spec fn wf(&self) -> bool {
        self.slots@.len() == 81
    }

    proof fn lemma_view(self)
        requires
            self.slots@.len() == 81,
        ensures
            forall|f: Format, t: Format|
                #![trigger self@.contains_key((f, t))]
                self@.contains_key((f, t)) == (self.slots@[slot(f, t)] is Some),
            forall|f: Format, t: Format|
                self@.contains_key((f, t)) ==> #[trigger] self@[(f, t)]
                    == self.slots@[slot(f, t)]->Some_0,
    {
    }

    /// An empty registry.
    pub fn new() -> (r: Self)
        ensures
            r.wf(),
            r@ == Map::<(Format, Format), Backend>::empty(),
    {
        let mut slots: Vec<Option<Backend>> = Vec::new();
        for i in 0..81usize
            invariant
                slots@.len() == i,
                forall|j: int| 0 <= j < i ==> slots@[j] is None,
        {
            slots.push(None);
        }
        let r = ConverterRegistry { slots };
        assert(r@ =~= Map::<(Format, Format), Backend>::empty());
        r
    }

    /// Register a converter, replacing any existing one for the same pair.
    pub fn register(&mut self, entry: ConverterEntry)
        requires
            old(self).wf(),
        ensures
            final(self).wf(),
            final(self)@ == old(self)@.insert((entry.from, entry.to), entry.backend),
    {
        proof {
            lemma_rank_format_at();
        }
        let idx = (entry.from.rank() as usize) * 9 + entry.to.rank() as usize;
        self.slots.set(idx, Some(entry.backend));
        proof {
            assert forall|p: (Format, Format)| #![auto]
                slot(p.0, p.1) == idx as int <==> p == (entry.from, entry.to) by {
                lemma_rank_format_at();
            }
        }
        assert(self@ =~= old(self)@.insert((entry.from, entry.to), entry.backend));
    }

    /// The converter for a format pair, if registered.
    pub fn get(&self, from: Format, to: Format) -> (r: Option<Backend>)
        requires
            self.wf(),
        ensures
            r == (if self@.contains_key((from, to)) {
                Some(self@[(from, to)])
            } else {
                None
            }),
    {
        proof {
            lemma_rank_format_at();
        }
        let idx = (from.rank() as usize) * 9 + to.rank() as usize;
        self.slots[idx]
    }

    /// Target formats reachable from `from` with converters that are available
    /// on this machine (given whether `soffice` was found), in format order.
    pub fn available_targets(&self, from: Format, soffice_found: bool) -> (v: Vec<Format>)
        requires
            self.wf(),
        ensures
            formats_sorted(v@),
            forall|t: Format|
                v@.contains(t) <==> self@.contains_key((from, t)) && spec_backend_available(
                    self@[(from, t)],
                    soffice_found,
                ),
    {
        proof {
            lemma_rank_format_at();
        }
        let mut v: Vec<Format> = Vec::new();
        let base = (from.rank() as usize) * 9;
        for t in 0..9u8
            invariant
                self.slots@.len() == 81,
                base == rank(from) * 9,
                formats_sorted(v@),
                forall|k: int| 0 <= k < v@.len() ==> rank(#[trigger] v@[k]) < t,
                forall|g: Format|
                    v@.contains(g) <==> rank(g) < t && self.slots@[slot(from, g)] is Some
                        && spec_backend_available(
                        self.slots@[slot(from, g)]->Some_0,
                        soffice_found,
                    ),
        {
            match self.slots[base + t as usize] {
                Some(b) => {
                    if b.is_available(soffice_found) {
                        let g = Format::from_rank(t);
                        let ghost old_v = v@;
                        v.push(g);
                        assert forall|h: Format|
                            v@.contains(h) <==> rank(h) < t + 1 && self.slots@[slot(from, h)]
                                is Some && spec_backend_available(
                                self.slots@[slot(from, h)]->Some_0,
                                soffice_found,
                            ) by {
                            if h == g {
                                assert(v@[v@.len() - 1] == g);
                            }
                            if v@.contains(h) && h != g {
                                assert(old_v.contains(h));
                            }
                            if rank(h) < t {
                                if old_v.contains(h) {
                                    let k = choose|k: int| 0 <= k < old_v.len() && old_v[k] == h;
                                    assert(v@[k] == h);
                                }
                            }
                        }
                    }
                },
                None => {},
            }
        }
        proof {
            self.lemma_view();
        }
        v
    }

    /// All registered (from, to) pairs, including currently unavailable ones,
    /// in (from, to) order.
    pub fn pairs(&self) -> (v: Vec<(Format, Format)>)
        requires
            self.wf(),
        ensures
            pairs_sorted(v@),
            forall|p: (Format, Format)| v@.contains(p) <==> self@.contains_key(p),
    {
        proof {
            lemma_rank_format_at();
        }
        let mut v: Vec<(Format, Format)> = Vec::new();
        for i in 0..81usize
            invariant
                self.slots@.len() == 81,
                pairs_sorted(v@),
                forall|k: int| 0 <= k < v@.len() ==> slot(#[trigger] v@[k].0, v@[k].1) < i,
                forall|p: (Format, Format)|
                    v@.contains(p) <==> slot(p.0, p.1) < i && self.slots@[slot(p.0, p.1)] is Some,
        {
            if self.slots[i].is_some() {
                let f = Format::from_rank((i / 9) as u8);
                let t = Format::from_rank((i % 9) as u8);
                let ghost old_v = v@;
                v.push((f, t));
                assert(slot(f, t) == i);
                assert forall|p: (Format, Format)|
                    v@.contains(p) <==> slot(p.0, p.1) < i + 1 && self.slots@[slot(p.0, p.1)]
                        is Some by {
                    if p == (f, t) {
                        assert(v@[v@.len() - 1] == p);
                    }
                    if slot(p.0, p.1) == i {
                        assert(p == (f, t));
                    }
                    if v@.contains(p) && p != (f, t) {
                        assert(old_v.contains(p));
                    }
                    if slot(p.0, p.1) < i && old_v.contains(p) {
                        let k = choose|k: int| 0 <= k < old_v.len() && old_v[k] == p;
                        assert(v@[k] == p);
                    }
                }
            }
        }
        proof {
            self.lemma_view();
        }
        v
    }

    /// A registry with all built-in converters: the single place a new
    /// built-in converter is added.
    pub fn with_defaults() -> (r: Self)
        ensures
            r.wf(),
            forall|f: Format, t: Format|
                #![trigger r@.contains_key((f, t))]
                r@.contains_key((f, t)) == (default_backend(f, t) is Some),
            forall|f: Format, t: Format|
                r@.contains_key((f, t)) ==> #[trigger] r@[(f, t)] == default_backend(f, t)->Some_0,
    {
        let mut registry = Self::new();
        // Every raster pair and every raster → SVG.
        for i in 0..5usize
            invariant
                registry.wf(),
                forall|f: Format, t: Format|
                    #![trigger registry@.contains_key((f, t))]
                    registry@.contains_key((f, t)) == (rank(f) < i && default_backend(f, t) is Some),
                forall|f: Format, t: Format|
                    registry@.contains_key((f, t)) ==> #[trigger] registry@[(f, t)]
                        == default_backend(f, t)->Some_0,
        {
            let from = RASTERS[i];
            assert(rank(from) == i);
            registry.register(BitmapToSvg::new(from).entry());
            for j in 0..5usize
                invariant
                    registry.wf(),
                    0 <= i < 5,
                    from == RASTERS[i as int],
                    rank(from) == i,
                    spec_is_raster(from),
                    forall|f: Format, t: Format|
                        #![trigger registry@.contains_key((f, t))]
                        registry@.contains_key((f, t)) == ((rank(f) < i && default_backend(f, t) is Some)
                            || (f == from && (t == Format::Svg || (rank(t) < j && spec_is_raster(t) && t != from)))),
                    forall|f: Format, t: Format|
                        registry@.contains_key((f, t)) ==> #[trigger] registry@[(f, t)]
                            == default_backend(f, t)->Some_0,
            {
                let to = RASTERS[j];
                assert(rank(to) == j);
                if from != to {
                    registry.register(RasterConverter::new(from, to).entry());
                }
            }
        }
        registry.register(LibreOfficeConverter::docx_to_pdf().entry());
        registry.register(LibreOfficeConverter::pdf_to_docx().entry());
        registry.register(MarkdownToPdf.entry());
        registry.register(PdfToMarkdown.entry());
        registry
    }
}

} // verus!
