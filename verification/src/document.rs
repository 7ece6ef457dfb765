//! The open document: its rendered lines, scrolling, the heading index and
//! in-document search.

use crate::blocks::{block_view, BlockView, RenderedBlock};
use crate::renderer::{decimal, decimal_string, LinkInfo};
use crate::style::{line_text, spans_view, Span};
use crate::text::{
    char_lowercase, chars_of, concat, contains_seq, contains_vec, lit, lowercase_char, lowercase_str, push_str,
    sat_sub, str_lowercase,
};
use crate::wrap::lines_view;
use vstd::prelude::*;

verus! {

/// Lines kept above a line scrolled to.
pub const SCROLL_PADDING: usize = 2;

/// State of the open document and its viewport.
pub struct DocumentState {
    /// Path of the open file, if any.
    pub current_file: Option<String>,
    /// Text of the open file.
    pub file_content: String,
    /// Rendered lines at the current width.
    pub rendered_lines: Vec<Vec<Span>>,
    /// Lower-cased text of each rendered line.
    pub rendered_lines_lower: Vec<String>,
    /// First visible line.
    pub scroll_offset: usize,
    /// Height of the viewport in lines.
    pub viewport_height: usize,
    /// Width of the viewport in columns.
    pub viewport_width: usize,
    /// Width-independent blocks of the document.
    pub rendered_blocks: Vec<RenderedBlock>,
    /// Links of the document.
    pub links: Vec<LinkInfo>,
    /// First line of each heading.
    pub heading_line_offsets: Vec<usize>,
    /// First line of each block.
    pub block_line_starts: Vec<usize>,
}

/// The furthest the document can scroll: its length less one viewport.
pub open spec fn max_scroll_spec(d: DocumentState) -> nat {
    sat_sub(d.rendered_lines@.len(), d.viewport_height as nat)
}

/// `o` limited to the furthest scroll position.
pub open spec fn clamped(d: DocumentState, o: nat) -> nat {
    if o > max_scroll_spec(d) {
        max_scroll_spec(d)
    } else {
        o
    }
}

/// Addition that stops at `usize::MAX`.
pub open spec fn sat_add_usize(a: usize, b: usize) -> nat {
    if a + b > usize::MAX {
        usize::MAX as nat
    } else {
        (a + b) as nat
    }
}

/// Half a viewport, at least one line.
pub open spec fn half_page(d: DocumentState) -> nat {
    if d.viewport_height / 2 >= 1 {
        (d.viewport_height / 2) as nat
    } else {
        1
    }
}

/// The document with only its scroll offset changed.
pub open spec fn scrolled(a: DocumentState, b: DocumentState) -> bool {
    &&& b.current_file == a.current_file
    &&& b.file_content == a.file_content
    &&& b.rendered_lines == a.rendered_lines
    &&& b.rendered_lines_lower == a.rendered_lines_lower
    &&& b.viewport_height == a.viewport_height
    &&& b.viewport_width == a.viewport_width
    &&& b.rendered_blocks == a.rendered_blocks
    &&& b.links == a.links
    &&& b.heading_line_offsets == a.heading_line_offsets
    &&& b.block_line_starts == a.block_line_starts
}

/// Jumping to the next heading: the first heading below the line two under
/// the top is placed two lines under the top (as far as the document
/// scrolls); without one nothing moves.
pub open spec fn next_heading_post(a: DocumentState, b: DocumentState) -> bool {
    let hs = a.heading_line_offsets@;
    let pos = a.scroll_offset + SCROLL_PADDING;
    &&& scrolled(a, b)
    &&& if exists|i: int| 0 <= i < hs.len() && hs[i] > pos {
        exists|i: int| {
            &&& 0 <= i < hs.len()
            &&& hs[i] > pos
            &&& (forall|j: int| 0 <= j < i ==> hs[j] <= pos)
            &&& b.scroll_offset == clamped(a, sat_sub(hs[i] as nat, SCROLL_PADDING as nat))
        }
    } else {
        b.scroll_offset == a.scroll_offset
    }
}

/// Jumping to the previous heading: the last heading above the line two
/// under the top is placed two lines under the top; without one nothing
/// moves.
pub open spec fn prev_heading_post(a: DocumentState, b: DocumentState) -> bool {
    let hs = a.heading_line_offsets@;
    let pos = a.scroll_offset + SCROLL_PADDING;
    &&& scrolled(a, b)
    &&& if exists|i: int| 0 <= i < hs.len() && hs[i] < pos {
        exists|i: int| {
            &&& 0 <= i < hs.len()
            &&& hs[i] < pos
            &&& (forall|j: int| i < j < hs.len() ==> hs[j] >= pos)
            &&& b.scroll_offset == clamped(a, sat_sub(hs[i] as nat, SCROLL_PADDING as nat))
        }
    } else {
        b.scroll_offset == a.scroll_offset
    }
}

/// `b` is `a` with no document open: no file, no text, no lines, blocks,
/// links or headings, back at the top, in the same viewport.
pub open spec fn cleared(a: DocumentState, b: DocumentState) -> bool {
    &&& b.current_file is None
    &&& b.file_content@.len() == 0
    &&& b.rendered_lines@.len() == 0
    &&& b.rendered_lines_lower@.len() == 0
    &&& b.rendered_blocks@.len() == 0
    &&& b.links@.len() == 0
    &&& b.heading_line_offsets@.len() == 0
    &&& b.block_line_starts@.len() == 0
    &&& b.scroll_offset == 0
    &&& b.viewport_height == a.viewport_height
    &&& b.viewport_width == a.viewport_width
}

/// The lines at which headings start: the start of each heading block.
pub open spec fn heading_starts(blocks: Seq<BlockView>, starts: Seq<usize>) -> Seq<usize>
    decreases starts.len(),
{
    if starts.len() == 0 {
        Seq::empty()
    } else {
        let prev = heading_starts(blocks, starts.drop_last());
        let i = starts.len() - 1;
        match blocks[i] {
            BlockView::StyledLine { heading_level: Some(_), .. } => prev.push(starts.last()),
            _ => prev,
        }
    }
}

/// The lower-cased text of a line (`str::to_lowercase`).
pub open spec fn lower_line(l: Vec<Span>) -> Seq<char> {
    str_lowercase(line_text(spans_view(l@)))
}

/// A text lower-cased character by character.
pub open spec fn chars_lower(s: Seq<char>) -> Seq<char>
    decreases s.len(),
{
    if s.len() == 0 {
        Seq::empty()
    } else {
        chars_lower(s.drop_last()) + char_lowercase(s.last())
    }
}

/// The text of a line of spans.
pub fn line_string(l: &Vec<Span>) -> (r: String)
    ensures
        r@ == line_text(spans_view(l@)),
{
    let mut s = String::new();
    let mut i: usize = 0;
    while i < l.len()
        invariant
            i <= l.len(),
            s@ == line_text(spans_view(l@.take(i as int))),
        decreases l.len() - i,
    {
        assert(spans_view(l@.take(i + 1)).drop_last() =~= spans_view(l@.take(i as int)));
        push_str(&mut s, l[i].content.as_str());
        i = i + 1;
    }
    assert(l@.take(l.len() as int) =~= l@);
    s
}

/// `s` lower-cased character by character.
pub fn lower_chars(s: &str) -> (r: Vec<char>)
    ensures
        r@ == chars_lower(s@),
{
    let cs = chars_of(s);
    let mut out: Vec<char> = Vec::new();
    let mut i: usize = 0;
    while i < cs.len()
        invariant
            i <= cs.len(),
            cs@ == s@,
            out@ == chars_lower(s@.take(i as int)),
        decreases cs.len() - i,
    {
        assert(s@.take(i + 1).drop_last() =~= s@.take(i as int));
        let lc = lowercase_char(cs[i]);
        let mut j: usize = 0;
        let ghost base = out@;
        while j < lc.len()
            invariant
                j <= lc.len(),
                out@ == base + lc@.take(j as int),
            decreases lc.len() - j,
        {
            out.push(lc[j]);
            j = j + 1;
            assert(out@ =~= base + lc@.take(j as int));
        }
        assert(lc@.take(lc.len() as int) =~= lc@);
        i = i + 1;
    }
    assert(s@.take(cs.len() as int) =~= s@);
    out
}

/// The status line of a search positioned on match `k` (from 1) of `n`.
pub open spec fn match_status(query: Seq<char>, k: nat, n: nat) -> Seq<char> {
    "/"@ + query + " ["@ + decimal(k) + "/"@ + decimal(n) + "]"@
}

/// The status line of a search that found nothing.
pub open spec fn not_found_status(query: Seq<char>) -> Seq<char> {
    "Pattern not found: "@ + query
}

/// The lines whose text, lower-cased, contains the lower-cased query.
pub open spec fn is_match_line(d: DocumentState, query: Seq<char>, i: int) -> bool {
    contains_seq(chars_lower(line_text(spans_view(d.rendered_lines@[i]@))), str_lowercase(query))
}

/// Search state (file search and in-document search).
pub struct SearchState {
    pub active: bool,
    pub query: String,
    pub matches: Vec<usize>,
    pub current: usize,
}

impl SearchState {
    /// No search.
    pub fn new() -> (r: Self)
        ensures
            !r.active,
            r.query@.len() == 0,
            r.matches@.len() == 0,
            r.current == 0,
    {
        SearchState { active: false, query: String::new(), matches: Vec::new(), current: 0 }
    }

    /// The matches are increasing line numbers of the document, and the
    /// current match is one of them.
    pub open spec fn wf(&self, d: DocumentState) -> bool {
        &&& forall|i: int, j: int| 0 <= i < j < self.matches@.len() ==> self.matches@[i] < self.matches@[j]
        &&& forall|i: int| 0 <= i < self.matches@.len() ==> self.matches@[i] < d.rendered_lines@.len()
        &&& (self.matches@.len() > 0 ==> self.current < self.matches@.len())
    }
}

/// The status line of the current match.
fn match_status_string(query: &String, k: usize, n: usize) -> (r: String)
    ensures
        r@ == match_status(query@, k as nat, n as nat),
{
    let mut s = lit("/");
    push_str(&mut s, query.as_str());
    push_str(&mut s, " [");
    let a = decimal_string(k as u64);
    push_str(&mut s, a.as_str());
    push_str(&mut s, "/");
    let b = decimal_string(n as u64);
    push_str(&mut s, b.as_str());
    push_str(&mut s, "]");
    s
}

impl DocumentState {
    /// An empty document in a viewport of the given size.
    pub fn new(viewport_width: usize, viewport_height: usize) -> (r: Self)
        ensures
            r.current_file is None,
            r.file_content@.len() == 0,
            r.rendered_lines@.len() == 0,
            r.rendered_lines_lower@.len() == 0,
            r.rendered_blocks@.len() == 0,
            r.links@.len() == 0,
            r.heading_line_offsets@.len() == 0,
            r.block_line_starts@.len() == 0,
            r.scroll_offset == 0,
            r.viewport_width == viewport_width,
            r.viewport_height == viewport_height,
    {
        DocumentState {
            current_file: None,
            file_content: String::new(),
            rendered_lines: Vec::new(),
            rendered_lines_lower: Vec::new(),
            scroll_offset: 0,
            viewport_height,
            viewport_width,
            rendered_blocks: Vec::new(),
            links: Vec::new(),
            heading_line_offsets: Vec::new(),
            block_line_starts: Vec::new(),
        }
    }

    /// The furthest scroll position.
    pub fn max_scroll(&self) -> (r: usize)
        ensures
            r == max_scroll_spec(*self),
    {
        self.rendered_lines.len().saturating_sub(self.viewport_height)
    }

    /// Brings the scroll offset back within the document.
    pub fn clamp_scroll(&mut self)
        ensures
            scrolled(*old(self), *final(self)),
            final(self).scroll_offset == clamped(*old(self), old(self).scroll_offset as nat),
    {
        let m = self.max_scroll();
        if self.scroll_offset > m {
            self.scroll_offset = m;
        }
    }

    /// One line down, within the document; nothing in an empty document.
    pub fn scroll_down(&mut self)
        ensures
            scrolled(*old(self), *final(self)),
            final(self).scroll_offset == if old(self).rendered_lines@.len() == 0 {
                old(self).scroll_offset as nat
            } else {
                clamped(*old(self), sat_add_usize(old(self).scroll_offset, 1))
            },
    {
        if self.rendered_lines.len() > 0 {
            self.scroll_offset = self.scroll_offset.saturating_add(1);
            self.clamp_scroll();
        }
    }

    /// One line up, stopping at the top.
    pub fn scroll_up(&mut self)
        ensures
            scrolled(*old(self), *final(self)),
            final(self).scroll_offset == sat_sub(old(self).scroll_offset as nat, 1),
    {
        self.scroll_offset = self.scroll_offset.saturating_sub(1);
    }

    /// To the top.
    pub fn scroll_to_top(&mut self)
        ensures
            scrolled(*old(self), *final(self)),
            final(self).scroll_offset == 0,
    {
        self.scroll_offset = 0;
    }

    /// To the furthest position.
    pub fn scroll_to_bottom(&mut self)
        ensures
            scrolled(*old(self), *final(self)),
            final(self).scroll_offset == max_scroll_spec(*old(self)),
    {
        self.scroll_offset = self.max_scroll();
    }

    /// Half a viewport (at least a line) down, within the document.
    pub fn scroll_half_page_down(&mut self)
        ensures
            scrolled(*old(self), *final(self)),
            final(self).scroll_offset == clamped(
                *old(self),
                sat_add_usize(old(self).scroll_offset, half_page(*old(self)) as usize),
            ),
    {
        let half = self.viewport_height / 2;
        let step = if half >= 1 { half } else { 1 };
        self.scroll_offset = self.scroll_offset.saturating_add(step);
        self.clamp_scroll();
    }

    /// Half a viewport (at least a line) up, stopping at the top.
    pub fn scroll_half_page_up(&mut self)
        ensures
            scrolled(*old(self), *final(self)),
            final(self).scroll_offset == sat_sub(old(self).scroll_offset as nat, half_page(*old(self))),
    {
        let half = self.viewport_height / 2;
        let step = if half >= 1 { half } else { 1 };
        self.scroll_offset = self.scroll_offset.saturating_sub(step);
    }

    /// Scrolls so that `line` shows two lines below the top, within the
    /// document.
    pub fn scroll_to_line(&mut self, line: usize)
        ensures
            scrolled(*old(self), *final(self)),
            final(self).scroll_offset == clamped(*old(self), sat_sub(line as nat, SCROLL_PADDING as nat)),
    {
        self.scroll_offset = line.saturating_sub(SCROLL_PADDING);
        self.clamp_scroll();
    }

    /// Rebuilds the heading index: the start line of each heading block.
    pub fn rebuild_heading_index(&mut self)
        requires
            old(self).block_line_starts@.len() <= old(self).rendered_blocks@.len(),
        ensures
            final(self).heading_line_offsets@ == heading_starts(
                old(self).rendered_blocks@.map_values(|b: RenderedBlock| block_view(b)),
                old(self).block_line_starts@,
            ),
            *final(self) == (DocumentState { heading_line_offsets: final(self).heading_line_offsets, ..*old(self) }),
    {
        let ghost bv = self.rendered_blocks@.map_values(|b: RenderedBlock| block_view(b));
        let ghost st = self.block_line_starts@;
        let mut out: Vec<usize> = Vec::new();
        let mut i: usize = 0;
        while i < self.block_line_starts.len()
            invariant
                i <= self.block_line_starts@.len() <= self.rendered_blocks@.len(),
                bv == self.rendered_blocks@.map_values(|b: RenderedBlock| block_view(b)),
                st == self.block_line_starts@,
                out@ == heading_starts(bv, st.take(i as int)),
            decreases self.block_line_starts.len() - i,
        {
            assert(st.take(i + 1).drop_last() =~= st.take(i as int));
            assert(bv[i as int] == block_view(self.rendered_blocks@[i as int]));
            let is_heading = match &self.rendered_blocks[i] {
                RenderedBlock::StyledLine { heading_level, .. } => heading_level.is_some(),
                _ => false,
            };
            if is_heading {
                out.push(self.block_line_starts[i]);
            }
            i = i + 1;
        }
        assert(st.take(st.len() as int) =~= st);
        self.heading_line_offsets = out;
    }

    /// Scrolls to the first heading below the line two under the top.
    pub fn jump_to_next_heading(&mut self)
        requires
            old(self).scroll_offset + SCROLL_PADDING <= usize::MAX,
        ensures
            next_heading_post(*old(self), *final(self)),
    {
        let pos = self.scroll_offset + SCROLL_PADDING;
        let mut i: usize = 0;
        while i < self.heading_line_offsets.len()
            invariant
                i <= self.heading_line_offsets@.len(),
                *self == *old(self),
                pos == self.scroll_offset + SCROLL_PADDING,
                forall|j: int| 0 <= j < i ==> self.heading_line_offsets@[j] <= pos,
            decreases self.heading_line_offsets.len() - i,
        {
            let target = self.heading_line_offsets[i];
            if target > pos {
                self.scroll_to_line(target);
                return;
            }
            i = i + 1;
        }
    }

    /// Scrolls to the last heading above the line two under the top.
    pub fn jump_to_prev_heading(&mut self)
        requires
            old(self).scroll_offset + SCROLL_PADDING <= usize::MAX,
        ensures
            prev_heading_post(*old(self), *final(self)),
    {
        let pos = self.scroll_offset + SCROLL_PADDING;
        let mut i: usize = self.heading_line_offsets.len();
        while i > 0
            invariant
                i <= self.heading_line_offsets@.len(),
                *self == *old(self),
                pos == self.scroll_offset + SCROLL_PADDING,
                forall|j: int| i <= j < self.heading_line_offsets@.len() ==> self.heading_line_offsets@[j] >= pos,
            decreases i,
        {
            let target = self.heading_line_offsets[i - 1];
            if target < pos {
                self.scroll_to_line(target);
                return;
            }
            i = i - 1;
        }
    }

    /// Forgets the open document (e.g. after deleting its file).
    pub fn clear(&mut self)
        ensures
            cleared(*old(self), *final(self)),
    {
        self.current_file = None;
        self.file_content = String::new();
        self.rendered_lines = Vec::new();
        self.rendered_lines_lower = Vec::new();
        self.rendered_blocks = Vec::new();
        self.links = Vec::new();
        self.heading_line_offsets = Vec::new();
        self.block_line_starts = Vec::new();
        self.scroll_offset = 0;
    }

    /// Rebuilds the lower-cased text of every rendered line.
    pub fn rebuild_lower_cache(&mut self)
        ensures
            *final(self) == (DocumentState { rendered_lines_lower: final(self).rendered_lines_lower, ..*old(self) }),
            final(self).rendered_lines_lower@.len() == old(self).rendered_lines@.len(),
            forall|i: int| 0 <= i < final(self).rendered_lines_lower@.len() ==> #[trigger] final(self).rendered_lines_lower@[i]@
                == lower_line(old(self).rendered_lines@[i]),
    {
        let mut out: Vec<String> = Vec::new();
        let mut i: usize = 0;
        while i < self.rendered_lines.len()
            invariant
                i <= self.rendered_lines@.len(),
                out@.len() == i,
                forall|j: int| 0 <= j < i ==> #[trigger] out@[j]@ == lower_line(self.rendered_lines@[j]),
            decreases self.rendered_lines.len() - i,
        {
            let t = line_string(&self.rendered_lines[i]);
            out.push(lowercase_str(t.as_str()));
            i = i + 1;
        }
        self.rendered_lines_lower = out;
    }
}

/// What a search of the document does: the matches become the lines whose
/// text, lower-cased, contains the lower-cased query, in order, the first
/// becomes current and is scrolled to, and the status reports it; an empty
/// query or document finds nothing and leaves the status alone.
pub open spec fn search_post(s0: SearchState, d0: DocumentState, st0: Seq<char>, s1: SearchState, d1: DocumentState, st1: Seq<char>) -> bool {
    &&& s1.query == s0.query
    &&& s1.active == s0.active
    &&& s1.current == 0
    &&& scrolled(d0, d1)
    &&& s1.wf(d1)
    &&& (s0.query@.len() == 0 || d0.rendered_lines@.len() == 0) ==> {
        &&& s1.matches@.len() == 0
        &&& d1.scroll_offset == d0.scroll_offset
        &&& st1 == st0
    }
    &&& (s0.query@.len() > 0 && d0.rendered_lines@.len() > 0) ==> {
        &&& forall|i: int| 0 <= i < s1.matches@.len() ==> is_match_line(d0, s0.query@, #[trigger] s1.matches@[i] as int)
        &&& forall|l: int| 0 <= l < d0.rendered_lines@.len() && is_match_line(d0, s0.query@, l) ==> #[trigger] s1.matches@.contains(l as usize)
        &&& if s1.matches@.len() > 0 {
            &&& d1.scroll_offset == clamped(d0, sat_sub(s1.matches@[0] as nat, SCROLL_PADDING as nat))
            &&& st1 == match_status(s0.query@, 1, s1.matches@.len())
        } else {
            &&& d1.scroll_offset == d0.scroll_offset
            &&& st1 == not_found_status(s0.query@)
        }
    }
}

/// Searches the document for the query: the matches are the lines whose
/// text, lower-cased, contains the lower-cased query, and the first is
/// scrolled to. An empty query or document finds nothing and leaves the
/// status alone.
pub fn perform_document_search(search: &mut SearchState, doc: &mut DocumentState, status: &mut String)
    ensures
        search_post(*old(search), *old(doc), old(status)@, *final(search), *final(doc), final(status)@),
{
    search.matches = Vec::new();
    search.current = 0;
    if search.query.as_str().is_empty() || doc.rendered_lines.len() == 0 {
        return;
    }
    let ql = lowercase_str(search.query.as_str());
    let qv = chars_of(ql.as_str());
    let mut i: usize = 0;
    while i < doc.rendered_lines.len()
        invariant
            i <= doc.rendered_lines@.len(),
            qv@ == str_lowercase(search.query@),
            search.query == old(search).query,
            search.active == old(search).active,
            *doc == *old(doc),
            *status == *old(status),
            forall|a: int, b: int| 0 <= a < b < search.matches@.len() ==> search.matches@[a] < search.matches@[b],
            forall|a: int| 0 <= a < search.matches@.len() ==> search.matches@[a] < i,
            forall|a: int| 0 <= a < search.matches@.len() ==> is_match_line(*doc, search.query@, #[trigger] search.matches@[a] as int),
            forall|l: int| 0 <= l < i && is_match_line(*doc, search.query@, l) ==> #[trigger] search.matches@.contains(l as usize),
            search.current == 0,
        decreases doc.rendered_lines.len() - i,
    {
        let t = line_string(&doc.rendered_lines[i]);
        let lower = lower_chars(t.as_str());
        if contains_vec(&lower, &qv) {
            let ghost before = search.matches@;
            search.matches.push(i);
            proof {
                assert(search.matches@[before.len() as int] == i);
                assert forall|l: int| 0 <= l < i + 1 && is_match_line(*doc, search.query@, l) implies #[trigger] search.matches@.contains(l as usize) by {
                    if l < i {
                        assert(before.contains(l as usize));
                        let k = choose|k: int| 0 <= k < before.len() && before[k] == l as usize;
                        assert(search.matches@[k] == l as usize);
                    } else {
                        assert(search.matches@[before.len() as int] == l as usize);
                    }
                }
            }
        } else {
            proof {
                assert forall|l: int| 0 <= l < i + 1 && is_match_line(*doc, search.query@, l) implies #[trigger] search.matches@.contains(l as usize) by {
                    if l == i {
                        assert(!is_match_line(*doc, search.query@, l));
                    }
                }
            }
        }
        i = i + 1;
    }
    if search.matches.len() > 0 {
        let first = search.matches[0];
        doc.scroll_to_line(first);
        *status = match_status_string(&search.query, 1, search.matches.len());
    } else {
        let mut s = lit("Pattern not found: ");
        push_str(&mut s, search.query.as_str());
        *status = s;
    }
}

/// Moves to the next match, wrapping from the last to the first, and
/// scrolls to it; nothing happens without matches.
pub fn next_search_match(search: &mut SearchState, doc: &mut DocumentState, status: &mut String)
    ensures
        final(search).query == old(search).query,
        final(search).matches == old(search).matches,
        final(search).active == old(search).active,
        old(search).wf(*old(doc)) ==> final(search).wf(*final(doc)),
        scrolled(*old(doc), *final(doc)),
        old(search).matches@.len() == 0 ==> *final(search) == *old(search) && *final(doc) == *old(doc) && *final(status) == *old(status),
        old(search).matches@.len() > 0 ==> {
            &&& final(search).current == if old(search).current + 1 < old(search).matches@.len() { old(search).current + 1 } else { 0 }
            &&& final(doc).scroll_offset == clamped(*old(doc), sat_sub(old(search).matches@[final(search).current as int] as nat, SCROLL_PADDING as nat))
            &&& final(status)@ == match_status(old(search).query@, (final(search).current + 1) as nat, old(search).matches@.len())
        },
{
    let n = search.matches.len();
    if n == 0 {
        return;
    }
    if search.current < n - 1 {
        search.current = search.current + 1;
    } else {
        search.current = 0;
    }
    let line = search.matches[search.current];
    doc.scroll_to_line(line);
    *status = match_status_string(&search.query, search.current + 1, n);
}

/// Moves to the previous match, wrapping from the first to the last, and
/// scrolls to it; nothing happens without matches. A current match past
/// the end (left by a shorter list) only steps back.
pub fn prev_search_match(search: &mut SearchState, doc: &mut DocumentState, status: &mut String)
    ensures
        final(search).query == old(search).query,
        final(search).matches == old(search).matches,
        final(search).active == old(search).active,
        old(search).wf(*old(doc)) ==> final(search).wf(*final(doc)),
        scrolled(*old(doc), *final(doc)),
        old(search).matches@.len() == 0 ==> *final(search) == *old(search) && *final(doc) == *old(doc) && *final(status) == *old(status),
        old(search).matches@.len() > 0 ==> {
            &&& final(search).current == if old(search).current > 0 { old(search).current - 1 } else { old(search).matches@.len() - 1 }
            &&& final(search).current < old(search).matches@.len() ==> {
                &&& final(doc).scroll_offset == clamped(*old(doc), sat_sub(old(search).matches@[final(search).current as int] as nat, SCROLL_PADDING as nat))
                &&& final(status)@ == match_status(old(search).query@, (final(search).current + 1) as nat, old(search).matches@.len())
            }
            &&& final(search).current >= old(search).matches@.len() ==> *final(doc) == *old(doc) && *final(status) == *old(status)
        },
{
    let n = search.matches.len();
    if n == 0 {
        return;
    }
    if search.current > 0 {
        search.current = search.current - 1;
    } else {
        search.current = n - 1;
    }
    if search.current < n {
        let line = search.matches[search.current];
        doc.scroll_to_line(line);
        *status = match_status_string(&search.query, search.current + 1, n);
    }
}

/// Moving to the next match and then to the previous one comes back to the
/// same match.
pub proof fn law_next_then_prev(n: nat, c: nat)
    requires
        c < n,
    ensures
        ({
            let nx = if c + 1 < n { c + 1 } else { 0 };
            let pv = if nx > 0 { (nx - 1) as nat } else { (n - 1) as nat };
            pv == c
        }),
{
}

/// Moving to the next match `n` times, from any match among `n`, comes back
/// to where it started.
pub proof fn law_next_cycles(n: nat, c: nat, k: nat)
    requires
        c < n,
        k <= n,
    ensures
        next_times(n, c, k) == ((c + k) as int) % (n as int),
    decreases k,
{
    if k > 0 {
        law_next_cycles(n, c, (k - 1) as nat);
        let p = next_times(n, c, (k - 1) as nat);
        assert(p == (c + k - 1) % (n as int));
        assert(0 <= p < n) by (nonlinear_arith)
            requires
                p == (c + k - 1) % (n as int),
                n > 0,
        ;
        if p + 1 < n {
            assert(((c + k) as int) % (n as int) == p + 1) by (nonlinear_arith)
                requires
                    p == (c + k - 1) % (n as int),
                    p + 1 < n,
                    n > 0,
            ;
        } else {
            assert(((c + k) as int) % (n as int) == 0) by (nonlinear_arith)
                requires
                    p == (c + k - 1) % (n as int),
                    p + 1 == n,
                    n > 0,
            ;
        }
    } else {
        assert((c as int) % (n as int) == c) by (nonlinear_arith)
            requires
                c < n,
        ;
    }
}

/// The match reached from match `c` (of `n`) after `k` moves to the next.
pub open spec fn next_times(n: nat, c: nat, k: nat) -> int
    decreases k,
{
    if k == 0 {
        c as int
    } else {
        let p = next_times(n, c, (k - 1) as nat);
        if p + 1 < n { p + 1 } else { 0 }
    }
}

/// Scrolling keeps the view within the document: from a position within
/// it, a line or half a page down or up, the bottom, and any line scrolled
/// to all stay within it; and away from the bottom, a line down and a line
/// up come back to the same place.
pub proof fn law_scroll_within(d: DocumentState, line: nat)
    requires
        d.scroll_offset <= max_scroll_spec(d),
    ensures
        clamped(d, sat_add_usize(d.scroll_offset, 1)) <= max_scroll_spec(d),
        sat_sub(d.scroll_offset as nat, 1) <= max_scroll_spec(d),
        clamped(d, sat_add_usize(d.scroll_offset, half_page(d) as usize)) <= max_scroll_spec(d),
        sat_sub(d.scroll_offset as nat, half_page(d)) <= max_scroll_spec(d),
        clamped(d, sat_sub(line, SCROLL_PADDING as nat)) <= max_scroll_spec(d),
        d.scroll_offset < max_scroll_spec(d) ==> sat_sub(clamped(d, sat_add_usize(d.scroll_offset, 1)), 1)
            == d.scroll_offset,
{
    assert(d.rendered_lines@.len() == d.rendered_lines.len());
}

} // verus!
