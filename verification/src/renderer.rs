//! The markdown renderer: a state machine over parser events that builds
//! width-independent blocks (styled lines, rules, blank lines, code and
//! tables) and collects the document's links.
//!
//! Every syntax marker is dropped; headings, emphasis, links, inline code,
//! quotes and list markers become styles and glyphs. The machine's state is
//! modelled by [`RView`]; each event's effect is the spec function
//! [`step_spec`], and [`render_events`] is proved to be their fold.

use crate::blocks::{block_view, blocks_lines, blocks_view, rewrap_blocks, rows_view, spans_width, spans_display_width, BlockView, ColumnAlign, RenderedBlock};
use crate::markdown::{
    event_view, events_view, first_word, first_word_of, lines_of, lines_spec, tag_view, CodeKind, CodeKindView,
    MdEvent, MdEventView, MdTag, MdTagEnd, MdTagView, expand_tabs, expand_tabs_spec, md_events, parse_events,
};
use crate::style::{patch, patch_spec, plain, plain_style, span, span_view, spans_view, Span, Style};
use crate::text::{copy_string, lit, push_char, push_str, repeat, repeat_str};
use crate::theme::{
    bold_spec, bold_style, gray_spec, gray_style, h1_spec, h1_style, h2_spec, h2_style, h3_spec, h3_style, h4_spec,
    h4_style, inline_code_spec, inline_code_style, italic_spec, italic_style, link_spec, link_style, strike_spec,
    strike_style, table_header_spec, table_header_style,
};
use crate::syntax::{code_block_lines, highlight_code, highlighted_text, plain_code, plain_code_lines, syntax_found};
use crate::wrap::{lines_view, SView};
use crate::syntax::Syntaxes;
use vstd::prelude::*;

verus! {

/// A link found in the document: the text it shows and where it points.
#[derive(Clone, Debug)]
pub struct LinkInfo {
    pub display_text: String,
    pub url: String,
}

/// The model of a link: (display text, url).
pub open spec fn link_view(l: LinkInfo) -> (Seq<char>, Seq<char>) {
    (l.display_text@, l.url@)
}

/// The models of some links.
pub open spec fn links_view(ls: Seq<LinkInfo>) -> Seq<(Seq<char>, Seq<char>)> {
    ls.map_values(|l: LinkInfo| link_view(l))
}

/// A block as the renderer leaves it: finished, or code still to be
/// highlighted.
pub enum RawBlock {
    Done(RenderedBlock),
    Code { lang: String, code: String, blockquote_depth: usize },
}

/// The model of a [`RawBlock`].
pub enum RawBlockView {
    Done(BlockView),
    Code(Seq<char>, Seq<char>, usize),
}

pub open spec fn raw_view(b: RawBlock) -> RawBlockView {
    match b {
        RawBlock::Done(b) => RawBlockView::Done(block_view(b)),
        RawBlock::Code { lang, code, blockquote_depth } => RawBlockView::Code(lang@, code@, blockquote_depth),
    }
}

pub open spec fn raws_view(bs: Seq<RawBlock>) -> Seq<RawBlockView> {
    bs.map_values(|b: RawBlock| raw_view(b))
}

/// The renderer's state.
pub struct RView {
    pub blocks: Seq<RawBlockView>,
    pub current: Seq<SView>,
    pub styles: Seq<Style>,
    pub lists: Seq<Option<u64>>,
    pub in_code: bool,
    pub code_lang: Option<Seq<char>>,
    pub code_buf: Seq<char>,
    pub depth: usize,
    pub pending_marker: bool,
    pub needs_newline: bool,
    pub link_dest: Option<Seq<char>>,
    pub link_text: Seq<char>,
    pub links: Seq<(Seq<char>, Seq<char>)>,
    pub marker_width: usize,
    pub heading: Option<u8>,
    pub in_table: bool,
    pub aligns: Seq<ColumnAlign>,
    pub rows: Seq<Seq<Seq<SView>>>,
    pub cell: Seq<SView>,
    pub in_header: bool,
}

/// The state before the first event.
pub open spec fn init_spec() -> RView {
    RView {
        blocks: Seq::empty(),
        current: Seq::empty(),
        styles: Seq::empty(),
        lists: Seq::empty(),
        in_code: false,
        code_lang: None,
        code_buf: Seq::empty(),
        depth: 0,
        pending_marker: false,
        needs_newline: false,
        link_dest: None,
        link_text: Seq::empty(),
        links: Seq::empty(),
        marker_width: 0,
        heading: None,
        in_table: false,
        aligns: Seq::empty(),
        rows: Seq::empty(),
        cell: Seq::empty(),
        in_header: false,
    }
}

/// The style of new text: the innermost open style, or the plain style.
pub open spec fn cur_style(st: RView) -> Style {
    if st.styles.len() > 0 {
        st.styles.last()
    } else {
        plain()
    }
}

/// Opens a style that is the current one overlaid with `s`.
pub open spec fn push_merged(st: RView, s: Style) -> RView {
    RView { styles: st.styles.push(patch_spec(cur_style(st), s)), ..st }
}

/// Closes the innermost style, if any.
pub open spec fn pop_style(st: RView) -> RView {
    RView { styles: if st.styles.len() > 0 { st.styles.drop_last() } else { st.styles }, ..st }
}

/// Ends the current line: a non-empty line becomes a styled-line block
/// (a heading line while inside a heading).
pub open spec fn flush_spec(st: RView) -> RView {
    if st.current.len() == 0 {
        st
    } else {
        RView {
            blocks: st.blocks.push(
                RawBlockView::Done(
                    BlockView::StyledLine {
                        spans: st.current,
                        depth: st.depth as nat,
                        marker_width: st.marker_width as nat,
                        heading_level: st.heading,
                    },
                ),
            ),
            current: Seq::empty(),
            ..st
        }
    }
}

/// Ends the current line and adds a blank line.
pub open spec fn blank_spec(st: RView) -> RView {
    let s = flush_spec(st);
    RView { blocks: s.blocks.push(RawBlockView::Done(BlockView::BlankLine { depth: s.depth as nat })), ..s }
}

/// The indentation of a list marker: two spaces per enclosing list.
pub open spec fn indent_spec(st: RView) -> Seq<char> {
    if st.lists.len() <= 1 {
        Seq::empty()
    } else {
        repeat("  "@, (st.lists.len() - 1) as nat)
    }
}

/// The decimal digit for `d < 10`.
pub open spec fn digit_char(d: nat) -> char {
    if d == 0 { '0' } else if d == 1 { '1' } else if d == 2 { '2' } else if d == 3 { '3' } else if d == 4 {
        '4'
    } else if d == 5 { '5' } else if d == 6 { '6' } else if d == 7 { '7' } else if d == 8 { '8' } else { '9' }
}

/// The decimal notation of `n`.
pub open spec fn decimal(n: nat) -> Seq<char>
    decreases n,
{
    if n < 10 {
        seq![digit_char(n)]
    } else {
        decimal(n / 10).push(digit_char(n % 10))
    }
}

/// The bullet of an unordered list at nesting `depth`.
pub open spec fn bullet(depth: nat) -> Seq<char> {
    if depth <= 1 {
        "• "@
    } else if depth == 2 {
        "◦ "@
    } else {
        "▪ "@
    }
}

/// Emits the marker of a new list item: indentation and a bullet, or the
/// item's number (and the list's counter advances); the marker width is
/// the width of the line so far.
pub open spec fn marker_spec(st: RView) -> RView {
    let s = if st.lists.len() == 0 {
        st
    } else {
        match st.lists.last() {
            None => RView {
                current: st.current.push((indent_spec(st), plain())).push((bullet(st.lists.len()), gray_spec())),
                ..st
            },
            Some(n) => RView {
                current: st.current.push((indent_spec(st), plain())).push((decimal(n as nat) + ". "@, gray_spec())),
                lists: st.lists.update(st.lists.len() - 1, Some(n.saturating_add(1))),
                ..st
            },
        }
    };
    RView { marker_width: spans_width(s.current) as usize, ..s }
}

/// The lines of an inline text appended: each line after the first starts
/// a new block line; empty lines add no span.
pub open spec fn text_lines_spec(st: RView, ls: Seq<Seq<char>>, style: Style) -> RView
    decreases ls.len(),
{
    if ls.len() == 0 {
        st
    } else {
        let s0 = text_lines_spec(st, ls.drop_last(), style);
        let s1 = if ls.len() > 1 { flush_spec(s0) } else { s0 };
        if ls.last().len() > 0 {
            RView { current: s1.current.push((ls.last(), style)), ..s1 }
        } else {
            s1
        }
    }
}

/// A text event.
pub open spec fn text_spec(st: RView, t: Seq<char>) -> RView {
    if st.in_code {
        RView { code_buf: st.code_buf + t, ..st }
    } else if st.in_table {
        RView { cell: st.cell.push((t, cur_style(st))), ..st }
    } else {
        let style = cur_style(st);
        let s1 = if st.link_dest is Some { RView { link_text: st.link_text + t, ..st } } else { st };
        let s2 = if s1.pending_marker { RView { pending_marker: false, ..marker_spec(s1) } } else { s1 };
        text_lines_spec(s2, lines_spec(t), style)
    }
}

/// An inline code event: the code padded with a space on each side.
pub open spec fn code_spec(st: RView, c: Seq<char>) -> RView {
    let s1 = if st.link_dest is Some { RView { link_text: st.link_text + c, ..st } } else { st };
    let s2 = if s1.pending_marker { RView { pending_marker: false, ..marker_spec(s1) } } else { s1 };
    let sp = (" "@ + c + " "@, inline_code_spec());
    if s2.in_table {
        RView { cell: s2.cell.push(sp), ..s2 }
    } else {
        RView { current: s2.current.push(sp), ..s2 }
    }
}

/// A soft line break: a newline in code, otherwise a space.
pub open spec fn soft_break_spec(st: RView) -> RView {
    if st.in_code {
        RView { code_buf: st.code_buf.push('\n'), ..st }
    } else if st.in_table {
        RView { cell: st.cell.push((" "@, cur_style(st))), ..st }
    } else {
        RView { current: st.current.push((" "@, cur_style(st))), ..st }
    }
}

/// A thematic break: a rule, after a blank line unless it is the first block.
pub open spec fn rule_spec(st: RView) -> RView {
    let s1 = flush_spec(st);
    let s2 = if s1.blocks.len() > 0 { blank_spec(s1) } else { s1 };
    RView {
        blocks: s2.blocks.push(RawBlockView::Done(BlockView::HorizontalRule { depth: s2.depth as nat })),
        needs_newline: true,
        ..s2
    }
}

/// A task-list marker: a checkbox in place of the bullet.
pub open spec fn task_spec(st: RView, checked: bool) -> RView {
    let b = if checked { "☑ "@ } else { "☐ "@ };
    RView {
        current: st.current.push((indent_spec(st), plain())).push((b, cur_style(st))),
        pending_marker: false,
        ..st
    }
}

/// A task-list marker shows a ticked box for a done task and an empty box
/// for an open one: the current line gains the item's indent and then the
/// box ("☑ " or "☐ "), and the two markers differ exactly in the box.
pub proof fn law_task_box(st: RView, checked: bool)
    ensures
        ({
            let s2 = step_spec(st, MdEventView::TaskListMarker(checked));
            &&& s2.current.len() == st.current.len() + 2
            &&& s2.current.take(st.current.len() as int) == st.current
            &&& s2.current.last().0 == (if checked { seq!['☑', ' '] } else { seq!['☐', ' '] })
            &&& s2.blocks == st.blocks
            &&& s2.links == st.links
            &&& !s2.pending_marker
        }),
        step_spec(st, MdEventView::TaskListMarker(true)).current.last().0 != step_spec(
            st,
            MdEventView::TaskListMarker(false),
        ).current.last().0,
{
    reveal_strlit("☑ ");
    reveal_strlit("☐ ");
    let s2 = step_spec(st, MdEventView::TaskListMarker(checked));
    assert(s2.current.take(st.current.len() as int) =~= st.current);
    assert("☑ "@ =~= seq!['☑', ' ']);
    assert("☐ "@ =~= seq!['☐', ' ']);
    assert(seq!['☑', ' '][0] != seq!['☐', ' '][0]);
}

/// The lines of an HTML block, each a block line in the plain style.
pub open spec fn html_lines_spec(st: RView, ls: Seq<Seq<char>>) -> RView
    decreases ls.len(),
{
    if ls.len() == 0 {
        st
    } else {
        let s0 = html_lines_spec(st, ls.drop_last());
        let s1 = if ls.len() > 1 { flush_spec(s0) } else { s0 };
        RView { current: s1.current.push((ls.last(), plain())), ..s1 }
    }
}

/// An HTML block, shown as plain text.
pub open spec fn html_spec(st: RView, h: Seq<char>) -> RView {
    flush_spec(html_lines_spec(st, lines_spec(h)))
}

/// Inline HTML, shown as text in the current style.
pub open spec fn inline_html_spec(st: RView, h: Seq<char>) -> RView {
    if h.len() == 0 {
        st
    } else {
        RView { current: st.current.push((h, cur_style(st))), ..st }
    }
}

/// The style of a heading of level `l`.
pub open spec fn heading_style(l: u8) -> Style {
    if l == 1 {
        h1_spec()
    } else if l == 2 {
        h2_spec()
    } else if l == 3 {
        h3_spec()
    } else {
        h4_spec()
    }
}

/// A blank line first when one is due.
pub open spec fn sep_spec(st: RView) -> RView {
    if st.needs_newline { blank_spec(st) } else { st }
}

/// The language of a code block: the first word of a fence's info string.
pub open spec fn code_lang_spec(k: CodeKindView) -> Option<Seq<char>> {
    match k {
        CodeKindView::Indented => None,
        CodeKindView::Fenced(info) => if first_word(info).len() == 0 {
            None
        } else {
            Some(first_word(info))
        },
    }
}

/// An opening tag.
pub open spec fn start_spec(st: RView, t: MdTagView) -> RView {
    match t {
        MdTagView::Heading(l) => {
            let s = sep_spec(st);
            RView { styles: s.styles.push(heading_style(l)), heading: Some(l), ..s }
        },
        MdTagView::Paragraph => if st.needs_newline && st.lists.len() == 0 { blank_spec(st) } else { st },
        MdTagView::Strong => push_merged(st, bold_spec()),
        MdTagView::Emphasis => push_merged(st, italic_spec()),
        MdTagView::Strikethrough => push_merged(st, strike_spec()),
        MdTagView::BlockQuote => {
            let s = sep_spec(st);
            RView { depth: s.depth.saturating_add(1), styles: s.styles.push(gray_spec()), ..s }
        },
        MdTagView::CodeBlock(k) => {
            let s = sep_spec(st);
            RView { in_code: true, code_buf: Seq::empty(), code_lang: code_lang_spec(k), ..s }
        },
        MdTagView::List(start) => {
            let s1 = if st.lists.len() == 0 && st.needs_newline { blank_spec(st) } else { st };
            let s2 = if s1.lists.len() > 0 { flush_spec(s1) } else { s1 };
            RView { lists: s2.lists.push(start), ..s2 }
        },
        MdTagView::Item => RView { pending_marker: true, ..st },
        MdTagView::Link(d) => push_merged(RView { link_dest: Some(d), link_text: Seq::empty(), ..st }, link_spec()),
        MdTagView::Table(a) => {
            let s = sep_spec(st);
            RView { in_table: true, aligns: a, rows: Seq::empty(), ..s }
        },
        MdTagView::TableHead => RView { in_header: true, ..st },
        MdTagView::TableRow => st,
        MdTagView::TableCell => RView { cell: Seq::empty(), ..st },
        MdTagView::Other => st,
    }
}

/// The end of a link: a link with a destination is recorded, showing its
/// text, or its destination when it has no text.
pub open spec fn end_link_spec(st: RView) -> RView {
    let s = pop_style(st);
    let links = match s.link_dest {
        Some(url) => if url.len() > 0 {
            s.links.push((if s.link_text.len() == 0 { url } else { s.link_text }, url))
        } else {
            s.links
        },
        None => s.links,
    };
    RView { link_text: Seq::empty(), link_dest: None, links: links, ..s }
}

/// The spans of a finished cell: header cells take the header style on top.
pub open spec fn cell_spans(st: RView) -> Seq<SView> {
    if st.in_header {
        st.cell.map_values(|sp: SView| (sp.0, patch_spec(sp.1, table_header_spec())))
    } else {
        st.cell
    }
}

/// The end of a table cell: the cell joins the last row.
pub open spec fn end_cell_spec(st: RView) -> RView {
    let c = cell_spans(st);
    let rows = if st.rows.len() > 0 {
        st.rows.update(st.rows.len() - 1, st.rows.last().push(c))
    } else {
        seq![seq![c]]
    };
    RView { cell: Seq::empty(), rows: rows, ..st }
}

/// The rows of a table that have cells.
pub open spec fn nonempty_rows(rows: Seq<Seq<Seq<SView>>>) -> Seq<Seq<Seq<SView>>>
    decreases rows.len(),
{
    if rows.len() == 0 {
        Seq::empty()
    } else if rows.last().len() == 0 {
        nonempty_rows(rows.drop_last())
    } else {
        nonempty_rows(rows.drop_last()).push(rows.last())
    }
}

/// The end of a table: a table block of its non-empty rows, if any.
pub open spec fn end_table_spec(st: RView) -> RView {
    let rs = nonempty_rows(st.rows);
    let blocks = if rs.len() > 0 {
        st.blocks.push(RawBlockView::Done(BlockView::Table { rows: rs, alignments: st.aligns, depth: st.depth as nat }))
    } else {
        st.blocks
    };
    RView { blocks: blocks, in_table: false, aligns: Seq::empty(), rows: Seq::empty(), needs_newline: true, ..st }
}

/// A closing tag.
pub open spec fn end_spec(st: RView, t: MdTagEnd) -> RView {
    match t {
        MdTagEnd::Heading => {
            let s = pop_style(flush_spec(st));
            RView { heading: None, needs_newline: true, ..s }
        },
        MdTagEnd::Paragraph => RView { needs_newline: true, ..flush_spec(st) },
        MdTagEnd::Strong | MdTagEnd::Emphasis | MdTagEnd::Strikethrough => pop_style(st),
        MdTagEnd::BlockQuote => {
            let s = pop_style(st);
            RView { depth: s.depth.saturating_sub(1), needs_newline: true, ..s }
        },
        MdTagEnd::CodeBlock => {
            let lang = match st.code_lang {
                Some(l) => l,
                None => Seq::empty(),
            };
            RView {
                blocks: st.blocks.push(RawBlockView::Code(lang, st.code_buf, st.depth)),
                code_buf: Seq::empty(),
                in_code: false,
                code_lang: None,
                needs_newline: true,
                ..st
            }
        },
        MdTagEnd::List => {
            let l = if st.lists.len() > 0 { st.lists.drop_last() } else { st.lists };
            RView { lists: l, needs_newline: if l.len() == 0 { true } else { st.needs_newline }, ..st }
        },
        MdTagEnd::Item => RView { pending_marker: false, marker_width: 0, ..flush_spec(st) },
        MdTagEnd::Link => end_link_spec(st),
        MdTagEnd::TableCell => end_cell_spec(st),
        MdTagEnd::TableHead => RView { in_header: false, rows: st.rows.push(Seq::empty()), ..st },
        MdTagEnd::TableRow => RView { rows: st.rows.push(Seq::empty()), ..st },
        MdTagEnd::Table => end_table_spec(st),
        MdTagEnd::Other => st,
    }
}

/// The effect of one event.
pub open spec fn step_spec(st: RView, e: MdEventView) -> RView {
    match e {
        MdEventView::Start(t) => start_spec(st, t),
        MdEventView::End(t) => end_spec(st, t),
        MdEventView::Text(t) => text_spec(st, t),
        MdEventView::Code(c) => code_spec(st, c),
        MdEventView::Html(h) => html_spec(st, h),
        MdEventView::InlineHtml(h) => inline_html_spec(st, h),
        MdEventView::SoftBreak => soft_break_spec(st),
        MdEventView::HardBreak => flush_spec(st),
        MdEventView::Rule => rule_spec(st),
        MdEventView::TaskListMarker(b) => task_spec(st, b),
        MdEventView::Ignored => st,
    }
}

/// The state after some events.
pub open spec fn run_spec(es: Seq<MdEventView>) -> RView
    decreases es.len(),
{
    if es.len() == 0 {
        init_spec()
    } else {
        step_spec(run_spec(es.drop_last()), es.last())
    }
}

/// The blocks and links of a document's events: the state after the last
/// event, with its last line ended.
pub open spec fn render_spec(es: Seq<MdEventView>) -> (Seq<RawBlockView>, Seq<(Seq<char>, Seq<char>)>) {
    let st = flush_spec(run_spec(es));
    (st.blocks, st.links)
}

/// The decimal digit of `d < 10`.
fn digit(d: u64) -> (c: char)
    requires
        d < 10,
    ensures
        c == digit_char(d as nat),
{
    if d == 0 { '0' } else if d == 1 { '1' } else if d == 2 { '2' } else if d == 3 { '3' } else if d == 4 {
        '4'
    } else if d == 5 { '5' } else if d == 6 { '6' } else if d == 7 { '7' } else if d == 8 { '8' } else { '9' }
}

/// The decimal notation of `n`.
pub fn decimal_string(n: u64) -> (r: String)
    ensures
        r@ == decimal(n as nat),
    decreases n,
{
    if n < 10 {
        let mut s = String::new();
        push_char(&mut s, digit(n));
        assert(s@ =~= seq![digit_char(n as nat)]);
        s
    } else {
        let mut s = decimal_string(n / 10);
        push_char(&mut s, digit(n % 10));
        s
    }
}

/// A copy of some column alignments.
fn copy_aligns(a: &Vec<ColumnAlign>) -> (r: Vec<ColumnAlign>)
    ensures
        r@ == a@,
{
    let mut r: Vec<ColumnAlign> = Vec::new();
    let mut i: usize = 0;
    while i < a.len()
        invariant
            i <= a.len(),
            r@ == a@.take(i as int),
        decreases a.len() - i,
    {
        r.push(a[i]);
        i = i + 1;
        assert(r@ =~= a@.take(i as int));
    }
    assert(a@.take(a.len() as int) =~= a@);
    r
}

/// The renderer's state; see [`RView`].
pub struct Renderer {
    blocks: Vec<RawBlock>,
    current: Vec<Span>,
    styles: Vec<Style>,
    lists: Vec<Option<u64>>,
    in_code: bool,
    code_lang: Option<String>,
    code_buf: String,
    depth: usize,
    pending_marker: bool,
    needs_newline: bool,
    link_dest: Option<String>,
    link_text: String,
    links: Vec<LinkInfo>,
    marker_width: usize,
    heading: Option<u8>,
    in_table: bool,
    aligns: Vec<ColumnAlign>,
    rows: Vec<Vec<Vec<Span>>>,
    cell: Vec<Span>,
    in_header: bool,
}

pub open spec fn opt_view(o: Option<String>) -> Option<Seq<char>> {
    match o {
        Some(s) => Some(s@),
        None => None,
    }
}

impl Renderer {
    /// The model of the state.
    pub closed spec fn view(&self) -> RView {
        RView {
            blocks: raws_view(self.blocks@),
            current: spans_view(self.current@),
            styles: self.styles@,
            lists: self.lists@,
            in_code: self.in_code,
            code_lang: opt_view(self.code_lang),
            code_buf: self.code_buf@,
            depth: self.depth,
            pending_marker: self.pending_marker,
            needs_newline: self.needs_newline,
            link_dest: opt_view(self.link_dest),
            link_text: self.link_text@,
            links: links_view(self.links@),
            marker_width: self.marker_width,
            heading: self.heading,
            in_table: self.in_table,
            aligns: self.aligns@,
            rows: rows_view(self.rows@),
            cell: spans_view(self.cell@),
            in_header: self.in_header,
        }
    }

    /// A renderer that has seen no event.
    pub fn new() -> (r: Self)
        ensures
            r.view() == init_spec(),
    {
        let r = Renderer {
            blocks: Vec::new(),
            current: Vec::new(),
            styles: Vec::new(),
            lists: Vec::new(),
            in_code: false,
            code_lang: None,
            code_buf: String::new(),
            depth: 0,
            pending_marker: false,
            needs_newline: false,
            link_dest: None,
            link_text: String::new(),
            links: Vec::new(),
            marker_width: 0,
            heading: None,
            in_table: false,
            aligns: Vec::new(),
            rows: Vec::new(),
            cell: Vec::new(),
            in_header: false,
        };
        assert(raws_view(r.blocks@) =~= Seq::<RawBlockView>::empty());
        assert(spans_view(r.current@) =~= Seq::<SView>::empty());
        assert(spans_view(r.cell@) =~= Seq::<SView>::empty());
        assert(links_view(r.links@) =~= Seq::<(Seq<char>, Seq<char>)>::empty());
        assert(rows_view(r.rows@) =~= Seq::<Seq<Seq<SView>>>::empty());
        r
    }

    fn cur_style(&self) -> (r: Style)
        ensures
            r == cur_style(self.view()),
    {
        if self.styles.len() > 0 {
            self.styles[self.styles.len() - 1]
        } else {
            plain_style()
        }
    }

    fn push_merged(&mut self, s: Style)
        ensures
            final(self).view() == push_merged(old(self).view(), s),
    {
        let c = self.cur_style();
        self.styles.push(patch(c, s));
    }

    fn pop_style(&mut self)
        ensures
            final(self).view() == pop_style(old(self).view()),
    {
        if self.styles.len() > 0 {
            self.styles.pop();
        }
    }

    fn push_span(&mut self, text: String, style: Style)
        ensures
            final(self).view() == (RView { current: old(self).view().current.push((text@, style)), ..old(self).view() }),
    {
        self.current.push(span(text, style));
        assert(spans_view(self.current@) =~= spans_view(old(self).current@).push((text@, style)));
    }

    fn push_cell_span(&mut self, text: String, style: Style)
        ensures
            final(self).view() == (RView { cell: old(self).view().cell.push((text@, style)), ..old(self).view() }),
    {
        self.cell.push(span(text, style));
        assert(spans_view(self.cell@) =~= spans_view(old(self).cell@).push((text@, style)));
    }

    fn push_block(&mut self, b: RawBlock)
        ensures
            final(self).view() == (RView { blocks: old(self).view().blocks.push(raw_view(b)), ..old(self).view() }),
    {
        self.blocks.push(b);
        assert(raws_view(self.blocks@) =~= raws_view(old(self).blocks@).push(raw_view(b)));
    }

    fn flush(&mut self)
        ensures
            final(self).view() == flush_spec(old(self).view()),
    {
        if self.current.len() == 0 {
            return;
        }
        let mut spans: Vec<Span> = Vec::new();
        std::mem::swap(&mut spans, &mut self.current);
        let b = RawBlock::Done(
            RenderedBlock::StyledLine {
                spans,
                blockquote_depth: self.depth,
                list_marker_width: self.marker_width,
                heading_level: self.heading,
            },
        );
        self.push_block(b);
        assert(spans_view(self.current@) =~= Seq::<SView>::empty());
    }

    fn push_blank(&mut self)
        ensures
            final(self).view() == blank_spec(old(self).view()),
    {
        self.flush();
        let d = self.depth;
        self.push_block(RawBlock::Done(RenderedBlock::BlankLine { blockquote_depth: d }));
    }

    fn separate(&mut self)
        ensures
            final(self).view() == sep_spec(old(self).view()),
    {
        if self.needs_newline {
            self.push_blank();
        }
    }

    fn indent_prefix(&self) -> (r: String)
        ensures
            r@ == indent_spec(self.view()),
    {
        let d = self.lists.len();
        if d <= 1 {
            String::new()
        } else {
            repeat_str("  ", d - 1)
        }
    }

    fn emit_marker(&mut self)
        ensures
            final(self).view() == marker_spec(old(self).view()),
    {
        let d = self.lists.len();
        if d > 0 {
            let indent = self.indent_prefix();
            match self.lists[d - 1] {
                None => {
                    let b = if d <= 1 {
                        lit("• ")
                    } else if d == 2 {
                        lit("◦ ")
                    } else {
                        lit("▪ ")
                    };
                    self.push_span(indent, plain_style());
                    self.push_span(b, gray_style());
                },
                Some(n) => {
                    let mut m = decimal_string(n);
                    push_str(&mut m, ". ");
                    self.push_span(indent, plain_style());
                    self.push_span(m, gray_style());
                    self.lists.set(d - 1, Some(n.saturating_add(1)));
                },
            }
        }
        self.marker_width = spans_display_width(&self.current);
    }

    fn text_lines(&mut self, ls: &Vec<String>, style: Style)
        ensures
            final(self).view() == text_lines_spec(old(self).view(), ls@.map_values(|l: String| l@), style),
    {
        let ghost lv = ls@.map_values(|l: String| l@);
        let mut i: usize = 0;
        assert(lv.take(0) =~= Seq::<Seq<char>>::empty());
        while i < ls.len()
            invariant
                i <= ls.len(),
                lv == ls@.map_values(|l: String| l@),
                self.view() == text_lines_spec(old(self).view(), lv.take(i as int), style),
            decreases ls.len() - i,
        {
            assert(lv.take(i + 1).drop_last() =~= lv.take(i as int));
            assert(lv.take(i + 1).last() == ls@[i as int]@);
            if i > 0 {
                self.flush();
            }
            if !ls[i].as_str().is_empty() {
                let t = copy_string(&ls[i]);
                self.push_span(t, style);
            }
            i = i + 1;
        }
        assert(lv.take(ls.len() as int) =~= lv);
    }

    fn on_text(&mut self, t: &String)
        ensures
            final(self).view() == text_spec(old(self).view(), t@),
    {
        if self.in_code {
            push_str(&mut self.code_buf, t.as_str());
            return;
        }
        if self.in_table {
            let st = self.cur_style();
            self.push_cell_span(copy_string(t), st);
            return;
        }
        let style = self.cur_style();
        if self.link_dest.is_some() {
            push_str(&mut self.link_text, t.as_str());
        }
        if self.pending_marker {
            self.emit_marker();
            self.pending_marker = false;
        }
        let ls = lines_of(t.as_str());
        self.text_lines(&ls, style);
    }

    fn on_code(&mut self, c: &String)
        ensures
            final(self).view() == code_spec(old(self).view(), c@),
    {
        if self.link_dest.is_some() {
            push_str(&mut self.link_text, c.as_str());
        }
        if self.pending_marker {
            self.emit_marker();
            self.pending_marker = false;
        }
        let mut text = lit(" ");
        push_str(&mut text, c.as_str());
        push_str(&mut text, " ");
        if self.in_table {
            self.push_cell_span(text, inline_code_style());
        } else {
            self.push_span(text, inline_code_style());
        }
    }

    fn on_soft_break(&mut self)
        ensures
            final(self).view() == soft_break_spec(old(self).view()),
    {
        if self.in_code {
            push_char(&mut self.code_buf, '\n');
        } else if self.in_table {
            let st = self.cur_style();
            self.push_cell_span(lit(" "), st);
        } else {
            let st = self.cur_style();
            self.push_span(lit(" "), st);
        }
    }

    fn on_rule(&mut self)
        ensures
            final(self).view() == rule_spec(old(self).view()),
    {
        self.flush();
        if self.blocks.len() > 0 {
            self.push_blank();
        }
        let d = self.depth;
        self.push_block(RawBlock::Done(RenderedBlock::HorizontalRule { blockquote_depth: d }));
        self.needs_newline = true;
    }

    fn on_task(&mut self, checked: bool)
        ensures
            final(self).view() == task_spec(old(self).view(), checked),
    {
        let b = if checked { lit("☑ ") } else { lit("☐ ") };
        let indent = self.indent_prefix();
        let st = self.cur_style();
        self.push_span(indent, plain_style());
        self.push_span(b, st);
        self.pending_marker = false;
    }

    fn on_html(&mut self, h: &String)
        ensures
            final(self).view() == html_spec(old(self).view(), h@),
    {
        let ls = lines_of(h.as_str());
        let ghost lv = ls@.map_values(|l: String| l@);
        let mut i: usize = 0;
        assert(lv.take(0) =~= Seq::<Seq<char>>::empty());
        while i < ls.len()
            invariant
                i <= ls.len(),
                lv == ls@.map_values(|l: String| l@),
                lv == crate::markdown::lines_spec(h@),
                self.view() == html_lines_spec(old(self).view(), lv.take(i as int)),
            decreases ls.len() - i,
        {
            assert(lv.take(i + 1).drop_last() =~= lv.take(i as int));
            assert(lv.take(i + 1).last() == ls@[i as int]@);
            if i > 0 {
                self.flush();
            }
            let t = copy_string(&ls[i]);
            self.push_span(t, plain_style());
            i = i + 1;
        }
        assert(lv.take(ls.len() as int) =~= lv);
        self.flush();
    }

    fn on_inline_html(&mut self, h: &String)
        ensures
            final(self).view() == inline_html_spec(old(self).view(), h@),
    {
        if h.as_str().is_empty() {
            return;
        }
        let st = self.cur_style();
        self.push_span(copy_string(h), st);
    }

    fn heading_style(l: u8) -> (r: Style)
        ensures
            r == heading_style(l),
    {
        if l == 1 {
            h1_style()
        } else if l == 2 {
            h2_style()
        } else if l == 3 {
            h3_style()
        } else {
            h4_style()
        }
    }

    fn code_lang(k: &CodeKind) -> (r: Option<String>)
        ensures
            opt_view(r) == code_lang_spec(match k {
                CodeKind::Indented => CodeKindView::Indented,
                CodeKind::Fenced(s) => CodeKindView::Fenced(s@),
            }),
    {
        match k {
            CodeKind::Indented => None,
            CodeKind::Fenced(info) => {
                let w = first_word_of(info.as_str());
                if w.as_str().is_empty() {
                    None
                } else {
                    Some(w)
                }
            },
        }
    }

    fn start(&mut self, t: &MdTag)
        ensures
            final(self).view() == start_spec(old(self).view(), tag_view(*t)),
    {
        match t {
            MdTag::Heading(l) => {
                self.separate();
                self.styles.push(Self::heading_style(*l));
                self.heading = Some(*l);
            },
            MdTag::Paragraph => {
                if self.needs_newline && self.lists.len() == 0 {
                    self.push_blank();
                }
            },
            MdTag::Strong => self.push_merged(bold_style()),
            MdTag::Emphasis => self.push_merged(italic_style()),
            MdTag::Strikethrough => self.push_merged(strike_style()),
            MdTag::BlockQuote => {
                self.separate();
                self.depth = self.depth.saturating_add(1);
                self.styles.push(gray_style());
            },
            MdTag::CodeBlock(k) => {
                self.separate();
                self.in_code = true;
                self.code_buf = String::new();
                self.code_lang = Self::code_lang(k);
            },
            MdTag::List(start) => {
                if self.lists.len() == 0 && self.needs_newline {
                    self.push_blank();
                }
                if self.lists.len() > 0 {
                    self.flush();
                }
                self.lists.push(*start);
            },
            MdTag::Item => {
                self.pending_marker = true;
            },
            MdTag::Link(d) => {
                self.link_dest = Some(copy_string(d));
                self.link_text = String::new();
                self.push_merged(link_style());
            },
            MdTag::Table(a) => {
                self.separate();
                self.in_table = true;
                self.aligns = copy_aligns(a);
                self.rows = Vec::new();
                assert(rows_view(self.rows@) =~= Seq::<Seq<Seq<SView>>>::empty());
            },
            MdTag::TableHead => {
                self.in_header = true;
            },
            MdTag::TableRow => {},
            MdTag::TableCell => {
                self.cell = Vec::new();
                assert(spans_view(self.cell@) =~= Seq::<SView>::empty());
            },
            MdTag::Other => {},
        }
    }

    fn end_link(&mut self)
        ensures
            final(self).view() == end_link_spec(old(self).view()),
    {
        self.pop_style();
        let mut text = String::new();
        std::mem::swap(&mut text, &mut self.link_text);
        let mut dest: Option<String> = None;
        std::mem::swap(&mut dest, &mut self.link_dest);
        if let Some(url) = dest {
            if !url.as_str().is_empty() {
                let shown = if text.as_str().is_empty() { copy_string(&url) } else { text };
                self.links.push(LinkInfo { display_text: shown, url });
                assert(links_view(self.links@) =~= links_view(old(self).links@).push(
                    (if old(self).link_text@.len() == 0 { url@ } else { old(self).link_text@ }, url@),
                ));
            }
        }
    }

    fn end_cell(&mut self)
        ensures
            final(self).view() == end_cell_spec(old(self).view()),
    {
        let mut spans: Vec<Span> = Vec::new();
        std::mem::swap(&mut spans, &mut self.cell);
        let ghost cv = spans_view(spans@);
        if self.in_header {
            let mut styled: Vec<Span> = Vec::new();
            let mut i: usize = 0;
            while i < spans.len()
                invariant
                    i <= spans.len(),
                    cv == spans_view(spans@),
                    spans_view(styled@) == cv.take(i as int).map_values(
                        |sp: SView| (sp.0, patch_spec(sp.1, table_header_spec())),
                    ),
                decreases spans.len() - i,
            {
                let st = patch(spans[i].style, table_header_style());
                let ghost before = styled@;
                assert(cv[i as int] == span_view(spans@[i as int]));
                styled.push(span(copy_string(&spans[i].content), st));
                assert(cv.take(i + 1) =~= cv.take(i as int).push(cv[i as int]));
                assert(spans_view(styled@) =~= spans_view(before).push((cv[i as int].0, st)));
                i = i + 1;
                assert(spans_view(styled@) =~= cv.take(i as int).map_values(
                    |sp: SView| (sp.0, patch_spec(sp.1, table_header_spec())),
                ));
            }
            assert(cv.take(spans.len() as int) =~= cv);
            spans = styled;
        }
        let n = self.rows.len();
        let ghost c = spans_view(spans@);
        let ghost rv0 = rows_view(self.rows@);
        if n > 0 {
            let mut last: Vec<Vec<Span>> = Vec::new();
            std::mem::swap(&mut last, &mut self.rows[n - 1]);
            assert(lines_view(last@) == rv0[n - 1]);
            let ghost l0 = last@;
            last.push(spans);
            assert(lines_view(last@) =~= lines_view(l0).push(c));
            self.rows.set(n - 1, last);
            assert(rows_view(self.rows@) =~= rv0.update(n - 1, rv0[n - 1].push(c)));
        } else {
            let mut row: Vec<Vec<Span>> = Vec::new();
            row.push(spans);
            assert(lines_view(row@) =~= seq![c]);
            self.rows.push(row);
            assert(rows_view(self.rows@) =~= seq![seq![c]]);
        }
        assert(spans_view(self.cell@) =~= Seq::<SView>::empty());
        assert(rows_view(self.rows@) =~= end_cell_spec(old(self).view()).rows);
    }

    fn end_table(&mut self)
        ensures
            final(self).view() == end_table_spec(old(self).view()),
    {
        let mut rows: Vec<Vec<Vec<Span>>> = Vec::new();
        std::mem::swap(&mut rows, &mut self.rows);
        let ghost rv = rows_view(rows@);
        let mut kept: Vec<Vec<Vec<Span>>> = Vec::new();
        assert(rv.take(0) =~= Seq::<Seq<Seq<SView>>>::empty());
        while rows.len() > 0
            invariant
                rv.len() >= rows.len(),
                rows_view(rows@) == rv.skip(rv.len() - rows.len()),
                rows_view(kept@) == nonempty_rows(rv.take(rv.len() - rows.len())),
            decreases rows.len(),
        {
            let ghost k = rv.len() - rows.len();
            let ghost before = rows@;
            let r = rows.remove(0);
            assert(rows@ =~= before.skip(1));
            assert(rows_view(before)[0] == lines_view(r@));
            assert(rv.take(k + 1).drop_last() =~= rv.take(k));
            assert(rv.skip(k)[0] == rv[k]);
            assert(rv.take(k + 1).last() == rv[k]);
            assert(rows_view(rows@) =~= rows_view(before).skip(1));
            assert(rv.skip(k).skip(1) =~= rv.skip(k + 1));
            if r.len() > 0 {
                kept.push(r);
                assert(rows_view(kept@) =~= nonempty_rows(rv.take(k)).push(rv[k]));
            }
        }
        assert(rv.take(rv.len() as int) =~= rv);
        if kept.len() > 0 {
            let a = copy_aligns(&self.aligns);
            let d = self.depth;
            self.push_block(RawBlock::Done(RenderedBlock::Table { rows: kept, alignments: a, blockquote_depth: d }));
        }
        self.in_table = false;
        self.aligns = Vec::new();
        self.needs_newline = true;
        assert(rows_view(self.rows@) =~= Seq::<Seq<Seq<SView>>>::empty());
    }

    fn end(&mut self, t: MdTagEnd)
        ensures
            final(self).view() == end_spec(old(self).view(), t),
    {
        match t {
            MdTagEnd::Heading => {
                self.flush();
                self.pop_style();
                self.heading = None;
                self.needs_newline = true;
            },
            MdTagEnd::Paragraph => {
                self.flush();
                self.needs_newline = true;
            },
            MdTagEnd::Strong | MdTagEnd::Emphasis | MdTagEnd::Strikethrough => self.pop_style(),
            MdTagEnd::BlockQuote => {
                self.pop_style();
                self.depth = self.depth.saturating_sub(1);
                self.needs_newline = true;
            },
            MdTagEnd::CodeBlock => {
                let mut code = String::new();
                std::mem::swap(&mut code, &mut self.code_buf);
                let mut lang_opt: Option<String> = None;
                std::mem::swap(&mut lang_opt, &mut self.code_lang);
                let lang = match lang_opt {
                    Some(l) => l,
                    None => String::new(),
                };
                let d = self.depth;
                self.push_block(RawBlock::Code { lang, code, blockquote_depth: d });
                self.in_code = false;
                self.needs_newline = true;
            },
            MdTagEnd::List => {
                if self.lists.len() > 0 {
                    self.lists.pop();
                }
                if self.lists.len() == 0 {
                    self.needs_newline = true;
                }
            },
            MdTagEnd::Item => {
                self.flush();
                self.pending_marker = false;
                self.marker_width = 0;
            },
            MdTagEnd::Link => self.end_link(),
            MdTagEnd::TableCell => self.end_cell(),
            MdTagEnd::TableHead => {
                self.in_header = false;
                let e: Vec<Vec<Span>> = Vec::new();
                assert(lines_view(e@) =~= Seq::<Seq<SView>>::empty());
                self.rows.push(e);
                assert(rows_view(self.rows@) =~= rows_view(old(self).rows@).push(Seq::<Seq<SView>>::empty()));
            },
            MdTagEnd::TableRow => {
                let e: Vec<Vec<Span>> = Vec::new();
                assert(lines_view(e@) =~= Seq::<Seq<SView>>::empty());
                self.rows.push(e);
                assert(rows_view(self.rows@) =~= rows_view(old(self).rows@).push(Seq::<Seq<SView>>::empty()));
            },
            MdTagEnd::Table => self.end_table(),
            MdTagEnd::Other => {},
        }
    }

    /// Applies one event.
    pub fn handle(&mut self, e: &MdEvent)
        ensures
            final(self).view() == step_spec(old(self).view(), event_view(*e)),
    {
        match e {
            MdEvent::Start(t) => self.start(t),
            MdEvent::End(t) => self.end(*t),
            MdEvent::Text(t) => self.on_text(t),
            MdEvent::Code(c) => self.on_code(c),
            MdEvent::Html(h) => self.on_html(h),
            MdEvent::InlineHtml(h) => self.on_inline_html(h),
            MdEvent::SoftBreak => self.on_soft_break(),
            MdEvent::HardBreak => self.flush(),
            MdEvent::Rule => self.on_rule(),
            MdEvent::TaskListMarker(b) => self.on_task(*b),
            MdEvent::Ignored => {},
        }
    }

    /// The blocks and links so far, after ending the current line.
    pub fn into_blocks(self) -> (r: (Vec<RawBlock>, Vec<LinkInfo>))
        ensures
            raws_view(r.0@) == flush_spec(self.view()).blocks,
            links_view(r.1@) == flush_spec(self.view()).links,
    {
        let mut s = self;
        s.flush();
        (s.blocks, s.links)
    }
}

/// Renders parser events to blocks (code still to be highlighted) and the
/// links of the document, in order.
pub fn render_events(events: &Vec<MdEvent>) -> (r: (Vec<RawBlock>, Vec<LinkInfo>))
    ensures
        (raws_view(r.0@), links_view(r.1@)) == render_spec(events_view(events@)),
{
    let ghost ev = events_view(events@);
    let mut rd = Renderer::new();
    let mut i: usize = 0;
    assert(ev.take(0) =~= Seq::<MdEventView>::empty());
    while i < events.len()
        invariant
            i <= events.len(),
            ev == events_view(events@),
            rd.view() == run_spec(ev.take(i as int)),
        decreases events.len() - i,
    {
        assert(ev.take(i + 1).drop_last() =~= ev.take(i as int));
        rd.handle(&events[i]);
        i = i + 1;
    }
    assert(ev.take(events.len() as int) =~= ev);
    rd.into_blocks()
}

/// The links with the first link to each destination kept, in order.
pub open spec fn dedup_links_spec(ls: Seq<(Seq<char>, Seq<char>)>) -> Seq<(Seq<char>, Seq<char>)>
    decreases ls.len(),
{
    if ls.len() == 0 {
        Seq::empty()
    } else {
        let prev = dedup_links_spec(ls.drop_last());
        if exists|i: int| 0 <= i < prev.len() && prev[i].1 == ls.last().1 {
            prev
        } else {
            prev.push(ls.last())
        }
    }
}

/// Keeps the first link to each destination, in document order.
pub fn deduplicate_links(links: Vec<LinkInfo>) -> (r: Vec<LinkInfo>)
    ensures
        links_view(r@) == dedup_links_spec(links_view(links@)),
{
    let ghost lv = links_view(links@);
    let mut out: Vec<LinkInfo> = Vec::new();
    let mut rest = links;
    let ghost mut k: int = 0;
    assert(lv.take(0) =~= Seq::<(Seq<char>, Seq<char>)>::empty());
    assert(links_view(rest@) =~= lv.skip(0));
    while rest.len() > 0
        invariant
            0 <= k <= lv.len(),
            links_view(rest@) == lv.skip(k),
            links_view(out@) == dedup_links_spec(lv.take(k)),
        decreases rest.len(),
    {
        let ghost before = rest@;
        assert(links_view(before).len() == before.len());
        assert(k < lv.len());
        let l = rest.remove(0);
        proof {
            assert(links_view(before)[0] == link_view(l));
            assert(lv.skip(k)[0] == link_view(l));
            assert(lv.take(k + 1).drop_last() =~= lv.take(k));
            assert(lv.take(k + 1).last() == link_view(l));
            assert(links_view(rest@) =~= links_view(before).skip(1));
            assert(lv.skip(k).skip(1) =~= lv.skip(k + 1));
        }
        let ghost prev = links_view(out@);
        let mut seen = false;
        let mut j: usize = 0;
        while j < out.len()
            invariant
                j <= out.len(),
                prev == links_view(out@),
                seen <==> exists|i: int| 0 <= i < j && prev[i].1 == l.url@,
            decreases out.len() - j,
        {
            if crate::text::str_eq(out[j].url.as_str(), l.url.as_str()) {
                assert(prev[j as int].1 == l.url@);
                seen = true;
            }
            j = j + 1;
        }
        if !seen {
            out.push(l);
            assert(links_view(out@) =~= prev.push(link_view(l)));
        }
        proof {
            k = k + 1;
        }
    }
    assert(lv.take(lv.len() as int) =~= lv);
    out
}

/// A finished block from a raw one: code is highlighted, the rest is kept.
pub open spec fn finished_as(raw: RawBlockView, b: BlockView) -> bool {
    match raw {
        RawBlockView::Done(d) => b == d,
        RawBlockView::Code(lang, code, depth) => match b {
            BlockView::CodeBlock { lang: l, lines, depth: d } => {
                &&& l == lang
                &&& d == depth as nat
                &&& lines == code_block_lines(lang, code)
                &&& (lang.len() > 0 && syntax_found(lang) ==> highlighted_text(code, lines))
            },
            _ => false,
        },
    }
}

/// Highlights the code blocks of the renderer's output.
pub fn finish_blocks(raw: Vec<RawBlock>, ss: &Syntaxes) -> (r: Vec<RenderedBlock>)
    ensures
        r@.len() == raw@.len(),
        forall|i: int| 0 <= i < r@.len() ==> finished_as(raw_view(raw@[i]), #[trigger] block_view(r@[i])),
{
    let ghost rv = raw@;
    let mut out: Vec<RenderedBlock> = Vec::new();
    let mut rest = raw;
    let ghost mut k: int = 0;
    assert(rest@ =~= rv.skip(0));
    while rest.len() > 0
        invariant
            0 <= k <= rv.len(),
            rest@ == rv.skip(k),
            out@.len() == k,
            forall|i: int| 0 <= i < k ==> finished_as(raw_view(rv[i]), #[trigger] block_view(out@[i])),
        decreases rest.len(),
    {
        let ghost before = rest@;
        let b = rest.remove(0);
        assert(before[0] == rv[k]);
        assert(rest@ =~= rv.skip(k + 1));
        let done = match b {
            RawBlock::Done(d) => d,
            RawBlock::Code { lang, code, blockquote_depth } => {
                let lines = highlight_code(code.as_str(), lang.as_str(), ss);
                RenderedBlock::CodeBlock { lang, highlighted_lines: lines, blockquote_depth }
            },
        };
        out.push(done);
        proof {
            k = k + 1;
        }
    }
    out
}

/// The blocks shown when colors are off: each line of the text as typed.
pub open spec fn plain_blocks(text: Seq<char>) -> Seq<BlockView> {
    lines_spec(text).map_values(|l: Seq<char>| BlockView::StyledLine {
        spans: seq![(l, plain())],
        depth: 0,
        marker_width: 0,
        heading_level: None,
    })
}

/// The blocks of a text shown without styling.
pub fn plain_text_blocks(text: &str) -> (r: Vec<RenderedBlock>)
    ensures
        r@.map_values(|b: RenderedBlock| block_view(b)) == plain_blocks(text@),
{
    let ls = lines_of(text);
    let ghost lv = ls@.map_values(|l: String| l@);
    let mut out: Vec<RenderedBlock> = Vec::new();
    let mut i: usize = 0;
    while i < ls.len()
        invariant
            i <= ls.len(),
            lv == ls@.map_values(|l: String| l@),
            lv == lines_spec(text@),
            out@.map_values(|b: RenderedBlock| block_view(b)) == plain_blocks(text@).take(i as int),
        decreases ls.len() - i,
    {
        let mut spans: Vec<Span> = Vec::new();
        spans.push(span(copy_string(&ls[i]), plain_style()));
        assert(spans_view(spans@) =~= seq![(lv[i as int], plain())]);
        let b = RenderedBlock::StyledLine { spans, blockquote_depth: 0, list_marker_width: 0, heading_level: None };
        let ghost before = out@;
        out.push(b);
        assert(out@.map_values(|b: RenderedBlock| block_view(b)) =~= before.map_values(|b: RenderedBlock| block_view(b)).push(
            block_view(b),
        ));
        assert(plain_blocks(text@).take(i + 1) =~= plain_blocks(text@).take(i as int).push(plain_blocks(text@)[i as int]));
        i = i + 1;
    }
    assert(plain_blocks(text@).take(ls.len() as int) =~= plain_blocks(text@));
    out
}

/// Renders a markdown document to width-independent blocks and its links.
///
/// Tabs become four spaces first. The links are those of the parsed
/// document. With colors off (`no_color`), the blocks are the lines of the
/// text as typed, unstyled; otherwise they are the renderer's blocks with
/// code highlighted.
pub fn render_markdown_blocks(input: &str, ss: &Syntaxes, no_color: bool) -> (r: (Vec<RenderedBlock>, Vec<LinkInfo>))
    ensures
        links_view(r.1@) == render_spec(md_events(expand_tabs_spec(input@))).1,
        no_color ==> r.0@.map_values(|b: RenderedBlock| block_view(b)) == plain_blocks(expand_tabs_spec(input@)),
        !no_color ==> r.0@.len() == render_spec(md_events(expand_tabs_spec(input@))).0.len(),
        !no_color ==> forall|i: int| 0 <= i < r.0@.len() ==> finished_as(
            render_spec(md_events(expand_tabs_spec(input@))).0[i],
            #[trigger] block_view(r.0@[i]),
        ),
{
    let cleaned = expand_tabs(input);
    let events = parse_events(cleaned.as_str());
    let (raw, links) = render_events(&events);
    if no_color {
        (plain_text_blocks(cleaned.as_str()), links)
    } else {
        let ghost rv = raws_view(raw@);
        let blocks = finish_blocks(raw, ss);
        proof {
            assert forall|i: int| 0 <= i < blocks@.len() implies finished_as(rv[i], #[trigger] block_view(blocks@[i])) by {
                assert(rv[i] == raw_view(raw@[i]));
            }
        }
        (blocks, links)
    }
}

/// Renders a markdown document to lines at `width` (unwrapped when `None`):
/// the blocks of [`render_markdown_blocks`], laid out by `rewrap_blocks`.
/// With colors off the text is shown as typed (tabs expanded), one plain
/// line per line of the text, whatever the width.
pub fn render_markdown(input: &str, width: Option<usize>, ss: &Syntaxes, no_color: bool) -> (r: Vec<Vec<Span>>)
    ensures
        no_color ==> lines_view(r@) == plain_code_lines(expand_tabs_spec(input@)),
        !no_color ==> exists|bs: Seq<RenderedBlock>| {
            &&& lines_view(r@) == blocks_lines(blocks_view(bs), width)
            &&& bs.len() == render_spec(md_events(expand_tabs_spec(input@))).0.len()
            &&& forall|i: int| 0 <= i < bs.len() ==> finished_as(
                render_spec(md_events(expand_tabs_spec(input@))).0[i],
                #[trigger] block_view(bs[i]),
            )
        },
{
    if no_color {
        let cleaned = expand_tabs(input);
        return plain_code(cleaned.as_str());
    }
    let (blocks, _links) = render_markdown_blocks(input, ss, no_color);
    let (lines, _starts) = rewrap_blocks(&blocks, width);
    proof {
        assert(blocks_view(blocks@) == blocks@.map_values(|b: RenderedBlock| block_view(b)));
    }
    lines
}

/// No two links lead to the same destination.
pub open spec fn distinct_urls(ls: Seq<(Seq<char>, Seq<char>)>) -> bool {
    forall|i: int, j: int| 0 <= i < j < ls.len() ==> ls[i].1 != ls[j].1
}

proof fn lemma_dedup_distinct(ls: Seq<(Seq<char>, Seq<char>)>)
    ensures
        distinct_urls(dedup_links_spec(ls)),
    decreases ls.len(),
{
    if ls.len() > 0 {
        lemma_dedup_distinct(ls.drop_last());
    }
}

proof fn lemma_dedup_of_distinct(ls: Seq<(Seq<char>, Seq<char>)>)
    requires
        distinct_urls(ls),
    ensures
        dedup_links_spec(ls) == ls,
    decreases ls.len(),
{
    if ls.len() > 0 {
        let init = ls.drop_last();
        assert(distinct_urls(init));
        lemma_dedup_of_distinct(init);
        assert(!(exists|i: int| 0 <= i < init.len() && init[i].1 == ls.last().1)) by {
            assert forall|i: int| 0 <= i < init.len() implies init[i].1 != ls.last().1 by {
                assert(init[i] == ls[i]);
            }
        }
        assert(init.push(ls.last()) =~= ls);
    }
}

/// Deduplicating links twice gives what deduplicating once gives: the kept
/// links already lead to distinct destinations.
pub proof fn law_dedup_idempotent(ls: Seq<(Seq<char>, Seq<char>)>)
    ensures
        dedup_links_spec(dedup_links_spec(ls)) == dedup_links_spec(ls),
        distinct_urls(dedup_links_spec(ls)),
{
    lemma_dedup_distinct(ls);
    lemma_dedup_of_distinct(dedup_links_spec(ls));
}

} // verus!
