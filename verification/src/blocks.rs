//! Width-independent blocks of rendered markdown, and their layout at a
//! given width: styled lines are word-wrapped under blockquote bars with a
//! hanging indent for list items, code blocks are boxed and truncated, rules
//! fill the width and tables are drawn with borders and wrapped cells.

use crate::style::{span_view, spans_view, Span, Style};
use crate::text::{display_width, lit, push_str, repeat, repeat_str, sat_sub, str_display_width, grapheme_clusters, graphemes_of, copy_string};
use crate::theme::{blockquote_spec, blockquote_style, border_spec, border_style, BLOCKQUOTE_INDENT_COLS};
use crate::wrap::{lines_view, sat_add, wrap_spans, wrap_spec, SView};
use vstd::prelude::*;

verus! {

/// Column alignment of a table (kept with the table, not used for layout).
#[derive(Clone, Copy, Debug, PartialEq, Eq, Structural)]
pub enum ColumnAlign {
    Unaligned,
    Left,
    Center,
    Right,
}

/// Width-independent rendering of one markdown element.
pub enum RenderedBlock {
    /// One logical line of inline text; wrapped to the width.
    StyledLine {
        spans: Vec<Span>,
        blockquote_depth: usize,
        list_marker_width: usize,
        heading_level: Option<u8>,
    },
    /// Highlighted code lines; boxed and truncated to the width.
    CodeBlock { lang: String, highlighted_lines: Vec<Vec<Span>>, blockquote_depth: usize },
    /// A rule across the width.
    HorizontalRule { blockquote_depth: usize },
    /// An empty line (with blockquote bars when quoted).
    BlankLine { blockquote_depth: usize },
    /// A table: rows of cells of spans.
    Table { rows: Vec<Vec<Vec<Span>>>, alignments: Vec<ColumnAlign>, blockquote_depth: usize },
}

/// Minimum content width of a code box.
pub const CODE_BLOCK_MIN_WIDTH: usize = 20;
/// Padding inside a code box (one space on each side).
pub const CODE_BLOCK_BORDER_PAD: usize = 2;
/// Minimum width of a table column.
pub const TABLE_MIN_COL_WIDTH: usize = 3;
/// Padding inside a table cell (one space on each side).
pub const TABLE_CELL_PAD: usize = 2;
/// Width of a rule when no width is known.
pub const HR_DEFAULT_WIDTH: usize = 40;

/// `depth` blockquote bars.
pub open spec fn bars(depth: nat) -> Seq<SView> {
    Seq::new(depth, |i: int| ("▎ "@, blockquote_spec()))
}

/// The width left inside `depth` blockquote bars.
pub open spec fn inside_bars(w: nat, depth: nat) -> nat {
    sat_sub(w, depth * BLOCKQUOTE_INDENT_COLS as nat)
}

/// The lines of a styled line: wrapped inside the bars, continuation lines of
/// a list item indented by the marker width; unwrapped when no width is given.
pub open spec fn styled_lines(spans: Seq<SView>, depth: nat, lmw: nat, width: Option<usize>) -> Seq<Seq<SView>> {
    match width {
        Some(w) => {
            let wl = wrap_spec(spans, inside_bars(w as nat, depth));
            Seq::new(
                wl.len(),
                |i: int|
                    bars(depth) + (if i > 0 && lmw > 0 {
                        seq![(repeat(" "@, lmw), crate::style::plain())]
                    } else {
                        Seq::<SView>::empty()
                    }) + wl[i],
            )
        },
        None => seq![bars(depth) + spans],
    }
}

/// The line of a rule.
pub open spec fn hr_lines(depth: nat, width: Option<usize>) -> Seq<Seq<SView>> {
    let w = match width {
        Some(w) => inside_bars(w as nat, depth),
        None => HR_DEFAULT_WIDTH as nat,
    };
    seq![seq![(repeat("─"@, w), border_spec())]]
}

/// The line of a blank line.
pub open spec fn blank_lines(depth: nat) -> Seq<Seq<SView>> {
    seq![bars(depth)]
}

/// Total display width of a line of spans (saturating).
pub open spec fn spans_width(l: Seq<SView>) -> nat
    decreases l.len(),
{
    if l.len() == 0 {
        0
    } else {
        sat_add(spans_width(l.drop_last()), display_width(l.last().0))
    }
}

/// The widest of some lines (0 when there are none).
pub open spec fn lines_max_width(ls: Seq<Seq<SView>>) -> nat
    decreases ls.len(),
{
    if ls.len() == 0 {
        0
    } else {
        let m = lines_max_width(ls.drop_last());
        let w = spans_width(ls.last());
        if w > m { w } else { m }
    }
}

/// The content width of a code box: its widest line, at least the minimum,
/// and at most what fits inside `effective` columns with the borders.
pub open spec fn code_max_width(ls: Seq<Seq<SView>>, effective: Option<nat>) -> nat {
    let m = lines_max_width(ls);
    let content = if m > CODE_BLOCK_MIN_WIDTH as nat { m } else { CODE_BLOCK_MIN_WIDTH as nat };
    match effective {
        Some(aw) => if aw > CODE_BLOCK_BORDER_PAD + 2 {
            let cap = (aw - CODE_BLOCK_BORDER_PAD - 2) as nat;
            if content < cap { content } else { cap }
        } else {
            content
        },
        None => content,
    }
}

/// The grapheme clusters of `gs` that fit in `remaining` columns, taken from
/// the front until the first one that does not fit.
pub open spec fn fit_prefix(gs: Seq<Seq<char>>, remaining: nat) -> (Seq<char>, bool)
    decreases gs.len(),
{
    if gs.len() == 0 {
        (Seq::empty(), false)
    } else {
        let (p, stopped) = fit_prefix(gs.drop_last(), remaining);
        let g = gs.last();
        if stopped || sat_add(display_width(p), display_width(g)) > remaining {
            (p, true)
        } else {
            (p + g, false)
        }
    }
}

/// Truncation state: spans kept, columns used, whether the cut was made.
pub type TruncState = (Seq<SView>, nat, bool);

/// One span of a code line under truncation to `budget` columns: kept whole
/// if it fits, else cut at a cluster boundary and followed by an ellipsis.
pub open spec fn trunc_step(st: TruncState, s: SView, budget: nat) -> TruncState {
    if st.2 {
        st
    } else {
        let sw = display_width(s.0);
        if sat_add(st.1, sw) <= budget {
            (st.0.push(s), sat_add(st.1, sw), false)
        } else {
            let remaining = sat_sub(budget, st.1);
            let part = fit_prefix(grapheme_clusters(s.0), remaining).0;
            let kept = if remaining > 0 && part.len() > 0 { st.0.push((part, s.1)) } else { st.0 };
            (kept.push(("…"@, border_spec())), st.1, true)
        }
    }
}

/// Truncation over the first spans of a line.
pub open spec fn trunc_fold(l: Seq<SView>, budget: nat) -> TruncState
    decreases l.len(),
{
    if l.len() == 0 {
        (Seq::empty(), 0, false)
    } else {
        trunc_step(trunc_fold(l.drop_last(), budget), l.last(), budget)
    }
}

/// A code line cut to `max_width` columns, the last one an ellipsis.
pub open spec fn truncate_spec(l: Seq<SView>, max_width: nat) -> Seq<SView> {
    trunc_fold(l, sat_sub(max_width, 1)).0
}

/// One code line inside the box.
pub open spec fn code_row(l: Seq<SView>, max_width: nat) -> Seq<SView> {
    let t = if spans_width(l) > max_width { truncate_spec(l, max_width) } else { l };
    let pad = sat_sub(max_width, spans_width(t));
    seq![("│ "@, border_spec())] + t + seq![(repeat(" "@, pad) + " │"@, border_spec())]
}

/// The top border of a code box, with the language label when there is one.
pub open spec fn code_header(lang: Seq<char>, inner: nat) -> Seq<char> {
    if lang.len() == 0 {
        "┌"@ + repeat("─"@, inner) + "┐"@
    } else {
        let label = "─ "@ + lang + " ─"@;
        "┌"@ + label + repeat("─"@, sat_sub(inner, display_width(label))) + "┐"@
    }
}

/// The lines of a code block.
pub open spec fn code_lines(lang: Seq<char>, ls: Seq<Seq<SView>>, depth: nat, width: Option<usize>) -> Seq<Seq<SView>> {
    let eff = match width {
        Some(w) => Some(inside_bars(w as nat, depth)),
        None => None,
    };
    let mw = code_max_width(ls, eff);
    let inner = sat_add(mw, CODE_BLOCK_BORDER_PAD as nat);
    seq![seq![(code_header(lang, inner), border_spec())]] + Seq::new(ls.len(), |i: int| code_row(ls[i], mw))
        + seq![seq![("└"@ + repeat("─"@, inner) + "┘"@, border_spec())]]
}

/// `depth` blockquote bars.
pub fn make_bars(depth: usize) -> (r: Vec<Span>)
    ensures
        spans_view(r@) == bars(depth as nat),
{
    let mut r: Vec<Span> = Vec::new();
    let mut i: usize = 0;
    while i < depth
        invariant
            i <= depth,
            spans_view(r@) == bars(i as nat),
        decreases depth - i,
    {
        let ghost old_r = r@;
        r.push(Span { content: lit("▎ "), style: blockquote_style() });
        assert(spans_view(r@) =~= spans_view(old_r).push(("▎ "@, blockquote_spec())));
        assert(bars((i + 1) as nat) =~= bars(i as nat).push(("▎ "@, blockquote_spec())));
        i = i + 1;
    }
    r
}

/// The width left inside `depth` blockquote bars.
pub fn inside_bars_exec(w: usize, depth: usize) -> (r: usize)
    ensures
        r as nat == inside_bars(w as nat, depth as nat),
{
    match depth.checked_mul(BLOCKQUOTE_INDENT_COLS) {
        Some(p) => w.saturating_sub(p),
        None => 0,
    }
}

/// Moves the spans of `src` to the end of `dst`.
pub fn extend_spans(dst: &mut Vec<Span>, src: Vec<Span>)
    ensures
        spans_view(final(dst)@) == spans_view(old(dst)@) + spans_view(src@),
{
    let mut src = src;
    let ghost d = dst@;
    let ghost s = src@;
    dst.append(&mut src);
    assert(spans_view(dst@) =~= spans_view(d) + spans_view(s));
}

/// Lays out a styled line (see `styled_lines`).
pub fn rewrap_styled_line(
    lines: &mut Vec<Vec<Span>>,
    spans: &Vec<Span>,
    depth: usize,
    list_marker_width: usize,
    width: Option<usize>,
)
    ensures
        lines_view(final(lines)@) == lines_view(old(lines)@) + styled_lines(
            spans_view(spans@),
            depth as nat,
            list_marker_width as nat,
            width,
        ),
{
    let ghost base = lines_view(lines@);
    match width {
        Some(w) => {
            let eff = inside_bars_exec(w, depth);
            let wrapped = wrap_spans(spans, eff);
            let ghost wl = wrap_spec(spans_view(spans@), eff as nat);
            let ghost target = styled_lines(spans_view(spans@), depth as nat, list_marker_width as nat, width);
            let mut i: usize = 0;
            while i < wrapped.len()
                invariant
                    i <= wrapped.len(),
                    lines_view(wrapped@) == wl,
                    target.len() == wl.len(),
                    target == styled_lines(spans_view(spans@), depth as nat, list_marker_width as nat, Some(w)),
                    wl == wrap_spec(spans_view(spans@), inside_bars(w as nat, depth as nat)),
                    lines_view(lines@) == base + target.take(i as int),
                decreases wrapped.len() - i,
            {
                let mut line = make_bars(depth);
                if i > 0 && list_marker_width > 0 {
                    let ghost l0 = line@;
                    line.push(Span { content: repeat_str(" ", list_marker_width), style: crate::style::plain_style() });
                    assert(spans_view(line@) =~= spans_view(l0).push((repeat(" "@, list_marker_width as nat), crate::style::plain())));
                }
                let part = crate::style::copy_spans(&wrapped[i]);
                assert(spans_view(wrapped@[i as int]@) == wl[i as int]);
                extend_spans(&mut line, part);
                let ghost ol = lines@;
                lines.push(line);
                assert(lines_view(lines@) =~= lines_view(ol).push(spans_view(line@)));
                assert(spans_view(line@) =~= target[i as int]);
                assert(target.take(i + 1) =~= target.take(i as int).push(target[i as int]));
                i = i + 1;
            }
            assert(target.take(wrapped.len() as int) =~= target);
        },
        None => {
            let mut line = make_bars(depth);
            let part = crate::style::copy_spans(spans);
            extend_spans(&mut line, part);
            let ghost ol = lines@;
            lines.push(line);
            assert(lines_view(lines@) =~= lines_view(ol).push(spans_view(line@)));
        },
    }
}

/// Lays out a rule (see `hr_lines`).
pub fn rewrap_hr(lines: &mut Vec<Vec<Span>>, depth: usize, width: Option<usize>)
    ensures
        lines_view(final(lines)@) == lines_view(old(lines)@) + hr_lines(depth as nat, width),
{
    let w = match width {
        Some(w) => inside_bars_exec(w, depth),
        None => HR_DEFAULT_WIDTH,
    };
    let mut line: Vec<Span> = Vec::new();
    line.push(Span { content: repeat_str("─", w), style: border_style() });
    assert(spans_view(line@) =~= seq![(repeat("─"@, w as nat), border_spec())]);
    let ghost ol = lines@;
    lines.push(line);
    assert(lines_view(lines@) =~= lines_view(ol).push(spans_view(line@)));
}

/// Lays out a blank line (see `blank_lines`).
pub fn rewrap_blank_line(lines: &mut Vec<Vec<Span>>, depth: usize)
    ensures
        lines_view(final(lines)@) == lines_view(old(lines)@) + blank_lines(depth as nat),
{
    let line = make_bars(depth);
    let ghost ol = lines@;
    lines.push(line);
    assert(lines_view(lines@) =~= lines_view(ol).push(spans_view(line@)));
}

/// Display width of a line of spans (saturating).
pub fn spans_display_width(l: &Vec<Span>) -> (r: usize)
    ensures
        r as nat == spans_width(spans_view(l@)),
{
    let mut total: usize = 0;
    let mut i: usize = 0;
    while i < l.len()
        invariant
            i <= l.len(),
            total as nat == spans_width(spans_view(l@.take(i as int))),
        decreases l.len() - i,
    {
        assert(spans_view(l@.take(i + 1)).drop_last() =~= spans_view(l@.take(i as int)));
        let w = str_display_width(l[i].content.as_str());
        total = total.saturating_add(w);
        i = i + 1;
    }
    assert(l@.take(l.len() as int) =~= l@);
    total
}

/// The clusters of `gs` that fit in `remaining` columns (see `fit_prefix`).
pub fn fit_prefix_exec(gs: &Vec<String>, remaining: usize) -> (r: String)
    ensures
        r@ == fit_prefix(gs@.map_values(|g: String| g@), remaining as nat).0,
{
    let ghost gv = gs@.map_values(|g: String| g@);
    let mut p = String::new();
    let mut i: usize = 0;
    while i < gs.len()
        invariant
            i <= gs.len(),
            gv == gs@.map_values(|g: String| g@),
            fit_prefix(gv.take(i as int), remaining as nat) == (p@, false),
        decreases gs.len() - i,
    {
        assert(gv.take(i + 1).drop_last() =~= gv.take(i as int));
        assert(gv.take(i + 1).last() == gs@[i as int]@);
        let pw = str_display_width(p.as_str());
        let gw = str_display_width(gs[i].as_str());
        if pw.saturating_add(gw) > remaining {
            assert forall|k: int| i < k <= gs.len() implies fit_prefix(#[trigger] gv.take(k), remaining as nat) == (p@, true) by {
                lemma_fit_prefix_stays(gv, i as int, k, remaining as nat, p@);
            }
            assert(gv.take(gs.len() as int) =~= gv);
            return p;
        }
        push_str(&mut p, gs[i].as_str());
        i = i + 1;
    }
    assert(gv.take(gs.len() as int) =~= gv);
    p
}

proof fn lemma_fit_prefix_stays(gv: Seq<Seq<char>>, i: int, k: int, remaining: nat, p: Seq<char>)
    requires
        0 <= i < k <= gv.len(),
        fit_prefix(gv.take(i), remaining) == (p, false),
        sat_add(display_width(p), display_width(gv[i])) > remaining,
    ensures
        fit_prefix(gv.take(k), remaining) == (p, true),
    decreases k - i,
{
    assert(gv.take(k).drop_last() =~= gv.take(k - 1));
    if k - 1 > i {
        lemma_fit_prefix_stays(gv, i, k - 1, remaining, p);
    } else {
        assert(gv.take(k - 1) =~= gv.take(i));
    }
}

/// Cuts a code line to `max_width` columns (see `truncate_spec`).
pub fn truncate_code_line(l: &Vec<Span>, max_width: usize) -> (r: Vec<Span>)
    ensures
        spans_view(r@) == truncate_spec(spans_view(l@), max_width as nat),
{
    let budget = max_width.saturating_sub(1);
    let ghost lv = spans_view(l@);
    let mut res: Vec<Span> = Vec::new();
    let mut used: usize = 0;
    let mut i: usize = 0;
    while i < l.len()
        invariant
            i <= l.len(),
            budget as nat == sat_sub(max_width as nat, 1),
            lv == spans_view(l@),
            trunc_fold(lv.take(i as int), budget as nat) == (spans_view(res@), used as nat, false),
        decreases l.len() - i,
    {
        assert(lv.take(i + 1).drop_last() =~= lv.take(i as int));
        assert(lv.take(i + 1).last() == span_view(l@[i as int]));
        let sw = str_display_width(l[i].content.as_str());
        if used.saturating_add(sw) <= budget {
            let ghost o = res@;
            res.push(crate::style::copy_span(&l[i]));
            assert(spans_view(res@) =~= spans_view(o).push(span_view(l@[i as int])));
            used = used.saturating_add(sw);
            i = i + 1;
        } else {
            let remaining = budget.saturating_sub(used);
            if remaining > 0 {
                let gs = graphemes_of(l[i].content.as_str());
                let part = fit_prefix_exec(&gs, remaining);
                if !part.as_str().is_empty() {
                    let ghost o = res@;
                    res.push(Span { content: part, style: l[i].style });
                    assert(spans_view(res@) =~= spans_view(o).push((part@, l@[i as int].style)));
                }
            }
            let ghost o2 = res@;
            res.push(Span { content: lit("…"), style: border_style() });
            assert(spans_view(res@) =~= spans_view(o2).push(("…"@, border_spec())));
            proof {
                let st = trunc_fold(lv.take(i + 1), budget as nat);
                assert(st == (spans_view(res@), used as nat, true));
                assert forall|k: int| i + 1 <= k <= l.len() implies trunc_fold(#[trigger] lv.take(k), budget as nat) == st by {
                    lemma_trunc_done(lv, i + 1, k, budget as nat, st);
                }
            }
            assert(lv.take(l.len() as int) =~= lv);
            return res;
        }
    }
    assert(lv.take(l.len() as int) =~= lv);
    res
}

proof fn lemma_trunc_done(lv: Seq<SView>, i: int, k: int, budget: nat, st: TruncState)
    requires
        0 <= i <= k <= lv.len(),
        trunc_fold(lv.take(i), budget) == st,
        st.2,
    ensures
        trunc_fold(lv.take(k), budget) == st,
    decreases k - i,
{
    if k > i {
        assert(lv.take(k).drop_last() =~= lv.take(k - 1));
        lemma_trunc_done(lv, i, k - 1, budget, st);
    }
}

/// The widest line (0 when there are none).
pub fn lines_max_width_exec(ls: &Vec<Vec<Span>>) -> (r: usize)
    ensures
        r as nat == lines_max_width(lines_view(ls@)),
{
    let mut m: usize = 0;
    let mut i: usize = 0;
    while i < ls.len()
        invariant
            i <= ls.len(),
            m as nat == lines_max_width(lines_view(ls@.take(i as int))),
        decreases ls.len() - i,
    {
        assert(lines_view(ls@.take(i + 1)).drop_last() =~= lines_view(ls@.take(i as int)));
        let w = spans_display_width(&ls[i]);
        if w > m {
            m = w;
        }
        i = i + 1;
    }
    assert(ls@.take(ls.len() as int) =~= ls@);
    m
}

/// The top border of a code box (see `code_header`).
pub fn code_header_exec(lang: &String, inner: usize) -> (r: String)
    ensures
        r@ == code_header(lang@, inner as nat),
{
    let mut h = lit("┌");
    if lang.as_str().is_empty() {
        push_str(&mut h, repeat_str("─", inner).as_str());
    } else {
        let mut label = lit("─ ");
        push_str(&mut label, lang.as_str());
        push_str(&mut label, " ─");
        let lw = str_display_width(label.as_str());
        push_str(&mut h, label.as_str());
        push_str(&mut h, repeat_str("─", inner.saturating_sub(lw)).as_str());
    }
    push_str(&mut h, "┐");
    h
}

/// Lays out a code block (see `code_lines`).
pub fn rewrap_code_block(
    lines: &mut Vec<Vec<Span>>,
    lang: &String,
    highlighted: &Vec<Vec<Span>>,
    depth: usize,
    width: Option<usize>,
)
    ensures
        lines_view(final(lines)@) == lines_view(old(lines)@) + code_lines(
            lang@,
            lines_view(highlighted@),
            depth as nat,
            width,
        ),
{
    let ghost base = lines_view(lines@);
    let ghost ls = lines_view(highlighted@);
    let eff: Option<usize> = match width {
        Some(w) => Some(inside_bars_exec(w, depth)),
        None => None,
    };
    let ghost effn: Option<nat> = match width {
        Some(w) => Some(inside_bars(w as nat, depth as nat)),
        None => None,
    };
    let m = lines_max_width_exec(highlighted);
    let content = if m > CODE_BLOCK_MIN_WIDTH { m } else { CODE_BLOCK_MIN_WIDTH };
    let mw: usize = match eff {
        Some(aw) => if aw > CODE_BLOCK_BORDER_PAD + 2 {
            let cap = aw - CODE_BLOCK_BORDER_PAD - 2;
            if content < cap { content } else { cap }
        } else {
            content
        },
        None => content,
    };
    assert(mw as nat == code_max_width(ls, effn));
    let inner = mw.saturating_add(CODE_BLOCK_BORDER_PAD);
    let ghost target = code_lines(lang@, ls, depth as nat, width);
    let mut header: Vec<Span> = Vec::new();
    header.push(Span { content: code_header_exec(lang, inner), style: border_style() });
    assert(spans_view(header@) =~= seq![(code_header(lang@, inner as nat), border_spec())]);
    let ghost o0 = lines@;
    lines.push(header);
    assert(lines_view(lines@) =~= lines_view(o0).push(spans_view(header@)));
    let ghost rows = Seq::new(ls.len(), |i: int| code_row(ls[i], mw as nat));
    let mut i: usize = 0;
    while i < highlighted.len()
        invariant
            i <= highlighted.len(),
            ls == lines_view(highlighted@),
            rows == Seq::new(ls.len(), |i: int| code_row(ls[i], mw as nat)),
            lines_view(lines@) == base + seq![seq![(code_header(lang@, inner as nat), border_spec())]] + rows.take(i as int),
        decreases highlighted.len() - i,
    {
        let cw = spans_display_width(&highlighted[i]);
        let t = if cw > mw { truncate_code_line(&highlighted[i], mw) } else { crate::style::copy_spans(&highlighted[i]) };
        let tw = spans_display_width(&t);
        let pad = mw.saturating_sub(tw);
        let mut row: Vec<Span> = Vec::new();
        row.push(Span { content: lit("│ "), style: border_style() });
        assert(spans_view(row@) =~= seq![("│ "@, border_spec())]);
        extend_spans(&mut row, t);
        let mut tail = repeat_str(" ", pad);
        push_str(&mut tail, " │");
        let ghost r0 = row@;
        row.push(Span { content: tail, style: border_style() });
        assert(spans_view(row@) =~= spans_view(r0).push((repeat(" "@, pad as nat) + " │"@, border_spec())));
        assert(ls[i as int] == spans_view(highlighted@[i as int]@));
        assert(spans_view(row@) =~= code_row(ls[i as int], mw as nat));
        let ghost o = lines@;
        lines.push(row);
        assert(lines_view(lines@) =~= lines_view(o).push(spans_view(row@)));
        assert(rows.take(i + 1) =~= rows.take(i as int).push(rows[i as int]));
        i = i + 1;
    }
    assert(rows.take(highlighted.len() as int) =~= rows);
    let mut footer_text = lit("└");
    push_str(&mut footer_text, repeat_str("─", inner).as_str());
    push_str(&mut footer_text, "┘");
    let mut footer: Vec<Span> = Vec::new();
    footer.push(Span { content: footer_text, style: border_style() });
    assert(spans_view(footer@) =~= seq![("└"@ + repeat("─"@, inner as nat) + "┘"@, border_spec())]);
    let ghost o1 = lines@;
    lines.push(footer);
    assert(lines_view(lines@) =~= lines_view(o1).push(spans_view(footer@)));
    assert(lines_view(lines@) =~= base + target);
}

/// Models of table rows.
pub open spec fn rows_view(rows: Seq<Vec<Vec<Span>>>) -> Seq<Seq<Seq<SView>>> {
    rows.map_values(|r: Vec<Vec<Span>>| lines_view(r@))
}

/// Multiplication that stops at `usize::MAX`.
pub open spec fn sat_mul(a: nat, b: nat) -> nat {
    if a * b > usize::MAX {
        usize::MAX as nat
    } else {
        a * b
    }
}

/// The number of columns: the longest row.
pub open spec fn num_cols(rows: Seq<Seq<Seq<SView>>>) -> nat
    decreases rows.len(),
{
    if rows.len() == 0 {
        0
    } else {
        let m = num_cols(rows.drop_last());
        if rows.last().len() > m { rows.last().len() } else { m }
    }
}

/// The widest cell of column `c`.
pub open spec fn col_content_width(rows: Seq<Seq<Seq<SView>>>, c: int) -> nat
    decreases rows.len(),
{
    if rows.len() == 0 {
        0
    } else {
        let m = col_content_width(rows.drop_last(), c);
        let r = rows.last();
        if 0 <= c < r.len() && spans_width(r[c]) > m { spans_width(r[c]) } else { m }
    }
}

/// Column widths before fitting: the widest cell, at least the minimum.
pub open spec fn base_col_widths(rows: Seq<Seq<Seq<SView>>>) -> Seq<nat> {
    Seq::new(
        num_cols(rows),
        |c: int|
            if col_content_width(rows, c) > TABLE_MIN_COL_WIDTH as nat {
                col_content_width(rows, c)
            } else {
                TABLE_MIN_COL_WIDTH as nat
            },
    )
}

/// Sum of widths (saturating).
pub open spec fn widths_sum(ws: Seq<nat>) -> nat
    decreases ws.len(),
{
    if ws.len() == 0 {
        0
    } else {
        sat_add(widths_sum(ws.drop_last()), ws.last())
    }
}

/// Columns taken by borders and padding for `n` columns.
pub open spec fn table_overhead(n: nat) -> nat {
    sat_add(sat_add(sat_mul(n, TABLE_CELL_PAD as nat), n), 1)
}

/// Column widths: when the table is wider than `effective`, each column is
/// shrunk in proportion, to no less than the minimum.
pub open spec fn table_col_widths(rows: Seq<Seq<Seq<SView>>>, effective: Option<nat>) -> Seq<nat> {
    let ws = base_col_widths(rows);
    let n = ws.len();
    match effective {
        Some(aw) => {
            if sat_add(widths_sum(ws), table_overhead(n)) > aw && n > 0 {
                let avail = sat_sub(aw, table_overhead(n));
                let cur = if widths_sum(ws) > 1 { widths_sum(ws) } else { 1 };
                Seq::new(
                    n,
                    |c: int|
                        if sat_mul(ws[c], avail) / cur > TABLE_MIN_COL_WIDTH as nat {
                            sat_mul(ws[c], avail) / cur
                        } else {
                            TABLE_MIN_COL_WIDTH as nat
                        },
                )
            } else {
                ws
            }
        },
        None => ws,
    }
}

/// The first `k` column segments of a border.
pub open spec fn border_body(ws: Seq<nat>, mid: Seq<char>, k: nat) -> Seq<char>
    decreases k,
{
    if k == 0 {
        Seq::empty()
    } else {
        let i = (k - 1) as int;
        border_body(ws, mid, (k - 1) as nat) + repeat("─"@, sat_add(ws[i], TABLE_CELL_PAD as nat)) + (if i
            < ws.len() - 1 {
            mid
        } else {
            Seq::empty()
        })
    }
}

/// A horizontal table border.
pub open spec fn border_line(ws: Seq<nat>, left: Seq<char>, mid: Seq<char>, right: Seq<char>) -> Seq<SView> {
    seq![(left + border_body(ws, mid, ws.len()) + right, border_spec())]
}

/// The cell of a row in column `c` (empty past the row's end).
pub open spec fn row_cell(row: Seq<Seq<SView>>, c: int) -> Seq<SView> {
    if 0 <= c < row.len() { row[c] } else { Seq::empty() }
}

/// The wrapped lines of each cell of a row.
pub open spec fn wrapped_cells(row: Seq<Seq<SView>>, ws: Seq<nat>) -> Seq<Seq<Seq<SView>>> {
    Seq::new(ws.len(), |c: int| wrap_spec(row_cell(row, c), ws[c]))
}

/// The height of a row: its tallest wrapped cell.
pub open spec fn row_height(wc: Seq<Seq<Seq<SView>>>) -> nat
    decreases wc.len(),
{
    if wc.len() == 0 {
        0
    } else {
        let m = row_height(wc.drop_last());
        if wc.last().len() > m { wc.last().len() } else { m }
    }
}

/// One cell's part of a visual row line: its `sub`-th wrapped line, padded.
pub open spec fn cell_part(wc: Seq<Seq<Seq<SView>>>, ws: Seq<nat>, c: int, sub: int) -> Seq<SView> {
    let l = if 0 <= sub < wc[c].len() { wc[c][sub] } else { Seq::empty() };
    l + seq![(repeat(" "@, sat_sub(ws[c], spans_width(l))) + " │ "@, border_spec())]
}

/// The parts of the first `k` cells.
pub open spec fn cells_parts(wc: Seq<Seq<Seq<SView>>>, ws: Seq<nat>, k: nat, sub: int) -> Seq<SView>
    decreases k,
{
    if k == 0 {
        Seq::empty()
    } else {
        cells_parts(wc, ws, (k - 1) as nat, sub) + cell_part(wc, ws, k - 1, sub)
    }
}

/// The visual lines of one table row.
pub open spec fn row_lines(row: Seq<Seq<SView>>, ws: Seq<nat>) -> Seq<Seq<SView>> {
    let wc = wrapped_cells(row, ws);
    Seq::new(row_height(wc), |sub: int| seq![("│ "@, border_spec())] + cells_parts(wc, ws, ws.len(), sub))
}

/// The lines of the first `k` rows, with the separator after the header row.
pub open spec fn table_body(rows: Seq<Seq<Seq<SView>>>, ws: Seq<nat>, k: nat) -> Seq<Seq<SView>>
    decreases k,
{
    if k == 0 {
        Seq::empty()
    } else {
        let i = (k - 1) as int;
        table_body(rows, ws, (k - 1) as nat) + row_lines(rows[i], ws) + (if i == 0 && rows.len() > 1 {
            seq![border_line(ws, "├"@, "┼"@, "┤"@)]
        } else {
            Seq::empty()
        })
    }
}

/// The lines of a table: nothing when it has no cells; else borders around
/// the rows.
pub open spec fn table_lines(rows: Seq<Seq<Seq<SView>>>, depth: nat, width: Option<usize>) -> Seq<Seq<SView>> {
    if rows.len() == 0 || num_cols(rows) == 0 {
        Seq::empty()
    } else {
        let eff = match width {
            Some(w) => Some(inside_bars(w as nat, depth)),
            None => None,
        };
        let ws = table_col_widths(rows, eff);
        seq![border_line(ws, "┌"@, "┬"@, "┐"@)] + table_body(rows, ws, rows.len()) + seq![border_line(ws, "└"@, "┴"@, "┘"@)]
    }
}

/// Multiplication that stops at `usize::MAX`.
pub fn sat_mul_exec(a: usize, b: usize) -> (r: usize)
    ensures
        r as nat == sat_mul(a as nat, b as nat),
{
    match a.checked_mul(b) {
        Some(p) => p,
        None => usize::MAX,
    }
}

/// A sequence of `usize` as naturals.
pub open spec fn nats(v: Seq<usize>) -> Seq<nat> {
    v.map_values(|x: usize| x as nat)
}

/// The number of columns of a table.
pub fn num_cols_exec(rows: &Vec<Vec<Vec<Span>>>) -> (r: usize)
    ensures
        r as nat == num_cols(rows_view(rows@)),
{
    let mut m: usize = 0;
    let mut i: usize = 0;
    while i < rows.len()
        invariant
            i <= rows.len(),
            m as nat == num_cols(rows_view(rows@.take(i as int))),
        decreases rows.len() - i,
    {
        assert(rows_view(rows@.take(i + 1)).drop_last() =~= rows_view(rows@.take(i as int)));
        if rows[i].len() > m {
            m = rows[i].len();
        }
        i = i + 1;
    }
    assert(rows@.take(rows.len() as int) =~= rows@);
    m
}

fn col_content_width_exec(rows: &Vec<Vec<Vec<Span>>>, c: usize) -> (r: usize)
    ensures
        r as nat == col_content_width(rows_view(rows@), c as int),
{
    let mut m: usize = 0;
    let mut i: usize = 0;
    while i < rows.len()
        invariant
            i <= rows.len(),
            m as nat == col_content_width(rows_view(rows@.take(i as int)), c as int),
        decreases rows.len() - i,
    {
        assert(rows_view(rows@.take(i + 1)).drop_last() =~= rows_view(rows@.take(i as int)));
        if c < rows[i].len() {
            let w = spans_display_width(&rows[i][c]);
            if w > m {
                m = w;
            }
        }
        i = i + 1;
    }
    assert(rows@.take(rows.len() as int) =~= rows@);
    m
}

fn widths_sum_exec(ws: &Vec<usize>) -> (r: usize)
    ensures
        r as nat == widths_sum(nats(ws@)),
{
    let mut t: usize = 0;
    let mut i: usize = 0;
    while i < ws.len()
        invariant
            i <= ws.len(),
            t as nat == widths_sum(nats(ws@.take(i as int))),
        decreases ws.len() - i,
    {
        assert(nats(ws@.take(i + 1)).drop_last() =~= nats(ws@.take(i as int)));
        t = t.saturating_add(ws[i]);
        i = i + 1;
    }
    assert(ws@.take(ws.len() as int) =~= ws@);
    t
}

/// Column widths of a table (see `table_col_widths`).
pub fn table_col_widths_exec(rows: &Vec<Vec<Vec<Span>>>, eff: Option<usize>) -> (r: Vec<usize>)
    ensures
        nats(r@) == table_col_widths(
            rows_view(rows@),
            match eff {
                Some(a) => Some(a as nat),
                None => None,
            },
        ),
{
    let ghost rv = rows_view(rows@);
    let n = num_cols_exec(rows);
    let mut ws: Vec<usize> = Vec::new();
    let mut c: usize = 0;
    while c < n
        invariant
            c <= n,
            n as nat == num_cols(rv),
            rv == rows_view(rows@),
            nats(ws@) == base_col_widths(rv).take(c as int),
        decreases n - c,
    {
        let w = col_content_width_exec(rows, c);
        let w2 = if w > TABLE_MIN_COL_WIDTH { w } else { TABLE_MIN_COL_WIDTH };
        let ghost o = ws@;
        ws.push(w2);
        assert(nats(ws@) =~= nats(o).push(w2 as nat));
        assert(base_col_widths(rv).take(c + 1) =~= base_col_widths(rv).take(c as int).push(base_col_widths(rv)[c as int]));
        c = c + 1;
    }
    assert(base_col_widths(rv).take(n as int) =~= base_col_widths(rv));
    let ghost base = nats(ws@);
    match eff {
        Some(aw) => {
            let sum = widths_sum_exec(&ws);
            let overhead = sat_mul_exec(n, TABLE_CELL_PAD).saturating_add(n).saturating_add(1);
            assert(overhead as nat == table_overhead(n as nat));
            if sum.saturating_add(overhead) > aw && n > 0 {
                let avail = aw.saturating_sub(overhead);
                let cur = if sum > 1 { sum } else { 1 };
                let mut out: Vec<usize> = Vec::new();
                let mut k: usize = 0;
                while k < n
                    invariant
                        k <= n,
                        n == ws.len(),
                        cur > 0,
                        base == nats(ws@),
                        forall|j: int| 0 <= j < k ==> (#[trigger] out@[j]) as nat == (if sat_mul(base[j], avail as nat) / (cur as nat) > TABLE_MIN_COL_WIDTH as nat {
                            sat_mul(base[j], avail as nat) / (cur as nat)
                        } else {
                            TABLE_MIN_COL_WIDTH as nat
                        }),
                        out.len() == k,
                    decreases n - k,
                {
                    let prod = sat_mul_exec(ws[k], avail);
                    let q = prod / cur;
                    let v = if q > TABLE_MIN_COL_WIDTH { q } else { TABLE_MIN_COL_WIDTH };
                    out.push(v);
                    k = k + 1;
                }
                let ghost target = table_col_widths(rv, Some(aw as nat));
                assert(nats(out@) =~= target);
                return out;
            }
            ws
        },
        None => ws,
    }
}

/// A horizontal table border (see `border_line`).
pub fn border_exec(ws: &Vec<usize>, left: &str, mid: &str, right: &str) -> (r: Vec<Span>)
    ensures
        spans_view(r@) == border_line(nats(ws@), left@, mid@, right@),
{
    let ghost wv = nats(ws@);
    let mut s = lit(left);
    let mut i: usize = 0;
    while i < ws.len()
        invariant
            i <= ws.len(),
            wv == nats(ws@),
            s@ == left@ + border_body(wv, mid@, i as nat),
        decreases ws.len() - i,
    {
        push_str(&mut s, repeat_str("─", ws[i].saturating_add(TABLE_CELL_PAD)).as_str());
        if i < ws.len() - 1 {
            push_str(&mut s, mid);
        }
        i = i + 1;
        assert(s@ =~= left@ + border_body(wv, mid@, i as nat));
    }
    push_str(&mut s, right);
    let mut r: Vec<Span> = Vec::new();
    r.push(Span { content: s, style: border_style() });
    assert(spans_view(r@) =~= border_line(wv, left@, mid@, right@));
    r
}

/// Models of wrapped cells.
pub open spec fn cells_view(wc: Seq<Vec<Vec<Span>>>) -> Seq<Seq<Seq<SView>>> {
    wc.map_values(|c: Vec<Vec<Span>>| lines_view(c@))
}

/// Appends the visual lines of one table row (see `row_lines`).
pub fn table_row_lines(lines: &mut Vec<Vec<Span>>, row: &Vec<Vec<Span>>, ws: &Vec<usize>)
    ensures
        lines_view(final(lines)@) == lines_view(old(lines)@) + row_lines(lines_view(row@), nats(ws@)),
{
    let ghost rv = lines_view(row@);
    let ghost wv = nats(ws@);
    let ghost wcs = wrapped_cells(rv, wv);
    let mut wc: Vec<Vec<Vec<Span>>> = Vec::new();
    let mut c: usize = 0;
    while c < ws.len()
        invariant
            c <= ws.len(),
            rv == lines_view(row@),
            wv == nats(ws@),
            wcs == wrapped_cells(rv, wv),
            cells_view(wc@) == wcs.take(c as int),
        decreases ws.len() - c,
    {
        let cell: Vec<Span> = if c < row.len() { crate::style::copy_spans(&row[c]) } else { Vec::new() };
        assert(spans_view(cell@) =~= row_cell(rv, c as int));
        let wrapped = wrap_spans(&cell, ws[c]);
        let ghost o = wc@;
        wc.push(wrapped);
        assert(cells_view(wc@) =~= cells_view(o).push(lines_view(wrapped@)));
        assert(wcs.take(c + 1) =~= wcs.take(c as int).push(wcs[c as int]));
        c = c + 1;
    }
    assert(wcs.take(ws.len() as int) =~= wcs);
    let mut h: usize = 0;
    let mut k: usize = 0;
    while k < wc.len()
        invariant
            k <= wc.len(),
            cells_view(wc@) == wcs,
            h as nat == row_height(wcs.take(k as int)),
        decreases wc.len() - k,
    {
        assert(wcs.take(k + 1).drop_last() =~= wcs.take(k as int));
        if wc[k].len() > h {
            h = wc[k].len();
        }
        k = k + 1;
    }
    assert(wcs.take(wc.len() as int) =~= wcs);
    let ghost base = lines_view(lines@);
    let ghost target = row_lines(rv, wv);
    let mut sub: usize = 0;
    while sub < h
        invariant
            sub <= h,
            h as nat == row_height(wcs),
            cells_view(wc@) == wcs,
            wc.len() == ws.len(),
            wv == nats(ws@),
            wcs == wrapped_cells(rv, wv),
            target == row_lines(rv, wv),
            lines_view(lines@) == base + target.take(sub as int),
        decreases h - sub,
    {
        let mut line: Vec<Span> = Vec::new();
        line.push(Span { content: lit("│ "), style: border_style() });
        assert(spans_view(line@) =~= seq![("│ "@, border_spec())]);
        let mut c2: usize = 0;
        while c2 < ws.len()
            invariant
                c2 <= ws.len(),
                cells_view(wc@) == wcs,
                wc.len() == ws.len(),
                wv == nats(ws@),
                spans_view(line@) == seq![("│ "@, border_spec())] + cells_parts(wcs, wv, c2 as nat, sub as int),
            decreases ws.len() - c2,
        {
            assert(wcs[c2 as int] == lines_view(wc@[c2 as int]@));
            let l: Vec<Span> = if sub < wc[c2].len() { crate::style::copy_spans(&wc[c2][sub]) } else { Vec::new() };
            let ghost lv = if 0 <= sub < wcs[c2 as int].len() { wcs[c2 as int][sub as int] } else { Seq::<SView>::empty() };
            assert(spans_view(l@) =~= lv);
            let w = spans_display_width(&l);
            let pad = ws[c2].saturating_sub(w);
            let ghost l0 = spans_view(line@);
            extend_spans(&mut line, l);
            let mut tail = repeat_str(" ", pad);
            push_str(&mut tail, " │ ");
            let ghost l1 = spans_view(line@);
            line.push(Span { content: tail, style: border_style() });
            assert(spans_view(line@) =~= l1.push((repeat(" "@, pad as nat) + " │ "@, border_spec())));
            assert(cell_part(wcs, wv, c2 as int, sub as int) =~= lv + seq![(repeat(" "@, pad as nat) + " │ "@, border_spec())]);
            c2 = c2 + 1;
            assert(spans_view(line@) =~= seq![("│ "@, border_spec())] + cells_parts(wcs, wv, c2 as nat, sub as int));
        }
        let ghost o = lines@;
        lines.push(line);
        assert(lines_view(lines@) =~= lines_view(o).push(spans_view(line@)));
        assert(target.take(sub + 1) =~= target.take(sub as int).push(target[sub as int]));
        sub = sub + 1;
    }
    assert(target.take(h as int) =~= target);
}

/// Lays out a table (see `table_lines`).
pub fn rewrap_table(lines: &mut Vec<Vec<Span>>, rows: &Vec<Vec<Vec<Span>>>, depth: usize, width: Option<usize>)
    ensures
        lines_view(final(lines)@) == lines_view(old(lines)@) + table_lines(rows_view(rows@), depth as nat, width),
{
    let ghost rv = rows_view(rows@);
    if rows.len() == 0 {
        assert(lines_view(lines@) =~= lines_view(lines@) + Seq::<Seq<SView>>::empty());
        return;
    }
    let n = num_cols_exec(rows);
    if n == 0 {
        assert(lines_view(lines@) =~= lines_view(lines@) + Seq::<Seq<SView>>::empty());
        return;
    }
    let eff: Option<usize> = match width {
        Some(w) => Some(inside_bars_exec(w, depth)),
        None => None,
    };
    let ws = table_col_widths_exec(rows, eff);
    let ghost wv = nats(ws@);
    let ghost base = lines_view(lines@);
    let top = border_exec(&ws, "┌", "┬", "┐");
    let ghost o0 = lines@;
    lines.push(top);
    assert(lines_view(lines@) =~= lines_view(o0).push(spans_view(top@)));
    let mut i: usize = 0;
    while i < rows.len()
        invariant
            i <= rows.len(),
            rv == rows_view(rows@),
            wv == nats(ws@),
            lines_view(lines@) == base + seq![border_line(wv, "┌"@, "┬"@, "┐"@)] + table_body(rv, wv, i as nat),
        decreases rows.len() - i,
    {
        let ghost before = lines_view(lines@);
        assert(rv[i as int] == lines_view(rows@[i as int]@));
        table_row_lines(lines, &rows[i], &ws);
        if i == 0 && rows.len() > 1 {
            let sep = border_exec(&ws, "├", "┼", "┤");
            let ghost o = lines@;
            lines.push(sep);
            assert(lines_view(lines@) =~= lines_view(o).push(spans_view(sep@)));
        }
        i = i + 1;
        assert(lines_view(lines@) =~= base + seq![border_line(wv, "┌"@, "┬"@, "┐"@)] + table_body(rv, wv, i as nat));
    }
    let bottom = border_exec(&ws, "└", "┴", "┘");
    let ghost o1 = lines@;
    lines.push(bottom);
    assert(lines_view(lines@) =~= lines_view(o1).push(spans_view(bottom@)));
    assert(lines_view(lines@) =~= base + table_lines(rv, depth as nat, width));
}

/// Model of a rendered block.
pub enum BlockView {
    StyledLine { spans: Seq<SView>, depth: nat, marker_width: nat, heading_level: Option<u8> },
    CodeBlock { lang: Seq<char>, lines: Seq<Seq<SView>>, depth: nat },
    HorizontalRule { depth: nat },
    BlankLine { depth: nat },
    Table { rows: Seq<Seq<Seq<SView>>>, alignments: Seq<ColumnAlign>, depth: nat },
}

/// The model of a block.
pub open spec fn block_view(b: RenderedBlock) -> BlockView {
    match b {
        RenderedBlock::StyledLine { spans, blockquote_depth, list_marker_width, heading_level } => BlockView::StyledLine {
            spans: spans_view(spans@),
            depth: blockquote_depth as nat,
            marker_width: list_marker_width as nat,
            heading_level: heading_level,
        },
        RenderedBlock::CodeBlock { lang, highlighted_lines, blockquote_depth } => BlockView::CodeBlock {
            lang: lang@,
            lines: lines_view(highlighted_lines@),
            depth: blockquote_depth as nat,
        },
        RenderedBlock::HorizontalRule { blockquote_depth } => BlockView::HorizontalRule { depth: blockquote_depth as nat },
        RenderedBlock::BlankLine { blockquote_depth } => BlockView::BlankLine { depth: blockquote_depth as nat },
        RenderedBlock::Table { rows, alignments, blockquote_depth } => BlockView::Table {
            rows: rows_view(rows@),
            alignments: alignments@,
            depth: blockquote_depth as nat,
        },
    }
}

/// Models of a sequence of blocks.
pub open spec fn blocks_view(bs: Seq<RenderedBlock>) -> Seq<BlockView> {
    bs.map_values(|b: RenderedBlock| block_view(b))
}

/// The lines of one block at `width` (unwrapped when `None`).
pub open spec fn block_lines(b: BlockView, width: Option<usize>) -> Seq<Seq<SView>> {
    match b {
        BlockView::StyledLine { spans, depth, marker_width, .. } => styled_lines(spans, depth, marker_width, width),
        BlockView::CodeBlock { lang, lines, depth } => code_lines(lang, lines, depth, width),
        BlockView::HorizontalRule { depth } => hr_lines(depth, width),
        BlockView::BlankLine { depth } => blank_lines(depth),
        BlockView::Table { rows, depth, .. } => table_lines(rows, depth, width),
    }
}

/// The lines of a sequence of blocks, in order.
pub open spec fn blocks_lines(bs: Seq<BlockView>, width: Option<usize>) -> Seq<Seq<SView>>
    decreases bs.len(),
{
    if bs.len() == 0 {
        Seq::empty()
    } else {
        blocks_lines(bs.drop_last(), width) + block_lines(bs.last(), width)
    }
}

/// For each block, the index of its first line.
pub open spec fn block_starts(bs: Seq<BlockView>, width: Option<usize>) -> Seq<nat>
    decreases bs.len(),
{
    if bs.len() == 0 {
        Seq::empty()
    } else {
        block_starts(bs.drop_last(), width).push(blocks_lines(bs.drop_last(), width).len())
    }
}

/// Lays out one block, appending its lines.
pub fn rewrap_block(lines: &mut Vec<Vec<Span>>, b: &RenderedBlock, width: Option<usize>)
    ensures
        lines_view(final(lines)@) == lines_view(old(lines)@) + block_lines(block_view(*b), width),
{
    match b {
        RenderedBlock::StyledLine { spans, blockquote_depth, list_marker_width, .. } => {
            rewrap_styled_line(lines, spans, *blockquote_depth, *list_marker_width, width);
        },
        RenderedBlock::CodeBlock { lang, highlighted_lines, blockquote_depth } => {
            rewrap_code_block(lines, lang, highlighted_lines, *blockquote_depth, width);
        },
        RenderedBlock::HorizontalRule { blockquote_depth } => {
            rewrap_hr(lines, *blockquote_depth, width);
        },
        RenderedBlock::BlankLine { blockquote_depth } => {
            rewrap_blank_line(lines, *blockquote_depth);
        },
        RenderedBlock::Table { rows, blockquote_depth, .. } => {
            rewrap_table(lines, rows, *blockquote_depth, width);
        },
    }
}

/// Lays out blocks at `width` (unwrapped when `None`): the display lines, and
/// for each block the index of its first line.
pub fn rewrap_blocks(blocks: &Vec<RenderedBlock>, width: Option<usize>) -> (r: (Vec<Vec<Span>>, Vec<usize>))
    ensures
        lines_view(r.0@) == blocks_lines(blocks_view(blocks@), width),
        nats(r.1@) == block_starts(blocks_view(blocks@), width),
{
    let mut lines: Vec<Vec<Span>> = Vec::new();
    let mut starts: Vec<usize> = Vec::new();
    let mut i: usize = 0;
    assert(lines_view(lines@) =~= Seq::<Seq<SView>>::empty());
    while i < blocks.len()
        invariant
            i <= blocks.len(),
            lines_view(lines@) == blocks_lines(blocks_view(blocks@.take(i as int)), width),
            nats(starts@) == block_starts(blocks_view(blocks@.take(i as int)), width),
        decreases blocks.len() - i,
    {
        assert(blocks_view(blocks@.take(i + 1)).drop_last() =~= blocks_view(blocks@.take(i as int)));
        let ghost o = starts@;
        starts.push(lines.len());
        assert(nats(starts@) =~= nats(o).push(lines@.len() as nat));
        rewrap_block(&mut lines, &blocks[i], width);
        i = i + 1;
    }
    assert(blocks@.take(blocks.len() as int) =~= blocks@);
    (lines, starts)
}

/// There is one start line per block.
pub proof fn lemma_block_starts_len(bs: Seq<BlockView>, width: Option<usize>)
    ensures
        block_starts(bs, width).len() == bs.len(),
    decreases bs.len(),
{
    if bs.len() > 0 {
        lemma_block_starts_len(bs.drop_last(), width);
    }
}

} // verus!
