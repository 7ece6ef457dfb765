//! Word wrapping of styled spans to a column budget.
//!
//! The text is cut into grapheme clusters, the clusters into words (runs of
//! non-white-space clusters; each white-space cluster is a word of its own),
//! and the words are laid out greedily: a word that fits goes on the current
//! line, one that does not starts a new line, and a word wider than the budget
//! is broken between clusters. White space is dropped at line starts and where
//! it does not fit; a finished line loses its trailing white space. Adjacent
//! clusters of one style are merged back into one span.

use crate::style::{span_view, spans_view, Span, Style};
use crate::text::{all_ws, copy_string, display_width, grapheme_clusters, graphemes_of, str_display_width, trim_end};
use vstd::prelude::*;

verus! {

/// Model of a grapheme cluster with its style and display width.
pub type GView = (Seq<char>, Style, nat);

/// Model of a span: its text and style.
pub type SView = (Seq<char>, Style);

/// Layout state: finished lines, the clusters of the current line and the
/// current line's width.
pub type LayoutState = (Seq<Seq<GView>>, Seq<GView>, nat);

/// Addition that stops at `usize::MAX`.
pub open spec fn sat_add(a: nat, b: nat) -> nat {
    if a + b > usize::MAX {
        usize::MAX as nat
    } else {
        a + b
    }
}

/// The clusters of one span.
pub open spec fn span_gs(s: SView) -> Seq<GView> {
    grapheme_clusters(s.0).map_values(|g: Seq<char>| (g, s.1, display_width(g)))
}

/// The clusters of a sequence of spans, in order.
pub open spec fn spans_gs(spans: Seq<SView>) -> Seq<GView>
    decreases spans.len(),
{
    if spans.len() == 0 {
        Seq::empty()
    } else {
        spans_gs(spans.drop_last()) + span_gs(spans.last())
    }
}

/// A cluster made only of white space.
pub open spec fn is_ws_g(g: GView) -> bool {
    all_ws(g.0)
}

/// The words of a cluster sequence: each white-space cluster alone, and
/// maximal runs of other clusters.
pub open spec fn words_of(gs: Seq<GView>) -> Seq<Seq<GView>>
    decreases gs.len(),
{
    if gs.len() == 0 {
        Seq::empty()
    } else {
        let w = words_of(gs.drop_last());
        let g = gs.last();
        if !is_ws_g(g) && w.len() > 0 && w.last().len() > 0 && !is_ws_g(w.last()[0]) {
            w.update(w.len() - 1, w.last().push(g))
        } else {
            w.push(seq![g])
        }
    }
}

/// Total width of a cluster sequence (saturating).
pub open spec fn gs_width(gs: Seq<GView>) -> nat
    decreases gs.len(),
{
    if gs.len() == 0 {
        0
    } else {
        sat_add(gs_width(gs.drop_last()), gs.last().2)
    }
}

/// Clusters merged into spans: a cluster joins the previous span when the
/// styles are equal.
pub open spec fn merge_gs(gs: Seq<GView>) -> Seq<SView>
    decreases gs.len(),
{
    if gs.len() == 0 {
        Seq::empty()
    } else {
        let m = merge_gs(gs.drop_last());
        let g = gs.last();
        if m.len() > 0 && m.last().1 == g.1 {
            m.update(m.len() - 1, (m.last().0 + g.0, g.1))
        } else {
            m.push((g.0, g.1))
        }
    }
}

/// The last span loses its trailing white space, and goes if nothing is left.
pub open spec fn trim_last(m: Seq<SView>) -> Seq<SView> {
    if m.len() == 0 {
        m
    } else {
        let t = trim_end(m.last().0);
        if t.len() == 0 {
            m.drop_last()
        } else {
            m.update(m.len() - 1, (t, m.last().1))
        }
    }
}

/// A finished line of clusters as spans.
pub open spec fn render_line(gs: Seq<GView>) -> Seq<SView> {
    trim_last(merge_gs(gs))
}

/// Ends the current line.
pub open spec fn flush(st: LayoutState) -> LayoutState {
    (st.0.push(st.1), Seq::empty(), 0)
}

/// Appends one cluster to the current line.
pub open spec fn push_g(st: LayoutState, g: GView) -> LayoutState {
    (st.0, st.1.push(g), sat_add(st.2, g.2))
}

/// Appends a whole word to the current line.
pub open spec fn push_word(st: LayoutState, w: Seq<GView>) -> LayoutState {
    (st.0, st.1 + w, sat_add(st.2, gs_width(w)))
}

/// Places one cluster of an over-wide word: a double-width cluster that
/// would overhang goes to a new line, as does any cluster that would exceed
/// the budget.
pub open spec fn char_step(st: LayoutState, g: GView, max: nat) -> LayoutState {
    let st1 = if g.2 == 2 && sat_add(st.2, 2) > max { flush(st) } else { st };
    let st2 = if sat_add(st1.2, g.2) > max { flush(st1) } else { st1 };
    push_g(st2, g)
}

/// Places the clusters of an over-wide word one by one.
pub open spec fn char_wrap(st: LayoutState, w: Seq<GView>, max: nat) -> LayoutState
    decreases w.len(),
{
    if w.len() == 0 {
        st
    } else {
        char_step(char_wrap(st, w.drop_last(), max), w.last(), max)
    }
}

/// Places one word.
pub open spec fn word_step(st: LayoutState, w: Seq<GView>, max: nat) -> LayoutState {
    if w.len() == 0 {
        st
    } else if is_ws_g(w[0]) {
        if st.2 > 0 && sat_add(st.2, w[0].2) <= max {
            push_g(st, w[0])
        } else {
            st
        }
    } else if gs_width(w) <= max {
        if sat_add(st.2, gs_width(w)) <= max {
            push_word(st, w)
        } else {
            push_word(flush(st), w)
        }
    } else {
        char_wrap(st, w, max)
    }
}

/// The layout state after placing `ws` in order.
pub open spec fn layout(ws: Seq<Seq<GView>>, max: nat) -> LayoutState
    decreases ws.len(),
{
    if ws.len() == 0 {
        (Seq::empty(), Seq::empty(), 0)
    } else {
        word_step(layout(ws.drop_last(), max), ws.last(), max)
    }
}

/// The lines of clusters once the last line is ended; never empty.
pub open spec fn finish(st: LayoutState) -> Seq<Seq<GView>> {
    let st2 = if st.1.len() > 0 { flush(st) } else { st };
    if st2.0.len() == 0 {
        seq![Seq::empty()]
    } else {
        st2.0
    }
}

/// The lines of clusters for a positive budget.
pub open spec fn wrap_lines(spans: Seq<SView>, max: nat) -> Seq<Seq<GView>> {
    finish(layout(words_of(spans_gs(spans)), max))
}

/// With a budget of zero: one line per cluster of positive width.
pub open spec fn zero_width_lines(gs: Seq<GView>) -> Seq<Seq<SView>>
    decreases gs.len(),
{
    if gs.len() == 0 {
        Seq::empty()
    } else {
        let prev = zero_width_lines(gs.drop_last());
        let g = gs.last();
        if g.2 > 0 {
            prev.push(seq![(g.0, g.1)])
        } else {
            prev
        }
    }
}

/// The wrapped lines of `spans` at budget `max`, as spans.
pub open spec fn wrap_spec(spans: Seq<SView>, max: nat) -> Seq<Seq<SView>> {
    if spans.len() == 0 {
        seq![Seq::empty()]
    } else if max == 0 {
        let z = zero_width_lines(spans_gs(spans));
        if z.len() == 0 {
            seq![Seq::empty()]
        } else {
            z
        }
    } else {
        wrap_lines(spans, max).map_values(|l: Seq<GView>| render_line(l))
    }
}

/// A grapheme cluster with its style and display width.
pub struct Grapheme {
    pub text: String,
    pub style: Style,
    pub width: usize,
}

/// Model of a cluster.
pub open spec fn gview(g: Grapheme) -> GView {
    (g.text@, g.style, g.width as nat)
}

/// Models of a sequence of clusters.
pub open spec fn gviews(gs: Seq<Grapheme>) -> Seq<GView> {
    gs.map_values(|g: Grapheme| gview(g))
}

/// Models of lines of spans.
pub open spec fn lines_view(ls: Seq<Vec<Span>>) -> Seq<Seq<SView>> {
    ls.map_values(|l: Vec<Span>| spans_view(l@))
}

proof fn lemma_spans_gs_push(spans: Seq<SView>, s: SView)
    ensures
        spans_gs(spans.push(s)) == spans_gs(spans) + span_gs(s),
{
    assert(spans.push(s).drop_last() =~= spans);
}

/// Grapheme clusters, with style and width, of the spans in order.
pub fn collect_graphemes(spans: &Vec<Span>) -> (r: Vec<Grapheme>)
    ensures
        gviews(r@) == spans_gs(spans_view(spans@)),
{
    let mut r: Vec<Grapheme> = Vec::new();
    let mut i: usize = 0;
    while i < spans.len()
        invariant
            i <= spans.len(),
            gviews(r@) == spans_gs(spans_view(spans@.take(i as int))),
        decreases spans.len() - i,
    {
        let gs = graphemes_of(spans[i].content.as_str());
        let st = spans[i].style;
        let ghost base = gviews(r@);
        let ghost sv = span_view(spans@[i as int]);
        let mut j: usize = 0;
        while j < gs.len()
            invariant
                j <= gs.len(),
                st == sv.1,
                gs@.map_values(|g: String| g@) == grapheme_clusters(sv.0),
                gviews(r@) == base + span_gs(sv).take(j as int),
            decreases gs.len() - j,
        {
            let w = str_display_width(gs[j].as_str());
            let t = copy_string(&gs[j]);
            let ghost old_r = r@;
            r.push(Grapheme { text: t, style: st, width: w });
            assert(gs@.map_values(|g: String| g@)[j as int] == gs@[j as int]@);
            assert(gviews(r@) =~= gviews(old_r).push(gview(r@.last())));
            assert(span_gs(sv).take(j + 1) =~= span_gs(sv).take(j as int).push(span_gs(sv)[j as int]));
            j = j + 1;
        }
        assert(span_gs(sv).take(j as int) =~= span_gs(sv));
        proof {
            assert(spans_view(spans@.take(i + 1)) =~= spans_view(spans@.take(i as int)).push(sv));
            lemma_spans_gs_push(spans_view(spans@.take(i as int)), sv);
        }
        i = i + 1;
    }
    assert(spans@.take(spans.len() as int) =~= spans@);
    r
}

/// Models of a sequence of words.
pub open spec fn wviews(ws: Seq<Vec<Grapheme>>) -> Seq<Seq<GView>> {
    ws.map_values(|w: Vec<Grapheme>| gviews(w@))
}

/// Whether every character of `s` is white space.
pub fn is_all_ws(s: &String) -> (r: bool)
    ensures
        r == all_ws(s@),
{
    let v = crate::text::chars_of(s.as_str());
    let mut i: usize = 0;
    while i < v.len()
        invariant
            v@ == s@,
            i <= v.len(),
            forall|j: int| 0 <= j < i ==> crate::text::is_ws_char(#[trigger] v@[j]),
        decreases v.len() - i,
    {
        if !crate::text::char_is_whitespace(v[i]) {
            return false;
        }
        i = i + 1;
    }
    true
}

/// A copy of a cluster.
pub fn copy_grapheme(g: &Grapheme) -> (r: Grapheme)
    ensures
        gview(r) == gview(*g),
{
    Grapheme { text: copy_string(&g.text), style: g.style, width: g.width }
}

/// Splits clusters into words.
pub fn group_words(gs: &Vec<Grapheme>) -> (r: Vec<Vec<Grapheme>>)
    ensures
        wviews(r@) == words_of(gviews(gs@)),
        forall|k: int| 0 <= k < r@.len() ==> (#[trigger] r@[k]).len() > 0,
{
    let mut words: Vec<Vec<Grapheme>> = Vec::new();
    let mut cur: Vec<Grapheme> = Vec::new();
    let mut i: usize = 0;
    while i < gs.len()
        invariant
            i <= gs.len(),
            forall|k: int| 0 <= k < words@.len() ==> (#[trigger] words@[k]).len() > 0,
            cur.len() > 0 ==> !is_ws_g(gview(cur@[0])),
            words_of(gviews(gs@.take(i as int))) == if cur.len() > 0 {
                wviews(words@).push(gviews(cur@))
            } else {
                wviews(words@)
            },
            cur.len() == 0 && words@.len() > 0 ==> is_ws_g(gview(words@.last()[0])),
        decreases gs.len() - i,
    {
        let g = copy_grapheme(&gs[i]);
        let ws = is_all_ws(&g.text);
        let ghost prev = gviews(gs@.take(i as int));
        let ghost old_words = words@;
        let ghost old_cur = cur@;
        assert(gviews(gs@.take(i + 1)) =~= prev.push(gview(gs@[i as int])));
        assert(gviews(gs@.take(i + 1)).drop_last() =~= prev);
        if ws {
            if cur.len() > 0 {
                let mut done: Vec<Grapheme> = Vec::new();
                std::mem::swap(&mut done, &mut cur);
                words.push(done);
                assert(wviews(words@) =~= wviews(old_words).push(gviews(old_cur)));
            }
            let mut single: Vec<Grapheme> = Vec::new();
            single.push(g);
            assert(gviews(single@) =~= seq![gview(gs@[i as int])]);
            let ghost w2 = words@;
            words.push(single);
            assert(wviews(words@) =~= wviews(w2).push(seq![gview(gs@[i as int])]));
        } else {
            cur.push(g);
            assert(gviews(cur@) =~= gviews(old_cur).push(gview(gs@[i as int])));
            proof {
                if old_cur.len() == 0 {
                    assert(gviews(cur@) =~= seq![gview(gs@[i as int])]);
                }
            }
        }
        i = i + 1;
    }
    if cur.len() > 0 {
        let ghost old_words = words@;
        let ghost old_cur = cur@;
        words.push(cur);
        assert(wviews(words@) =~= wviews(old_words).push(gviews(old_cur)));
    }
    assert(gs@.take(gs.len() as int) =~= gs@);
    words
}

/// Clusters merged into spans, the last span trimmed of trailing white space.
pub fn render_graphemes(gs: &Vec<Grapheme>) -> (r: Vec<Span>)
    ensures
        spans_view(r@) == render_line(gviews(gs@)),
{
    let mut m: Vec<Span> = Vec::new();
    let mut i: usize = 0;
    while i < gs.len()
        invariant
            i <= gs.len(),
            spans_view(m@) == merge_gs(gviews(gs@.take(i as int))),
        decreases gs.len() - i,
    {
        let ghost prev = gviews(gs@.take(i as int));
        let ghost g = gview(gs@[i as int]);
        assert(gviews(gs@.take(i + 1)) =~= prev.push(g));
        assert(gviews(gs@.take(i + 1)).drop_last() =~= prev);
        let ghost old_m = spans_view(m@);
        let n = m.len();
        if n > 0 && m[n - 1].style == gs[i].style {
            let mut last = m.pop().unwrap();
            assert(spans_view(m@) =~= old_m.drop_last());
            crate::text::push_str(&mut last.content, gs[i].text.as_str());
            let ghost m2 = spans_view(m@);
            m.push(last);
            assert(spans_view(m@) =~= m2.push(span_view(last)));
            assert(spans_view(m@) =~= old_m.update(old_m.len() - 1, (old_m.last().0 + g.0, g.1)));
        } else {
            let t = copy_string(&gs[i].text);
            m.push(Span { content: t, style: gs[i].style });
            assert(spans_view(m@) =~= old_m.push((g.0, g.1)));
        }
        i = i + 1;
    }
    assert(gs@.take(gs.len() as int) =~= gs@);
    let ghost merged = spans_view(m@);
    if m.len() > 0 {
        let last = m.pop().unwrap();
        assert(spans_view(m@) =~= merged.drop_last());
        let t = crate::text::trim_end_string(&last.content);
        if !t.as_str().is_empty() {
            let ghost m2 = spans_view(m@);
            m.push(Span { content: t, style: last.style });
            assert(spans_view(m@) =~= m2.push((t@, last.style)));
            assert(spans_view(m@) =~= merged.update(merged.len() - 1, (t@, merged.last().1)));
        }
    }
    m
}

/// Current line and width bookkeeping for the exec layout.
pub struct Layout {
    pub lines: Vec<Vec<Span>>,
    pub cur: Vec<Grapheme>,
    pub cur_w: usize,
}

/// The layout state that a `Layout` stands for, given the unrendered lines.
pub open spec fn layout_matches(l: Layout, st: LayoutState) -> bool {
    &&& lines_view(l.lines@) == st.0.map_values(|x: Seq<GView>| render_line(x))
    &&& gviews(l.cur@) == st.1
    &&& l.cur_w as nat == st.2
}

fn sat_add_exec(a: usize, b: usize) -> (r: usize)
    ensures
        r as nat == sat_add(a as nat, b as nat),
{
    a.saturating_add(b)
}

fn flush_exec(l: &mut Layout, Ghost(st): Ghost<LayoutState>)
    requires
        layout_matches(*old(l), st),
    ensures
        layout_matches(*final(l), flush(st)),
{
    let rendered = render_graphemes(&l.cur);
    let ghost old_lines = l.lines@;
    l.lines.push(rendered);
    assert(lines_view(l.lines@) =~= lines_view(old_lines).push(render_line(st.1)));
    assert(st.0.push(st.1).map_values(|x: Seq<GView>| render_line(x)) =~= st.0.map_values(
        |x: Seq<GView>| render_line(x),
    ).push(render_line(st.1)));
    l.cur = Vec::new();
    l.cur_w = 0;
    assert(gviews(l.cur@) =~= Seq::<GView>::empty());
}

fn push_g_exec(l: &mut Layout, g: &Grapheme, Ghost(st): Ghost<LayoutState>)
    requires
        layout_matches(*old(l), st),
    ensures
        layout_matches(*final(l), push_g(st, gview(*g))),
{
    let ghost old_cur = l.cur@;
    let c = copy_grapheme(g);
    l.cur.push(c);
    assert(gviews(l.cur@) =~= gviews(old_cur).push(gview(*g)));
    l.cur_w = sat_add_exec(l.cur_w, g.width);
}

fn word_width_exec(w: &Vec<Grapheme>) -> (r: usize)
    ensures
        r as nat == gs_width(gviews(w@)),
{
    let mut total: usize = 0;
    let mut i: usize = 0;
    while i < w.len()
        invariant
            i <= w.len(),
            total as nat == gs_width(gviews(w@.take(i as int))),
        decreases w.len() - i,
    {
        assert(gviews(w@.take(i + 1)).drop_last() =~= gviews(w@.take(i as int)));
        total = sat_add_exec(total, w[i].width);
        i = i + 1;
    }
    assert(w@.take(w.len() as int) =~= w@);
    total
}

fn push_word_exec(l: &mut Layout, w: &Vec<Grapheme>, Ghost(st): Ghost<LayoutState>)
    requires
        layout_matches(*old(l), st),
    ensures
        layout_matches(*final(l), push_word(st, gviews(w@))),
{
    let ww = word_width_exec(w);
    let ghost base = gviews(l.cur@);
    let mut i: usize = 0;
    while i < w.len()
        invariant
            i <= w.len(),
            lines_view(l.lines@) == st.0.map_values(|x: Seq<GView>| render_line(x)),
            l.cur_w == old(l).cur_w,
            gviews(l.cur@) == base + gviews(w@.take(i as int)),
        decreases w.len() - i,
    {
        let ghost oc = l.cur@;
        let c = copy_grapheme(&w[i]);
        l.cur.push(c);
        assert(gviews(l.cur@) =~= gviews(oc).push(gview(w@[i as int])));
        assert(gviews(w@.take(i + 1)) =~= gviews(w@.take(i as int)).push(gview(w@[i as int])));
        i = i + 1;
    }
    assert(w@.take(w.len() as int) =~= w@);
    l.cur_w = sat_add_exec(l.cur_w, ww);
}

fn char_wrap_exec(l: &mut Layout, w: &Vec<Grapheme>, max: usize, Ghost(st): Ghost<LayoutState>)
    requires
        layout_matches(*old(l), st),
    ensures
        layout_matches(*final(l), char_wrap(st, gviews(w@), max as nat)),
{
    let mut i: usize = 0;
    while i < w.len()
        invariant
            i <= w.len(),
            layout_matches(*l, char_wrap(st, gviews(w@.take(i as int)), max as nat)),
        decreases w.len() - i,
    {
        let ghost s0 = char_wrap(st, gviews(w@.take(i as int)), max as nat);
        let ghost g = gview(w@[i as int]);
        assert(gviews(w@.take(i + 1)).drop_last() =~= gviews(w@.take(i as int)));
        let gw = w[i].width;
        let ghost s1 = if g.2 == 2 && sat_add(s0.2, 2) > max { flush(s0) } else { s0 };
        if gw == 2 && sat_add_exec(l.cur_w, 2) > max {
            flush_exec(l, Ghost(s0));
        }
        let ghost s2 = if sat_add(s1.2, g.2) > max { flush(s1) } else { s1 };
        if sat_add_exec(l.cur_w, gw) > max {
            flush_exec(l, Ghost(s1));
        }
        push_g_exec(l, &w[i], Ghost(s2));
        i = i + 1;
    }
    assert(w@.take(w.len() as int) =~= w@);
}

fn word_step_exec(l: &mut Layout, w: &Vec<Grapheme>, max: usize, Ghost(st): Ghost<LayoutState>)
    requires
        layout_matches(*old(l), st),
    ensures
        layout_matches(*final(l), word_step(st, gviews(w@), max as nat)),
{
    if w.len() == 0 {
        return;
    }
    let ws = is_all_ws(&w[0].text);
    if ws {
        if l.cur_w > 0 && sat_add_exec(l.cur_w, w[0].width) <= max {
            push_g_exec(l, &w[0], Ghost(st));
        }
    } else {
        let ww = word_width_exec(w);
        if ww <= max {
            if sat_add_exec(l.cur_w, ww) <= max {
                push_word_exec(l, w, Ghost(st));
            } else {
                flush_exec(l, Ghost(st));
                push_word_exec(l, w, Ghost(flush(st)));
            }
        } else {
            char_wrap_exec(l, w, max, Ghost(st));
        }
    }
}

/// Lines of clusters laid out greedily, rendered as spans (positive budget).
fn layout_exec(words: &Vec<Vec<Grapheme>>, max: usize) -> (r: Vec<Vec<Span>>)
    ensures
        lines_view(r@) == finish(layout(wviews(words@), max as nat)).map_values(
            |x: Seq<GView>| render_line(x),
        ),
{
    let mut l = Layout { lines: Vec::new(), cur: Vec::new(), cur_w: 0 };
    assert(lines_view(l.lines@) =~= Seq::<Seq<GView>>::empty().map_values(|x: Seq<GView>| render_line(x)));
    assert(gviews(l.cur@) =~= Seq::<GView>::empty());
    let mut k: usize = 0;
    while k < words.len()
        invariant
            k <= words.len(),
            layout_matches(l, layout(wviews(words@.take(k as int)), max as nat)),
        decreases words.len() - k,
    {
        let ghost s0 = layout(wviews(words@.take(k as int)), max as nat);
        assert(wviews(words@.take(k + 1)).drop_last() =~= wviews(words@.take(k as int)));
        assert(wviews(words@.take(k + 1)).last() == gviews(words@[k as int]@));
        word_step_exec(&mut l, &words[k], max, Ghost(s0));
        k = k + 1;
    }
    assert(words@.take(words.len() as int) =~= words@);
    let ghost st = layout(wviews(words@), max as nat);
    if l.cur.len() > 0 {
        flush_exec(&mut l, Ghost(st));
    }
    if l.lines.len() == 0 {
        let one = single_empty_line();
        assert(render_line(Seq::<GView>::empty()) =~= Seq::<SView>::empty());
        assert(lines_view(one@) =~= seq![Seq::<GView>::empty()].map_values(|x: Seq<GView>| render_line(x)));
        return one;
    }
    l.lines
}

/// With a zero budget: one single-span line per cluster of positive width.
fn zero_width_exec(gs: &Vec<Grapheme>) -> (r: Vec<Vec<Span>>)
    ensures
        lines_view(r@) == zero_width_lines(gviews(gs@)),
{
    let mut r: Vec<Vec<Span>> = Vec::new();
    let mut i: usize = 0;
    while i < gs.len()
        invariant
            i <= gs.len(),
            lines_view(r@) == zero_width_lines(gviews(gs@.take(i as int))),
        decreases gs.len() - i,
    {
        assert(gviews(gs@.take(i + 1)).drop_last() =~= gviews(gs@.take(i as int)));
        if gs[i].width > 0 {
            let ghost old_r = r@;
            let mut one: Vec<Span> = Vec::new();
            one.push(Span { content: copy_string(&gs[i].text), style: gs[i].style });
            assert(spans_view(one@) =~= seq![(gs@[i as int].text@, gs@[i as int].style)]);
            r.push(one);
            assert(lines_view(r@) =~= lines_view(old_r).push(seq![(gs@[i as int].text@, gs@[i as int].style)]));
        }
        i = i + 1;
    }
    assert(gs@.take(gs.len() as int) =~= gs@);
    r
}

/// One empty line.
pub fn single_empty_line() -> (r: Vec<Vec<Span>>)
    ensures
        lines_view(r@) == seq![Seq::<SView>::empty()],
{
    let e: Vec<Span> = Vec::new();
    assert(spans_view(e@) =~= Seq::<SView>::empty());
    let mut one: Vec<Vec<Span>> = Vec::new();
    one.push(e);
    assert(lines_view(one@) =~= seq![spans_view(e@)]);
    one
}

/// Word-wraps `spans` to `max_width` columns. See the module documentation;
/// the result is never empty, and a budget of zero gives one cluster per line.
pub fn wrap_spans(spans: &Vec<Span>, max_width: usize) -> (r: Vec<Vec<Span>>)
    ensures
        lines_view(r@) == wrap_spec(spans_view(spans@), max_width as nat),
{
    if spans.len() == 0 {
        return single_empty_line();
    }
    let gs = collect_graphemes(spans);
    if max_width == 0 {
        let z = zero_width_exec(&gs);
        if z.len() == 0 {
            return single_empty_line();
        }
        return z;
    }
    let words = group_words(&gs);
    layout_exec(&words, max_width)
}

/// Every cluster is at most `max` columns wide.
pub open spec fn clusters_fit(gs: Seq<GView>, max: nat) -> bool {
    forall|i: int| 0 <= i < gs.len() ==> (#[trigger] gs[i]).2 <= max
}

/// Every line is at most `max` columns wide.
pub open spec fn lines_fit(ls: Seq<Seq<GView>>, max: nat) -> bool {
    forall|i: int| 0 <= i < ls.len() ==> gs_width(#[trigger] ls[i]) <= max
}

/// The layout state keeps every line within `max` columns and knows the
/// width of its current line.
pub open spec fn state_fits(st: LayoutState, max: nat) -> bool {
    lines_fit(st.0, max) && st.2 == gs_width(st.1) && st.2 <= max
}

proof fn lemma_gs_width_push(a: Seq<GView>, g: GView)
    ensures
        gs_width(a.push(g)) == sat_add(gs_width(a), g.2),
{
    assert(a.push(g).drop_last() =~= a);
}

proof fn lemma_gs_width_add(a: Seq<GView>, w: Seq<GView>)
    ensures
        gs_width(a + w) == sat_add(gs_width(a), gs_width(w)),
    decreases w.len(),
{
    if w.len() == 0 {
        assert(a + w =~= a);
    } else {
        lemma_gs_width_add(a, w.drop_last());
        assert((a + w).drop_last() =~= a + w.drop_last());
    }
}

proof fn lemma_flush_fits(st: LayoutState, max: nat)
    requires
        state_fits(st, max),
    ensures
        state_fits(flush(st), max),
{
    let f = flush(st);
    assert forall|i: int| 0 <= i < f.0.len() implies gs_width(#[trigger] f.0[i]) <= max by {
        if i < st.0.len() {
            assert(f.0[i] == st.0[i]);
        }
    }
}

proof fn lemma_push_g_fits(st: LayoutState, g: GView, max: nat)
    requires
        state_fits(st, max),
        sat_add(st.2, g.2) <= max,
    ensures
        state_fits(push_g(st, g), max),
{
    lemma_gs_width_push(st.1, g);
}

proof fn lemma_char_wrap_fits(st: LayoutState, w: Seq<GView>, max: nat)
    requires
        state_fits(st, max),
        clusters_fit(w, max),
    ensures
        state_fits(char_wrap(st, w, max), max),
    decreases w.len(),
{
    if w.len() > 0 {
        assert(clusters_fit(w.drop_last(), max)) by {
            assert forall|i: int| 0 <= i < w.drop_last().len() implies (#[trigger] w.drop_last()[i]).2 <= max by {
                assert(w.drop_last()[i] == w[i]);
            }
        }
        lemma_char_wrap_fits(st, w.drop_last(), max);
        let s0 = char_wrap(st, w.drop_last(), max);
        let g = w.last();
        assert(g == w[w.len() - 1]);
        let s1 = if g.2 == 2 && sat_add(s0.2, 2) > max { flush(s0) } else { s0 };
        lemma_flush_fits(s0, max);
        let s2 = if sat_add(s1.2, g.2) > max { flush(s1) } else { s1 };
        lemma_flush_fits(s1, max);
        lemma_push_g_fits(s2, g, max);
    }
}

proof fn lemma_word_step_fits(st: LayoutState, w: Seq<GView>, max: nat)
    requires
        state_fits(st, max),
        clusters_fit(w, max),
    ensures
        state_fits(word_step(st, w, max), max),
{
    if w.len() == 0 {
    } else if is_ws_g(w[0]) {
        if st.2 > 0 && sat_add(st.2, w[0].2) <= max {
            lemma_push_g_fits(st, w[0], max);
        }
    } else if gs_width(w) <= max {
        lemma_gs_width_add(st.1, w);
        lemma_flush_fits(st, max);
        lemma_gs_width_add(Seq::<GView>::empty(), w);
        assert(Seq::<GView>::empty() + w =~= w);
    } else {
        lemma_char_wrap_fits(st, w, max);
    }
}

proof fn lemma_words_fit(gs: Seq<GView>, max: nat)
    requires
        clusters_fit(gs, max),
    ensures
        forall|k: int| 0 <= k < words_of(gs).len() ==> clusters_fit(#[trigger] words_of(gs)[k], max),
    decreases gs.len(),
{
    if gs.len() > 0 {
        let init = gs.drop_last();
        assert(clusters_fit(init, max)) by {
            assert forall|i: int| 0 <= i < init.len() implies (#[trigger] init[i]).2 <= max by {
                assert(init[i] == gs[i]);
            }
        }
        lemma_words_fit(init, max);
        let w = words_of(init);
        let g = gs.last();
        assert(g == gs[gs.len() - 1]);
        if !is_ws_g(g) && w.len() > 0 && w.last().len() > 0 && !is_ws_g(w.last()[0]) {
            assert forall|k: int| 0 <= k < words_of(gs).len() implies clusters_fit(#[trigger] words_of(gs)[k], max) by {
                if k < w.len() - 1 {
                    assert(words_of(gs)[k] == w[k]);
                } else {
                    let nw = w.last().push(g);
                    assert(words_of(gs)[k] == nw);
                    assert(clusters_fit(w[w.len() - 1], max));
                    assert forall|i: int| 0 <= i < nw.len() implies (#[trigger] nw[i]).2 <= max by {
                        if i < nw.len() - 1 {
                            assert(nw[i] == w.last()[i]);
                        }
                    }
                }
            }
        } else {
            assert forall|k: int| 0 <= k < words_of(gs).len() implies clusters_fit(#[trigger] words_of(gs)[k], max) by {
                if k < w.len() {
                    assert(words_of(gs)[k] == w[k]);
                } else {
                    assert(words_of(gs)[k] == seq![g]);
                }
            }
        }
    }
}

proof fn lemma_layout_fits(ws: Seq<Seq<GView>>, max: nat)
    requires
        forall|k: int| 0 <= k < ws.len() ==> clusters_fit(#[trigger] ws[k], max),
    ensures
        state_fits(layout(ws, max), max),
    decreases ws.len(),
{
    if ws.len() == 0 {
        assert(gs_width(Seq::<GView>::empty()) == 0);
    } else {
        let init = ws.drop_last();
        assert forall|k: int| 0 <= k < init.len() implies clusters_fit(#[trigger] init[k], max) by {
            assert(init[k] == ws[k]);
        }
        lemma_layout_fits(init, max);
        assert(ws.last() == ws[ws.len() - 1]);
        lemma_word_step_fits(layout(init, max), ws.last(), max);
    }
}

/// Wrapping keeps within the width: when every grapheme cluster of the
/// spans fits in `max` columns, every line that `wrap_spans` lays out at
/// budget `max` is at most `max` columns wide.
pub proof fn law_wrapped_lines_fit(spans: Seq<SView>, max: nat)
    requires
        max > 0,
        clusters_fit(spans_gs(spans), max),
    ensures
        lines_fit(wrap_lines(spans, max), max),
{
    lemma_words_fit(spans_gs(spans), max);
    let st = layout(words_of(spans_gs(spans)), max);
    lemma_layout_fits(words_of(spans_gs(spans)), max);
    if st.1.len() > 0 {
        lemma_flush_fits(st, max);
    }
    let st2 = if st.1.len() > 0 { flush(st) } else { st };
    if st2.0.len() == 0 {
        assert(gs_width(Seq::<GView>::empty()) == 0);
        assert(seq![Seq::<GView>::empty()][0] == Seq::<GView>::empty());
    }
}

} // verus!
