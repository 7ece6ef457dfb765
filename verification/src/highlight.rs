//! Search highlighting in the preview: every case-insensitive occurrence of
//! the query in a span is split out and given the highlight style.
//!
//! Occurrences are found in the lower-cased text and cut from the original
//! text at the same character positions; a span whose lower-cased text has
//! another length than the span's own is left whole.

use crate::style::{span, span_view, spans_view, Span, Style};
use crate::text::{chars_of, lowercase_str, occurs_at, occurs_at_vec, str_lowercase, string_from_chars};
use vstd::prelude::*;

verus! {

/// The first position at or after `from` where `q` occurs in `s`.
pub open spec fn find_from(s: Seq<char>, q: Seq<char>, from: int) -> Option<int>
    decreases s.len() + 1 - from,
{
    if from < 0 || from + q.len() > s.len() {
        None
    } else if occurs_at(s, q, from) {
        Some(from)
    } else {
        find_from(s, q, from + 1)
    }
}

/// A found position lies at or after `from`, and the occurrence fits.
pub proof fn lemma_find_from(s: Seq<char>, q: Seq<char>, from: int)
    ensures
        find_from(s, q, from) matches Some(p) ==> from <= p && p + q.len() <= s.len() && occurs_at(s, q, p),
    decreases s.len() + 1 - from,
{
    if !(from < 0 || from + q.len() > s.len()) && !occurs_at(s, q, from) {
        lemma_find_from(s, q, from + 1);
    }
}

/// The pieces of `text` from `from` on, cut at the occurrences of `q` in
/// `lower` (searched left to right, each after the previous one): the text
/// between occurrences (not highlighted) and each occurrence (highlighted).
pub open spec fn pieces(text: Seq<char>, lower: Seq<char>, q: Seq<char>, from: int) -> Seq<(Seq<char>, bool)>
    decreases lower.len() + 1 - from,
{
    if q.len() == 0 || from < 0 || from > lower.len() {
        Seq::empty()
    } else {
        match find_from(lower, q, from) {
            None => if from < text.len() {
                seq![(text.subrange(from, text.len() as int), false)]
            } else {
                Seq::empty()
            },
            Some(p) => {
                proof {
                    lemma_find_from(lower, q, from);
                }
                let pre: Seq<(Seq<char>, bool)> = if p > from {
                    seq![(text.subrange(from, p), false)]
                } else {
                    Seq::empty()
                };
                pre + seq![(text.subrange(p, p + q.len()), true)] + pieces(text, lower, q, p + q.len())
            },
        }
    }
}

/// Pieces as styled runs: highlighted pieces in `hl`, the others in `base`.
pub open spec fn styled_pieces(ps: Seq<(Seq<char>, bool)>, base: Style, hl: Style) -> Seq<(Seq<char>, Style)> {
    ps.map_values(|p: (Seq<char>, bool)| (p.0, if p.1 { hl } else { base }))
}

/// One span with the occurrences of the lower-case query `q` highlighted;
/// the span unchanged when nothing is cut from it.
pub open spec fn highlight_span_spec(sv: (Seq<char>, Style), q: Seq<char>, hl: Style) -> Seq<(Seq<char>, Style)> {
    let lower = str_lowercase(sv.0);
    let ps = pieces(sv.0, lower, q, 0);
    if q.len() > 0 && lower.len() == sv.0.len() && ps.len() > 0 {
        styled_pieces(ps, sv.1, hl)
    } else {
        seq![sv]
    }
}

/// A line with every span highlighted.
pub open spec fn highlight_line_spec(line: Seq<(Seq<char>, Style)>, q: Seq<char>, hl: Style) -> Seq<(Seq<char>, Style)>
    decreases line.len(),
{
    if line.len() == 0 {
        Seq::empty()
    } else {
        highlight_line_spec(line.drop_last(), q, hl) + highlight_span_spec(line.last(), q, hl)
    }
}

/// The first occurrence of `q` in `s` at or after `from`.
pub fn find_from_exec(s: &Vec<char>, q: &Vec<char>, from: usize) -> (r: Option<usize>)
    ensures
        match r {
            Some(p) => find_from(s@, q@, from as int) == Some(p as int),
            None => find_from(s@, q@, from as int) is None,
        },
{
    let mut i = from;
    while i <= s.len() && q.len() <= s.len() - i
        invariant
            from <= i,
            find_from(s@, q@, from as int) == find_from(s@, q@, i as int),
        decreases s.len() + 1 - i,
    {
        if occurs_at_vec(s, q, i) {
            return Some(i);
        }
        proof {
            if q@.len() == 0 {
                assert(s@.subrange(i as int, i as int) =~= q@);
            }
        }
        i = i + 1;
    }
    None
}

/// A span of the characters `text[a..b]` in `style`.
fn piece_span(text: &Vec<char>, a: usize, b: usize, style: Style) -> (r: Span)
    requires
        a <= b <= text@.len(),
    ensures
        span_view(r) == (text@.subrange(a as int, b as int), style),
{
    let mut v: Vec<char> = Vec::new();
    let mut i = a;
    while i < b
        invariant
            a <= i <= b <= text@.len(),
            v@ == text@.subrange(a as int, i as int),
        decreases b - i,
    {
        v.push(text[i]);
        proof {
            assert(text@.subrange(a as int, i + 1) =~= text@.subrange(a as int, i as int).push(text@[i as int]));
        }
        i = i + 1;
    }
    span(string_from_chars(&v), style)
}

/// Splits a span at the occurrences of the lower-case query `query` in its
/// lower-cased text, the occurrences in the highlight style.
pub fn highlight_span(s: &Span, query: &Vec<char>, hl: Style) -> (r: Vec<Span>)
    ensures
        spans_view(r@) == highlight_span_spec(span_view(*s), query@, hl),
{
    let text = chars_of(s.content.as_str());
    let low = lowercase_str(s.content.as_str());
    let lower = chars_of(low.as_str());
    let ghost t = text@;
    let ghost l = lower@;
    let ghost q = query@;
    let ghost all = styled_pieces(pieces(t, l, q, 0), s.style, hl);
    if query.len() == 0 || lower.len() != text.len() {
        return vec![crate::style::copy_span(s)];
    }
    let mut out: Vec<Span> = Vec::new();
    let mut from: usize = 0;
    assert(spans_view(out@) + styled_pieces(pieces(t, l, q, 0), s.style, hl) =~= all);
    loop
        invariant
            t == text@,
            l == lower@,
            q == query@,
            q.len() > 0,
            l.len() == t.len(),
            from <= l.len(),
            all == styled_pieces(pieces(t, l, q, 0), s.style, hl),
            spans_view(out@) + styled_pieces(pieces(t, l, q, from as int), s.style, hl) == all,
        ensures
            spans_view(out@) == all,
        decreases l.len() + 1 - from,
    {
        match find_from_exec(&lower, query, from) {
            None => {
                if from < text.len() {
                    let sp = piece_span(&text, from, text.len(), s.style);
                    let ghost before = spans_view(out@);
                    out.push(sp);
                    proof {
                        assert(spans_view(out@) =~= before.push(span_view(sp)));
                        assert(styled_pieces(pieces(t, l, q, from as int), s.style, hl) =~= seq![span_view(sp)]);
                    }
                } else {
                    proof {
                        assert(styled_pieces(pieces(t, l, q, from as int), s.style, hl) =~= Seq::<(Seq<char>, Style)>::empty());
                    }
                }
                from = text.len();
                proof {
                    assert(find_from(l, q, from as int) is None);
                    assert(pieces(t, l, q, from as int) =~= Seq::<(Seq<char>, bool)>::empty());
                    assert(styled_pieces(pieces(t, l, q, from as int), s.style, hl) =~= Seq::<(Seq<char>, Style)>::empty());
                    assert(spans_view(out@) + styled_pieces(pieces(t, l, q, from as int), s.style, hl) =~= spans_view(out@));
                }
                break;
            },
            Some(p) => {
                proof {
                    lemma_find_from(l, q, from as int);
                    assert(find_from(l, q, from as int) == Some(p as int));
                    assert(from <= p && p + q.len() <= l.len());
                }
                let ghost before = spans_view(out@);
                let ghost rest = pieces(t, l, q, (p + q.len()) as int);
                let qn = query.len();
                let ln = lower.len();
                assert(p + qn <= ln);
                let end = p + qn;
                if p > from {
                    let pre = piece_span(&text, from, p, s.style);
                    out.push(pre);
                    let m = piece_span(&text, p, end, hl);
                    out.push(m);
                    proof {
                        assert(spans_view(out@) =~= before.push(span_view(pre)).push(span_view(m)));
                        assert(pieces(t, l, q, from as int) == seq![(t.subrange(from as int, p as int), false)] + seq![
                            (t.subrange(p as int, end as int), true),
                        ] + rest);
                        assert(styled_pieces(pieces(t, l, q, from as int), s.style, hl) =~= seq![
                            span_view(pre),
                            span_view(m),
                        ] + styled_pieces(rest, s.style, hl));
                    }
                } else {
                    let m = piece_span(&text, p, end, hl);
                    out.push(m);
                    proof {
                        assert(spans_view(out@) =~= before.push(span_view(m)));
                        assert(pieces(t, l, q, from as int) =~= seq![(t.subrange(p as int, end as int), true)] + rest);
                        assert(styled_pieces(pieces(t, l, q, from as int), s.style, hl) =~= seq![span_view(m)]
                            + styled_pieces(rest, s.style, hl));
                    }
                }
                from = end;
            },
        }
    }
    if out.len() == 0 {
        return vec![crate::style::copy_span(s)];
    }
    out
}

/// A line with the occurrences of the lower-case query highlighted in
/// every span.
pub fn highlight_line(line: &Vec<Span>, query: &Vec<char>, hl: Style) -> (r: Vec<Span>)
    ensures
        spans_view(r@) == highlight_line_spec(spans_view(line@), query@, hl),
{
    let ghost lv = spans_view(line@);
    let mut out: Vec<Span> = Vec::new();
    let mut i: usize = 0;
    while i < line.len()
        invariant
            i <= line.len(),
            lv == spans_view(line@),
            spans_view(out@) == highlight_line_spec(lv.take(i as int), query@, hl),
        decreases line.len() - i,
    {
        let mut parts = highlight_span(&line[i], query, hl);
        let ghost before = spans_view(out@);
        let ghost pv = spans_view(parts@);
        out.append(&mut parts);
        proof {
            assert(spans_view(out@) =~= before + pv);
            assert(lv.take(i + 1).drop_last() =~= lv.take(i as int));
            assert(lv.take(i + 1).last() == span_view(line@[i as int]));
        }
        i = i + 1;
    }
    proof {
        assert(lv.take(line.len() as int) =~= lv);
    }
    out
}

/// The texts of some styled runs.
pub open spec fn run_texts(rs: Seq<(Seq<char>, Style)>) -> Seq<Seq<char>> {
    rs.map_values(|r: (Seq<char>, Style)| r.0)
}

proof fn lemma_concat_add(a: Seq<Seq<char>>, b: Seq<Seq<char>>)
    ensures
        crate::text::concat(a + b) == crate::text::concat(a) + crate::text::concat(b),
    decreases b.len(),
{
    if b.len() == 0 {
        assert(a + b =~= a);
        assert(crate::text::concat(a) + Seq::<char>::empty() =~= crate::text::concat(a));
    } else {
        lemma_concat_add(a, b.drop_last());
        assert((a + b).drop_last() =~= a + b.drop_last());
        assert(crate::text::concat(a) + crate::text::concat(b.drop_last()) + b.last() =~= crate::text::concat(a) + (
        crate::text::concat(b.drop_last()) + b.last()));
    }
}

proof fn lemma_concat_one(x: Seq<char>)
    ensures
        crate::text::concat(seq![x]) == x,
{
    assert(seq![x].drop_last() =~= Seq::<Seq<char>>::empty());
    assert(crate::text::concat(Seq::<Seq<char>>::empty()) == Seq::<char>::empty());
    assert(seq![x].last() == x);
    assert(Seq::<char>::empty() + x =~= x);
}

proof fn lemma_pieces_text(t: Seq<char>, l: Seq<char>, q: Seq<char>, from: int, base: Style, hl: Style)
    requires
        q.len() > 0,
        l.len() == t.len(),
        0 <= from <= t.len(),
    ensures
        crate::text::concat(run_texts(styled_pieces(pieces(t, l, q, from), base, hl))) == t.subrange(from, t.len() as int),
    decreases l.len() + 1 - from,
{
    let ps = pieces(t, l, q, from);
    match find_from(l, q, from) {
        None => {
            if from < t.len() {
                assert(run_texts(styled_pieces(ps, base, hl)) =~= seq![t.subrange(from, t.len() as int)]);
                lemma_concat_one(t.subrange(from, t.len() as int));
            } else {
                assert(run_texts(styled_pieces(ps, base, hl)) =~= Seq::<Seq<char>>::empty());
                assert(t.subrange(from, t.len() as int) =~= Seq::<char>::empty());
            }
        },
        Some(p) => {
            lemma_find_from(l, q, from);
            let e = p + q.len();
            lemma_pieces_text(t, l, q, e, base, hl);
            let pre: Seq<(Seq<char>, bool)> = if p > from {
                seq![(t.subrange(from, p), false)]
            } else {
                Seq::empty()
            };
            let rest = pieces(t, l, q, e);
            assert(ps == pre + seq![(t.subrange(p, e), true)] + rest);
            let pre_t = run_texts(styled_pieces(pre, base, hl));
            let mid_t = run_texts(styled_pieces(seq![(t.subrange(p, e), true)], base, hl));
            let rest_t = run_texts(styled_pieces(rest, base, hl));
            assert(run_texts(styled_pieces(ps, base, hl)) =~= pre_t + mid_t + rest_t);
            lemma_concat_add(pre_t + mid_t, rest_t);
            lemma_concat_add(pre_t, mid_t);
            assert(mid_t =~= seq![t.subrange(p, e)]);
            lemma_concat_one(t.subrange(p, e));
            if p > from {
                assert(pre_t =~= seq![t.subrange(from, p)]);
                lemma_concat_one(t.subrange(from, p));
            } else {
                assert(pre_t =~= Seq::<Seq<char>>::empty());
            }
            assert(t.subrange(from, t.len() as int) =~= t.subrange(from, p) + t.subrange(p, e) + t.subrange(e, t.len() as int));
        },
    }
}

/// Highlighting never changes a span's text: the runs it is cut into,
/// read in order, spell the span's text.
pub proof fn law_highlight_keeps_text(sv: (Seq<char>, Style), q: Seq<char>, hl: Style)
    ensures
        crate::text::concat(run_texts(highlight_span_spec(sv, q, hl))) == sv.0,
{
    let lower = str_lowercase(sv.0);
    let ps = pieces(sv.0, lower, q, 0);
    if q.len() > 0 && lower.len() == sv.0.len() && ps.len() > 0 {
        lemma_pieces_text(sv.0, lower, q, 0, sv.1, hl);
        assert(sv.0.subrange(0, sv.0.len() as int) =~= sv.0);
    } else {
        assert(run_texts(seq![sv]) =~= seq![sv.0]);
        lemma_concat_one(sv.0);
    }
}

} // verus!
