//! Markdown events and the text helpers the renderer needs.
//!
//! `pulldown-cmark` turns the document into a stream of events; the stream
//! is brought into the library's own event type, which holds as plain values
//! what the renderer reads. Which events a document gives is named
//! (`md_events`), not restated.

use crate::blocks::ColumnAlign;
use crate::paths::split_on;
use crate::text::{chars_of, is_ws_char, char_is_whitespace, string_from_chars};
use pulldown_cmark::{CodeBlockKind as PKind, Event as PEvent, Tag as PTag, TagEnd as PTagEnd};
use vstd::prelude::*;

verus! {

#[verifier::external_type_specification]
#[verifier::external_body]
pub struct ExEvent<'a>(pulldown_cmark::Event<'a>);

#[verifier::external_type_specification]
#[verifier::external_body]
pub struct ExTag<'a>(pulldown_cmark::Tag<'a>);

#[verifier::external_type_specification]
#[verifier::external_body]
pub struct ExTagEnd(pulldown_cmark::TagEnd);

#[verifier::external_type_specification]
#[verifier::external_body]
pub struct ExAlignment(pulldown_cmark::Alignment);

/// How a code block was opened.
pub enum CodeKind {
    /// Indented by four spaces.
    Indented,
    /// Fenced, with its info string.
    Fenced(String),
}

/// An opening tag.
pub enum MdTag {
    /// A heading, with its level (1 to 6).
    Heading(u8),
    Paragraph,
    Strong,
    Emphasis,
    Strikethrough,
    BlockQuote,
    CodeBlock(CodeKind),
    /// A list; ordered lists carry their first number.
    List(Option<u64>),
    Item,
    /// A link, with its destination.
    Link(String),
    /// A table, with its column alignments.
    Table(Vec<ColumnAlign>),
    TableHead,
    TableRow,
    TableCell,
    /// Tags the renderer does not act on (images, footnotes, ...).
    Other,
}

/// A closing tag.
#[derive(Clone, Copy, Debug, PartialEq, Eq, Structural)]
pub enum MdTagEnd {
    Heading,
    Paragraph,
    Strong,
    Emphasis,
    Strikethrough,
    BlockQuote,
    CodeBlock,
    List,
    Item,
    Link,
    Table,
    TableHead,
    TableRow,
    TableCell,
    Other,
}

/// One parser event.
pub enum MdEvent {
    Start(MdTag),
    End(MdTagEnd),
    Text(String),
    Code(String),
    Html(String),
    InlineHtml(String),
    SoftBreak,
    HardBreak,
    Rule,
    TaskListMarker(bool),
    /// Math and footnote references, which are not shown.
    Ignored,
}

/// [`CodeKind`] with its text as characters.
pub enum CodeKindView {
    Indented,
    Fenced(Seq<char>),
}

/// [`MdTag`] with its text as characters.
pub enum MdTagView {
    Heading(u8),
    Paragraph,
    Strong,
    Emphasis,
    Strikethrough,
    BlockQuote,
    CodeBlock(CodeKindView),
    List(Option<u64>),
    Item,
    Link(Seq<char>),
    Table(Seq<ColumnAlign>),
    TableHead,
    TableRow,
    TableCell,
    Other,
}

/// [`MdEvent`] with its text as characters.
pub enum MdEventView {
    Start(MdTagView),
    End(MdTagEnd),
    Text(Seq<char>),
    Code(Seq<char>),
    Html(Seq<char>),
    InlineHtml(Seq<char>),
    SoftBreak,
    HardBreak,
    Rule,
    TaskListMarker(bool),
    Ignored,
}

pub open spec fn tag_view(t: MdTag) -> MdTagView {
    match t {
        MdTag::Heading(l) => MdTagView::Heading(l),
        MdTag::Paragraph => MdTagView::Paragraph,
        MdTag::Strong => MdTagView::Strong,
        MdTag::Emphasis => MdTagView::Emphasis,
        MdTag::Strikethrough => MdTagView::Strikethrough,
        MdTag::BlockQuote => MdTagView::BlockQuote,
        MdTag::CodeBlock(CodeKind::Indented) => MdTagView::CodeBlock(CodeKindView::Indented),
        MdTag::CodeBlock(CodeKind::Fenced(s)) => MdTagView::CodeBlock(CodeKindView::Fenced(s@)),
        MdTag::List(s) => MdTagView::List(s),
        MdTag::Item => MdTagView::Item,
        MdTag::Link(d) => MdTagView::Link(d@),
        MdTag::Table(a) => MdTagView::Table(a@),
        MdTag::TableHead => MdTagView::TableHead,
        MdTag::TableRow => MdTagView::TableRow,
        MdTag::TableCell => MdTagView::TableCell,
        MdTag::Other => MdTagView::Other,
    }
}

pub open spec fn event_view(e: MdEvent) -> MdEventView {
    match e {
        MdEvent::Start(t) => MdEventView::Start(tag_view(t)),
        MdEvent::End(t) => MdEventView::End(t),
        MdEvent::Text(s) => MdEventView::Text(s@),
        MdEvent::Code(s) => MdEventView::Code(s@),
        MdEvent::Html(s) => MdEventView::Html(s@),
        MdEvent::InlineHtml(s) => MdEventView::InlineHtml(s@),
        MdEvent::SoftBreak => MdEventView::SoftBreak,
        MdEvent::HardBreak => MdEventView::HardBreak,
        MdEvent::Rule => MdEventView::Rule,
        MdEvent::TaskListMarker(b) => MdEventView::TaskListMarker(b),
        MdEvent::Ignored => MdEventView::Ignored,
    }
}

pub open spec fn events_view(es: Seq<MdEvent>) -> Seq<MdEventView> {
    es.map_values(|e: MdEvent| event_view(e))
}

/// The events `pulldown-cmark` gives for a document, with strikethrough,
/// task lists and tables enabled.
pub uninterp spec fn md_events(input: Seq<char>) -> Seq<MdEventView>;

/// `Parser::new_ext` from `pulldown-cmark` with strikethrough, task lists
/// and tables enabled, run to the end: the document's events, each brought
/// into [`MdEvent`] one for one. Which events they are is named, not stated.
#[verifier::external_body]
pub(crate) fn parse_events(input: &str) -> (r: Vec<MdEvent>)
    ensures
        events_view(r@) == md_events(input@),
{
    let opts = pulldown_cmark::Options::ENABLE_STRIKETHROUGH | pulldown_cmark::Options::ENABLE_TASKLISTS
        | pulldown_cmark::Options::ENABLE_TABLES;
    pulldown_cmark::Parser::new_ext(input, opts).map(event_of).collect()
}

/// Part of [`parse_events`]: one `pulldown_cmark::Event`, variant for variant.
#[verifier::external_body]
fn event_of(e: pulldown_cmark::Event) -> MdEvent {
    match e {
        PEvent::Start(t) => MdEvent::Start(tag_of(t)),
        PEvent::End(t) => MdEvent::End(tag_end_of(t)),
        PEvent::Text(s) => MdEvent::Text(s.to_string()),
        PEvent::Code(s) => MdEvent::Code(s.to_string()),
        PEvent::Html(s) => MdEvent::Html(s.to_string()),
        PEvent::InlineHtml(s) => MdEvent::InlineHtml(s.to_string()),
        PEvent::SoftBreak => MdEvent::SoftBreak,
        PEvent::HardBreak => MdEvent::HardBreak,
        PEvent::Rule => MdEvent::Rule,
        PEvent::TaskListMarker(b) => MdEvent::TaskListMarker(b),
        PEvent::InlineMath(_) | PEvent::DisplayMath(_) | PEvent::FootnoteReference(_) => MdEvent::Ignored,
    }
}

/// Part of [`parse_events`]: one `pulldown_cmark::Tag`, variant for variant.
#[verifier::external_body]
fn tag_of(t: pulldown_cmark::Tag) -> MdTag {
    match t {
        PTag::Heading { level, .. } => MdTag::Heading(level as u8),
        PTag::Paragraph => MdTag::Paragraph,
        PTag::Strong => MdTag::Strong,
        PTag::Emphasis => MdTag::Emphasis,
        PTag::Strikethrough => MdTag::Strikethrough,
        PTag::BlockQuote(_) => MdTag::BlockQuote,
        PTag::CodeBlock(PKind::Indented) => MdTag::CodeBlock(CodeKind::Indented),
        PTag::CodeBlock(PKind::Fenced(s)) => MdTag::CodeBlock(CodeKind::Fenced(s.to_string())),
        PTag::List(start) => MdTag::List(start),
        PTag::Item => MdTag::Item,
        PTag::Link { dest_url, .. } => MdTag::Link(dest_url.to_string()),
        PTag::Table(a) => MdTag::Table(a.iter().map(alignment_of).collect()),
        other => table_part_of(other),
    }
}

/// Part of [`parse_events`]: the table-part tags; every other tag is `Other`.
#[verifier::external_body]
fn table_part_of(t: pulldown_cmark::Tag) -> MdTag {
    match t {
        PTag::TableHead => MdTag::TableHead,
        PTag::TableRow => MdTag::TableRow,
        PTag::TableCell => MdTag::TableCell,
        _ => MdTag::Other,
    }
}

/// Part of [`parse_events`]: one `pulldown_cmark::Alignment`.
#[verifier::external_body]
fn alignment_of(a: &pulldown_cmark::Alignment) -> ColumnAlign {
    match a {
        pulldown_cmark::Alignment::None => ColumnAlign::Unaligned,
        pulldown_cmark::Alignment::Left => ColumnAlign::Left,
        pulldown_cmark::Alignment::Center => ColumnAlign::Center,
        pulldown_cmark::Alignment::Right => ColumnAlign::Right,
    }
}

/// Part of [`parse_events`]: one `pulldown_cmark::TagEnd`, variant for variant.
#[verifier::external_body]
fn tag_end_of(t: pulldown_cmark::TagEnd) -> MdTagEnd {
    match t {
        PTagEnd::Heading(_) => MdTagEnd::Heading,
        PTagEnd::Paragraph => MdTagEnd::Paragraph,
        PTagEnd::Strong => MdTagEnd::Strong,
        PTagEnd::Emphasis => MdTagEnd::Emphasis,
        PTagEnd::Strikethrough => MdTagEnd::Strikethrough,
        PTagEnd::BlockQuote(_) => MdTagEnd::BlockQuote,
        PTagEnd::CodeBlock => MdTagEnd::CodeBlock,
        PTagEnd::List(_) => MdTagEnd::List,
        PTagEnd::Item => MdTagEnd::Item,
        PTagEnd::Link => MdTagEnd::Link,
        other => table_end_of(other),
    }
}

/// Part of [`parse_events`]: the table-part closing tags; every other
/// closing tag is `Other`.
#[verifier::external_body]
fn table_end_of(t: pulldown_cmark::TagEnd) -> MdTagEnd {
    match t {
        PTagEnd::Table => MdTagEnd::Table,
        PTagEnd::TableHead => MdTagEnd::TableHead,
        PTagEnd::TableRow => MdTagEnd::TableRow,
        PTagEnd::TableCell => MdTagEnd::TableCell,
        _ => MdTagEnd::Other,
    }
}

/// `s` with every tab replaced by four spaces.
pub open spec fn expand_tabs_spec(s: Seq<char>) -> Seq<char>
    decreases s.len(),
{
    if s.len() == 0 {
        Seq::empty()
    } else {
        expand_tabs_spec(s.drop_last()) + if s.last() == '\t' {
            seq![' ', ' ', ' ', ' ']
        } else {
            seq![s.last()]
        }
    }
}

/// `s` with every tab replaced by four spaces (`str::replace`).
pub fn expand_tabs(s: &str) -> (r: String)
    ensures
        r@ == expand_tabs_spec(s@),
{
    let cs = chars_of(s);
    let mut out: Vec<char> = Vec::new();
    let mut i: usize = 0;
    while i < cs.len()
        invariant
            i <= cs.len(),
            cs@ == s@,
            out@ == expand_tabs_spec(s@.take(i as int)),
        decreases cs.len() - i,
    {
        assert(s@.take(i + 1).drop_last() =~= s@.take(i as int));
        let c = cs[i];
        if c == '\t' {
            out.push(' ');
            out.push(' ');
            out.push(' ');
            out.push(' ');
        } else {
            out.push(c);
        }
        i = i + 1;
        assert(out@ =~= expand_tabs_spec(s@.take(i as int)));
    }
    assert(s@.take(cs.len() as int) =~= s@);
    string_from_chars(&out)
}

/// `p` without one trailing carriage return.
pub open spec fn strip_cr(p: Seq<char>) -> Seq<char> {
    if p.len() > 0 && p.last() == '\r' {
        p.drop_last()
    } else {
        p
    }
}

/// The lines of `s` (`str::lines`): split at `\n`, a `\r` before a `\n`
/// dropped, and no empty last line after a final line ending.
pub open spec fn lines_spec(s: Seq<char>) -> Seq<Seq<char>> {
    let ps = split_on(s, '\n');
    let ended = ps.drop_last().map_values(|p: Seq<char>| strip_cr(p));
    if ps.last().len() == 0 {
        ended
    } else {
        ended.push(ps.last())
    }
}

/// The lines of `s`, as `str::lines` gives them.
pub fn lines_of(s: &str) -> (r: Vec<String>)
    ensures
        r@.map_values(|l: String| l@) == lines_spec(s@),
{
    let cs = chars_of(s);
    let mut out: Vec<String> = Vec::new();
    let mut cur: Vec<char> = Vec::new();
    let mut i: usize = 0;
    proof {
        assert(s@.take(0) =~= Seq::<char>::empty());
    }
    while i < cs.len()
        invariant
            i <= cs.len(),
            cs@ == s@,
            split_on(s@.take(i as int), '\n').len() >= 1,
            out@.map_values(|l: String| l@) == split_on(s@.take(i as int), '\n').drop_last().map_values(
                |p: Seq<char>| strip_cr(p),
            ),
            cur@ == split_on(s@.take(i as int), '\n').last(),
        decreases cs.len() - i,
    {
        let ghost before = split_on(s@.take(i as int), '\n');
        assert(s@.take(i + 1).drop_last() =~= s@.take(i as int));
        let c = cs[i];
        if c == '\n' {
            let mut line = cur;
            if line.len() > 0 && line[line.len() - 1] == '\r' {
                line.pop();
            }
            assert(line@ == strip_cr(before.last()));
            out.push(string_from_chars(&line));
            cur = Vec::new();
            assert(before.push(Seq::<char>::empty()).drop_last() =~= before);
            assert(out@.map_values(|l: String| l@) =~= before.drop_last().map_values(|p: Seq<char>| strip_cr(p)).push(
                strip_cr(before.last()),
            ));
            assert(before.drop_last().map_values(|p: Seq<char>| strip_cr(p)).push(strip_cr(before.last()))
                =~= before.map_values(|p: Seq<char>| strip_cr(p)));
        } else {
            cur.push(c);
            let ghost after = before.update(before.len() - 1, before.last().push(c));
            assert(after.drop_last() =~= before.drop_last());
        }
        i = i + 1;
    }
    assert(s@.take(cs.len() as int) =~= s@);
    if cur.len() > 0 {
        out.push(string_from_chars(&cur));
    }
    out
}

/// The leading run of non-white-space characters of `s`.
pub open spec fn word_prefix(s: Seq<char>) -> Seq<char>
    decreases s.len(),
{
    if s.len() == 0 || is_ws_char(s[0]) {
        Seq::empty()
    } else {
        seq![s[0]] + word_prefix(s.drop_first())
    }
}

/// The first white-space-separated word of `s`, empty when there is none
/// (`split_whitespace().next()`).
pub open spec fn first_word(s: Seq<char>) -> Seq<char>
    decreases s.len(),
{
    if s.len() == 0 {
        Seq::empty()
    } else if is_ws_char(s[0]) {
        first_word(s.drop_first())
    } else {
        word_prefix(s)
    }
}

proof fn lemma_first_word_skip(s: Seq<char>, i: int)
    requires
        0 <= i <= s.len(),
        forall|j: int| 0 <= j < i ==> is_ws_char(s[j]),
    ensures
        first_word(s) == first_word(s.skip(i)),
    decreases i,
{
    if i > 0 {
        assert(is_ws_char(s[0]));
        assert(first_word(s) == first_word(s.drop_first()));
        lemma_first_word_skip(s.drop_first(), i - 1);
        assert(s.drop_first().skip(i - 1) =~= s.skip(i));
    } else {
        assert(s.skip(0) =~= s);
    }
}

proof fn lemma_word_prefix(s: Seq<char>, i: int)
    requires
        0 <= i <= s.len(),
        forall|j: int| 0 <= j < i ==> !is_ws_char(s[j]),
        i == s.len() || is_ws_char(s[i]),
    ensures
        word_prefix(s) == s.take(i),
    decreases i,
{
    if i > 0 {
        lemma_word_prefix(s.drop_first(), i - 1);
        assert(seq![s[0]] + s.drop_first().take(i - 1) =~= s.take(i));
    } else {
        assert(s.take(0) =~= Seq::<char>::empty());
    }
}

/// The first white-space-separated word of `s`.
pub fn first_word_of(s: &str) -> (r: String)
    ensures
        r@ == first_word(s@),
{
    let cs = chars_of(s);
    let mut i: usize = 0;
    while i < cs.len() && char_is_whitespace(cs[i])
        invariant
            i <= cs.len(),
            cs@ == s@,
            forall|j: int| 0 <= j < i ==> is_ws_char(s@[j]),
        decreases cs.len() - i,
    {
        i = i + 1;
    }
    proof {
        lemma_first_word_skip(s@, i as int);
    }
    let start = i;
    let mut out: Vec<char> = Vec::new();
    while i < cs.len() && !char_is_whitespace(cs[i])
        invariant
            start <= i <= cs.len(),
            cs@ == s@,
            out@ == s@.subrange(start as int, i as int),
            forall|j: int| start <= j < i ==> !is_ws_char(s@[j]),
        decreases cs.len() - i,
    {
        out.push(cs[i]);
        i = i + 1;
        assert(out@ =~= s@.subrange(start as int, i as int));
    }
    proof {
        let t = s@.skip(start as int);
        assert forall|j: int| 0 <= j < i - start implies !is_ws_char(t[j]) by {
            assert(t[j] == s@[start + j]);
        }
        if i < cs.len() {
            assert(t[i - start] == s@[i as int]);
        }
        lemma_word_prefix(t, i - start);
        assert(t.take(i - start) =~= out@);
        if start < cs.len() {
            assert(t[0] == s@[start as int]);
            assert(!is_ws_char(t[0]));
            assert(first_word(t) == word_prefix(t));
        } else {
            assert(t.len() == 0);
            assert(out@.len() == 0);
        }
    }
    string_from_chars(&out)
}

} // verus!
