//! Terminal styles and styled text: colors, modifier bits, styles with
//! `patch` (later style wins), spans and lines.

use vstd::prelude::*;

verus! {

/// A terminal color.
#[derive(Clone, Copy, Debug, PartialEq, Eq, Structural)]
pub enum Color {
    Reset,
    Black,
    Red,
    Green,
    Yellow,
    Blue,
    Magenta,
    Cyan,
    Gray,
    DarkGray,
    LightRed,
    LightGreen,
    LightYellow,
    LightBlue,
    LightMagenta,
    LightCyan,
    White,
    Rgb(u8, u8, u8),
    Indexed(u8),
}

/// Modifier bit: bold.
pub const BOLD: u16 = 1;
/// Modifier bit: dim.
pub const DIM: u16 = 2;
/// Modifier bit: italic.
pub const ITALIC: u16 = 4;
/// Modifier bit: underlined.
pub const UNDERLINED: u16 = 8;
/// Modifier bit: reversed.
pub const REVERSED: u16 = 64;
/// Modifier bit: crossed out.
pub const CROSSED_OUT: u16 = 256;

/// A text style: optional foreground and background colors, and the
/// modifier bits it adds and removes.
#[derive(Clone, Copy, Debug, PartialEq, Eq, Structural)]
pub struct Style {
    pub fg: Option<Color>,
    pub bg: Option<Color>,
    pub add_modifier: u16,
    pub sub_modifier: u16,
}

/// A style that sets only a foreground color and added modifiers.
pub open spec fn style_of(fg: Option<Color>, add: u16) -> Style {
    Style { fg: fg, bg: None, add_modifier: add, sub_modifier: 0 }
}

/// The empty style (changes nothing).
pub open spec fn plain() -> Style {
    style_of(None, 0)
}

/// `base` overlaid with `over`: colors of `over` win where set; modifiers
/// added by `over` are added and those it removes are removed.
pub open spec fn patch_spec(base: Style, over: Style) -> Style {
    Style {
        fg: if over.fg is Some { over.fg } else { base.fg },
        bg: if over.bg is Some { over.bg } else { base.bg },
        add_modifier: (base.add_modifier & !over.sub_modifier) | over.add_modifier,
        sub_modifier: (base.sub_modifier & !over.add_modifier) | over.sub_modifier,
    }
}

/// Builds a style with a foreground color and added modifiers.
pub fn new_style(fg: Option<Color>, add: u16) -> (s: Style)
    ensures
        s == style_of(fg, add),
{
    Style { fg: fg, bg: None, add_modifier: add, sub_modifier: 0 }
}

/// The empty style.
pub fn plain_style() -> (s: Style)
    ensures
        s == plain(),
{
    new_style(None, 0)
}

/// `base` overlaid with `over` (`Style::patch`).
pub fn patch(base: Style, over: Style) -> (s: Style)
    ensures
        s == patch_spec(base, over),
{
    Style {
        fg: if over.fg.is_some() { over.fg } else { base.fg },
        bg: if over.bg.is_some() { over.bg } else { base.bg },
        add_modifier: (base.add_modifier & !over.sub_modifier) | over.add_modifier,
        sub_modifier: (base.sub_modifier & !over.add_modifier) | over.sub_modifier,
    }
}

/// Whether two styles are equal.
pub fn style_eq(a: &Style, b: &Style) -> (r: bool)
    ensures
        r == (*a == *b),
{
    *a == *b
}

/// A run of text in one style.
#[derive(Clone, Debug)]
pub struct Span {
    pub content: String,
    pub style: Style,
}

/// The model of a span: its characters and its style.
pub open spec fn span_view(s: Span) -> (Seq<char>, Style) {
    (s.content@, s.style)
}

/// The models of a sequence of spans.
pub open spec fn spans_view(spans: Seq<Span>) -> Seq<(Seq<char>, Style)> {
    spans.map_values(|s: Span| span_view(s))
}

/// The text of a line of spans, concatenated.
pub open spec fn line_text(line: Seq<(Seq<char>, Style)>) -> Seq<char>
    decreases line.len(),
{
    if line.len() == 0 {
        Seq::empty()
    } else {
        line_text(line.drop_last()) + line.last().0
    }
}

/// A span with the given text and style.
pub fn span(content: String, style: Style) -> (s: Span)
    ensures
        s.content@ == content@,
        s.style == style,
{
    Span { content, style }
}

/// A copy of a span.
pub fn copy_span(s: &Span) -> (r: Span)
    ensures
        span_view(r) == span_view(*s),
{
    Span { content: crate::text::copy_string(&s.content), style: s.style }
}

/// A copy of a sequence of spans.
pub fn copy_spans(v: &Vec<Span>) -> (r: Vec<Span>)
    ensures
        spans_view(r@) == spans_view(v@),
{
    let mut r: Vec<Span> = Vec::new();
    let mut i: usize = 0;
    while i < v.len()
        invariant
            i <= v.len(),
            r.len() == i,
            forall|j: int| 0 <= j < i ==> span_view(#[trigger] r@[j]) == span_view(v@[j]),
        decreases v.len() - i,
    {
        let c = copy_span(&v[i]);
        r.push(c);
        i = i + 1;
    }
    assert(spans_view(r@) =~= spans_view(v@));
    r
}

} // verus!
