//! The preview pane: fitting the document to the pane's size, the lines in
//! view with search matches highlighted, and the scrollbar's position.

use crate::blocks::{block_starts, blocks_lines, blocks_view, lemma_block_starts_len, nats, rewrap_blocks};
use crate::document::{clamped, heading_starts, DocumentState};
use crate::highlight::{highlight_line, highlight_line_spec};
use crate::session::App;
use crate::style::{copy_spans, spans_view, Color, Span, Style};
use crate::text::{chars_of, lowercase_str, str_lowercase};
use crate::wrap::lines_view;
use vstd::prelude::*;

verus! {

/// The style of a search match.
pub open spec fn match_style() -> Style {
    Style { fg: Some(Color::Black), bg: Some(Color::Yellow), add_modifier: 0, sub_modifier: 0 }
}

/// The style of the current search match.
pub open spec fn current_match_style() -> Style {
    Style { fg: Some(Color::Black), bg: Some(Color::LightRed), add_modifier: 0, sub_modifier: 0 }
}

/// Search results are shown: a query with at least one match.
pub open spec fn search_shown(a: App) -> bool {
    a.search.query@.len() > 0 && a.search.matches@.len() > 0
}

/// The first line after the view.
pub open spec fn view_end(d: DocumentState) -> int {
    if d.scroll_offset + d.viewport_height > d.rendered_lines@.len() {
        d.rendered_lines@.len() as int
    } else {
        d.scroll_offset + d.viewport_height
    }
}

/// Line `k` of the document as shown: with search results shown, its
/// matches highlighted (the current match's line in the current match's
/// style); otherwise as rendered.
pub open spec fn shown_line(a: App, k: int) -> Seq<(Seq<char>, Style)> {
    let line = spans_view(a.document.rendered_lines@[k]@);
    if search_shown(a) {
        let style = if a.search.current < a.search.matches@.len() && a.search.matches@[a.search.current as int] == k {
            current_match_style()
        } else {
            match_style()
        };
        highlight_line_spec(line, str_lowercase(a.search.query@), style)
    } else {
        line
    }
}

impl DocumentState {
    /// Fits the document to the pane's inner size: the height is taken;
    /// when the width changed and a file is open, the blocks are laid out
    /// again at the new width (search cache and heading index rebuilt); the
    /// scroll position is kept within the document.
    pub fn fit_viewport(&mut self, width: usize, height: usize)
        ensures
            final(self).viewport_height == height,
            (width != old(self).viewport_width && old(self).current_file is Some) ==> {
                &&& *final(self) == (DocumentState {
                    rendered_lines: final(self).rendered_lines,
                    rendered_lines_lower: final(self).rendered_lines_lower,
                    block_line_starts: final(self).block_line_starts,
                    heading_line_offsets: final(self).heading_line_offsets,
                    viewport_width: width,
                    viewport_height: height,
                    scroll_offset: final(self).scroll_offset,
                    ..*old(self)
                })
                &&& lines_view(final(self).rendered_lines@) == blocks_lines(blocks_view(old(self).rendered_blocks@), Some(width))
                &&& nats(final(self).block_line_starts@) == block_starts(blocks_view(old(self).rendered_blocks@), Some(width))
                &&& final(self).rendered_lines_lower@.len() == final(self).rendered_lines@.len()
                &&& forall|i: int| 0 <= i < final(self).rendered_lines_lower@.len() ==> #[trigger] final(self).rendered_lines_lower@[i]@
                    == crate::document::lower_line(final(self).rendered_lines@[i])
                &&& final(self).heading_line_offsets@ == heading_starts(
                    blocks_view(old(self).rendered_blocks@),
                    final(self).block_line_starts@,
                )
                &&& final(self).scroll_offset == clamped(*final(self), old(self).scroll_offset as nat)
            },
            !(width != old(self).viewport_width && old(self).current_file is Some) ==> {
                &&& *final(self) == (DocumentState {
                    viewport_height: height,
                    scroll_offset: final(self).scroll_offset,
                    ..*old(self)
                })
                &&& final(self).scroll_offset == if final(self).rendered_lines@.len() > 0 {
                    clamped(*final(self), old(self).scroll_offset as nat)
                } else {
                    old(self).scroll_offset as nat
                }
            },
    {
        self.viewport_height = height;
        if width != self.viewport_width && self.current_file.is_some() {
            let (lines, starts) = rewrap_blocks(&self.rendered_blocks, Some(width));
            proof {
                lemma_block_starts_len(blocks_view(self.rendered_blocks@), Some(width));
            }
            self.rendered_lines = lines;
            self.block_line_starts = starts;
            self.rebuild_lower_cache();
            self.viewport_width = width;
            proof {
                assert(blocks_view(self.rendered_blocks@) == self.rendered_blocks@.map_values(
                    |b: crate::blocks::RenderedBlock| crate::blocks::block_view(b),
                ));
            }
            self.rebuild_heading_index();
            self.clamp_scroll();
        }
        if self.rendered_lines.len() > 0 {
            self.clamp_scroll();
        }
    }

    /// The scrollbar's range and position, when the document is longer
    /// than the pane.
    pub fn scrollbar(&self) -> (r: Option<(usize, usize)>)
        ensures
            self.rendered_lines@.len() > self.viewport_height ==> r == Some(
                ((self.rendered_lines@.len() - self.viewport_height) as usize, self.scroll_offset),
            ),
            self.rendered_lines@.len() <= self.viewport_height ==> r is None,
    {
        if self.rendered_lines.len() > self.viewport_height {
            Some((self.rendered_lines.len() - self.viewport_height, self.scroll_offset))
        } else {
            None
        }
    }
}

/// The style of a search match.
pub fn match_style_exec() -> (s: Style)
    ensures
        s == match_style(),
{
    Style { fg: Some(Color::Black), bg: Some(Color::Yellow), add_modifier: 0, sub_modifier: 0 }
}

/// The style of the current search match.
pub fn current_match_style_exec() -> (s: Style)
    ensures
        s == current_match_style(),
{
    Style { fg: Some(Color::Black), bg: Some(Color::LightRed), add_modifier: 0, sub_modifier: 0 }
}

impl App {
    /// The lines in view, from the scroll position on for one pane's
    /// height, with search matches highlighted.
    pub fn visible_lines(&self) -> (r: Vec<Vec<Span>>)
        requires
            self.document.scroll_offset <= self.document.rendered_lines@.len(),
        ensures
            r@.len() == view_end(self.document) - self.document.scroll_offset,
            forall|i: int| 0 <= i < r@.len() ==> spans_view(#[trigger] r@[i]@) == shown_line(*self, self.document.scroll_offset + i),
    {
        let lines = &self.document.rendered_lines;
        let start = self.document.scroll_offset;
        let end = if self.document.viewport_height > lines.len() - start {
            lines.len()
        } else {
            start + self.document.viewport_height
        };
        let shown = self.search.query.unicode_len() > 0 && self.search.matches.len() > 0;
        let low = lowercase_str(self.search.query.as_str());
        let q = chars_of(low.as_str());
        let current: Option<usize> = if self.search.current < self.search.matches.len() {
            Some(self.search.matches[self.search.current])
        } else {
            None
        };
        let mut out: Vec<Vec<Span>> = Vec::new();
        let mut k = start;
        while k < end
            invariant
                start == self.document.scroll_offset,
                lines == &self.document.rendered_lines,
                end == view_end(self.document),
                start <= k <= end,
                out@.len() == k - start,
                shown == search_shown(*self),
                q@ == str_lowercase(self.search.query@),
                current == (if self.search.current < self.search.matches@.len() {
                    Some(self.search.matches@[self.search.current as int])
                } else {
                    None::<usize>
                }),
                forall|i: int| 0 <= i < out@.len() ==> spans_view(#[trigger] out@[i]@) == shown_line(*self, start + i),
            decreases end - k,
        {
            let line = if shown {
                let style = if current == Some(k) {
                    current_match_style_exec()
                } else {
                    match_style_exec()
                };
                highlight_line(&lines[k], &q, style)
            } else {
                copy_spans(&lines[k])
            };
            out.push(line);
            k = k + 1;
        }
        out
    }
}

} // verus!
