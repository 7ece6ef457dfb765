//! Styles used by the markdown renderer.

use crate::style::{new_style, style_of, Color, Style, BOLD, CROSSED_OUT, ITALIC, UNDERLINED};
use vstd::prelude::*;

verus! {

/// Columns taken by one blockquote bar.
pub const BLOCKQUOTE_INDENT_COLS: usize = 2;

/// Level-1 heading: bold cyan.
pub open spec fn h1_spec() -> Style { style_of(Some(Color::Cyan), BOLD) }
/// Level-2 heading: bold green.
pub open spec fn h2_spec() -> Style { style_of(Some(Color::Green), BOLD) }
/// Level-3 heading: bold yellow.
pub open spec fn h3_spec() -> Style { style_of(Some(Color::Yellow), BOLD) }
/// Level-4 to 6 heading: bold dark gray.
pub open spec fn h4_spec() -> Style { style_of(Some(Color::DarkGray), BOLD) }
/// Strong text: bold light red.
pub open spec fn bold_spec() -> Style { style_of(Some(Color::LightRed), BOLD) }
/// Emphasis: italic.
pub open spec fn italic_spec() -> Style { style_of(None, ITALIC) }
/// Strikethrough: crossed out.
pub open spec fn strike_spec() -> Style { style_of(None, CROSSED_OUT) }
/// Inline code: light cyan.
pub open spec fn inline_code_spec() -> Style { style_of(Some(Color::LightCyan), 0) }
/// Links: underlined blue.
pub open spec fn link_spec() -> Style { style_of(Some(Color::Blue), UNDERLINED) }
/// Blockquote bars: cyan.
pub open spec fn blockquote_spec() -> Style { style_of(Some(Color::Cyan), 0) }
/// Text inside a blockquote, and list markers: gray.
pub open spec fn gray_spec() -> Style { style_of(Some(Color::Gray), 0) }
/// Borders (code blocks, rules, tables): dark gray.
pub open spec fn border_spec() -> Style { style_of(Some(Color::DarkGray), 0) }
/// Table header cells: bold cyan.
pub open spec fn table_header_spec() -> Style { style_of(Some(Color::Cyan), BOLD) }

/// Level-1 heading style.
pub fn h1_style() -> (s: Style) ensures s == h1_spec(), { new_style(Some(Color::Cyan), BOLD) }
/// Level-2 heading style.
pub fn h2_style() -> (s: Style) ensures s == h2_spec(), { new_style(Some(Color::Green), BOLD) }
/// Level-3 heading style.
pub fn h3_style() -> (s: Style) ensures s == h3_spec(), { new_style(Some(Color::Yellow), BOLD) }
/// Level-4 to 6 heading style.
pub fn h4_style() -> (s: Style) ensures s == h4_spec(), { new_style(Some(Color::DarkGray), BOLD) }
/// Strong text style.
pub fn bold_style() -> (s: Style) ensures s == bold_spec(), { new_style(Some(Color::LightRed), BOLD) }
/// Emphasis style.
pub fn italic_style() -> (s: Style) ensures s == italic_spec(), { new_style(None, ITALIC) }
/// Strikethrough style.
pub fn strike_style() -> (s: Style) ensures s == strike_spec(), { new_style(None, CROSSED_OUT) }
/// Inline code style.
pub fn inline_code_style() -> (s: Style) ensures s == inline_code_spec(), { new_style(Some(Color::LightCyan), 0) }
/// Link style.
pub fn link_style() -> (s: Style) ensures s == link_spec(), { new_style(Some(Color::Blue), UNDERLINED) }
/// Blockquote bar style.
pub fn blockquote_style() -> (s: Style) ensures s == blockquote_spec(), { new_style(Some(Color::Cyan), 0) }
/// Gray text style.
pub fn gray_style() -> (s: Style) ensures s == gray_spec(), { new_style(Some(Color::Gray), 0) }
/// Border style.
pub fn border_style() -> (s: Style) ensures s == border_spec(), { new_style(Some(Color::DarkGray), 0) }
/// Table header style.
pub fn table_header_style() -> (s: Style) ensures s == table_header_spec(), { new_style(Some(Color::Cyan), BOLD) }

} // verus!
