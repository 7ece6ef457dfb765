use mdtui::renderer::{deduplicate_links, render_markdown, render_markdown_blocks, LinkInfo};
use mdtui::blocks::RenderedBlock;
use mdtui::style::{Color, Span, BOLD, CROSSED_OUT, ITALIC};
use mdtui::syntax::Syntaxes;
use unicode_width::UnicodeWidthStr;

fn render(input: &str, width: Option<usize>) -> Vec<Vec<Span>> {
    let ss = Syntaxes::load();
    render_markdown(input, width, &ss, false)
}

fn render_at_width(input: &str, width: usize) -> Vec<Vec<Span>> {
    render(input, Some(width))
}

fn text_content(text: &[Vec<Span>]) -> Vec<String> {
    text.iter().map(|line| line.iter().map(|s| s.content.as_str()).collect::<String>()).collect()
}

fn max_line_width(text: &[Vec<Span>]) -> usize {
    text.iter().map(|l| l.iter().map(|s| s.content.width()).sum::<usize>()).max().unwrap_or(0)
}

#[test]
fn headings_stripped_and_styled() {
    let text = render("# Heading 1\n\n## Heading 2\n\n### Heading 3\n", None);
    let content = text_content(&text);
    for line in &content {
        assert!(!line.starts_with("# "), "H1 marker visible: {line}");
        assert!(!line.starts_with("## "), "H2 marker visible: {line}");
        assert!(!line.starts_with("### "), "H3 marker visible: {line}");
    }
    let h1_line = text.iter().find(|l| l.iter().any(|s| s.content.contains("Heading 1")));
    assert!(h1_line.is_some(), "H1 heading not found");
    let h1_span = h1_line.unwrap().iter().find(|s| s.content.contains("Heading 1")).unwrap();
    assert!(h1_span.style.add_modifier & BOLD != 0);
}

#[test]
fn bold_italic_strikethrough_styled() {
    let text = render("**bold** *italic* ~~struck~~\n", None);
    let joined = text_content(&text).join(" ");
    assert!(!joined.contains("**"), "Bold markers visible");
    assert!(!joined.contains("~~"), "Strikethrough markers visible");
    for line in &text {
        for span in line {
            if span.content.contains("bold") {
                assert!(span.style.add_modifier & BOLD != 0);
            }
            if span.content.contains("italic") {
                assert!(span.style.add_modifier & ITALIC != 0);
            }
            if span.content.contains("struck") {
                assert!(span.style.add_modifier & CROSSED_OUT != 0);
            }
        }
    }
}

#[test]
fn inline_code_no_backticks() {
    let joined = text_content(&render("Use `code` here\n", None)).join(" ");
    assert!(!joined.contains('`'), "Backtick visible in: {joined}");
    assert!(joined.contains("code"), "Code content missing");
}

#[test]
fn code_block_no_fences() {
    let joined = text_content(&render("```rust\nfn main() {}\n```\n", None)).join("\n");
    assert!(!joined.contains("```"), "Code fence visible in:\n{joined}");
    assert!(joined.contains("fn main()"), "Code content missing");
    assert!(joined.contains('┌'), "Missing code block header");
    assert!(joined.contains('└'), "Missing code block footer");
}

#[test]
fn unordered_list_bullets() {
    let joined = text_content(&render("- item 1\n- item 2\n", None)).join("\n");
    assert!(!joined.contains("- item"), "Dash marker visible");
    assert!(joined.contains('•'), "Bullet character missing");
    assert!(joined.contains("item 1"));
    assert!(joined.contains("item 2"));
}

#[test]
fn ordered_list_numbers() {
    let joined = text_content(&render("1. first\n2. second\n", None)).join("\n");
    assert!(joined.contains("1."), "Ordered number missing");
    assert!(joined.contains("first"));
    assert!(joined.contains("second"));
}

#[test]
fn blockquote_styled() {
    let joined = text_content(&render("> quoted text\n", None)).join("\n");
    assert!(!joined.starts_with("> "), "Raw blockquote marker visible");
    assert!(joined.contains('▎'), "Blockquote bar missing");
    assert!(joined.contains("quoted text"));
}

#[test]
fn horizontal_rule() {
    let joined = text_content(&render("---\n", None)).join("\n");
    assert!(!joined.contains("---"), "Raw HR marker visible");
    assert!(joined.contains('─'), "HR line missing");
}

#[test]
fn task_list_checkboxes() {
    let joined = text_content(&render("- [ ] unchecked\n- [x] checked\n", None)).join("\n");
    assert!(joined.contains('☐'), "Unchecked box missing");
    assert!(joined.contains('☑'), "Checked box missing");
    assert!(joined.contains("unchecked"));
    assert!(joined.contains("checked"));
}

#[test]
fn tabs_expanded() {
    for line in &render("\tindented\n", None) {
        for span in line {
            assert!(!span.content.contains('\t'), "Tab not expanded");
        }
    }
}

#[test]
fn empty_input() {
    let text = render("", None);
    assert!(text.is_empty());
}

#[test]
fn whitespace_only() {
    let _ = render("   \n\n   \n", None);
}

#[test]
fn nested_list_indentation() {
    let content = text_content(&render("- outer\n  - inner\n    - deep\n", None));
    let inner_line = content.iter().find(|l| l.contains("inner"));
    assert!(inner_line.is_some(), "Inner item missing");
    let deep_line = content.iter().find(|l| l.contains("deep"));
    assert!(deep_line.is_some(), "Deep item missing");
    assert!(inner_line.unwrap().starts_with("  ◦ "));
    assert!(deep_line.unwrap().starts_with("    ▪ "));
}

#[test]
fn scope_render_markdown_code_block_uses_ansi_colors() {
    let text = render("```rust\nfn main() { let x = 42; }\n```\n", None);
    for line in &text {
        for span in line {
            if let Some(fg) = span.style.fg {
                assert!(!matches!(fg, Color::Rgb(_, _, _)), "Found Color::Rgb in {:?}", span.content);
            }
        }
    }
}

#[test]
fn table_renders_with_borders() {
    let input = "| Key | Action |\n|---|---|\n| j/k | Navigate |\n| Enter | Open file |\n";
    let joined = text_content(&render(input, None)).join("\n");
    assert!(joined.contains('┌'), "Missing table top border");
    assert!(joined.contains('┘'), "Missing table bottom border");
    assert!(joined.contains('│'), "Missing table cell border");
    assert!(joined.contains("Key"), "Header content missing");
    assert!(joined.contains("Navigate"), "Cell content missing");
}

#[test]
fn table_header_is_bold() {
    let text = render("| Name | Value |\n|---|---|\n| a | b |\n", None);
    let mut seen = false;
    for line in &text {
        for span in line {
            if span.content.contains("Name") {
                seen = true;
                assert!(span.style.add_modifier & BOLD != 0, "Header should be bold");
            }
        }
    }
    assert!(seen);
}

#[test]
fn table_empty_does_not_panic() {
    let _ = render("| |\n|---|\n| |\n", None);
}

#[test]
fn table_with_inline_code() {
    let input = "| Command | Description |\n|---|---|\n| `ls` | List files |\n";
    let joined = text_content(&render(input, None)).join("\n");
    assert!(joined.contains("ls"), "Inline code content missing in table");
    assert!(joined.contains("List files"), "Cell content missing");
}

#[test]
fn table_separator_between_header_and_body() {
    let joined = text_content(&render("| A | B |\n|---|---|\n| 1 | 2 |\n", None)).join("\n");
    assert!(joined.contains('├'), "Missing header separator left");
    assert!(joined.contains('┼'), "Missing header separator cross");
    assert!(joined.contains('┤'), "Missing header separator right");
}

#[test]
fn paragraph_wraps_to_width() {
    let input = "This is a paragraph with enough words to require wrapping at a narrow width.";
    let text = render_at_width(input, 30);
    let content = text_content(&text);
    assert!(content.len() > 1, "Expected wrapping, got: {content:?}");
    assert!(max_line_width(&text) <= 30, "Line exceeded width 30: {content:?}");
}

#[test]
fn heading_wraps_with_style() {
    let text = render_at_width("# A very long heading that should definitely wrap at a narrow width", 20);
    let content = text_content(&text);
    assert!(content.len() > 1, "Expected heading to wrap, got: {content:?}");
    for line in &text {
        for span in line {
            if !span.content.trim().is_empty() {
                assert!(span.style.add_modifier & BOLD != 0, "Heading style missing on {:?}", span.content);
            }
        }
    }
}

#[test]
fn blockquote_bars_on_all_wrapped_lines() {
    let input = "> This is a blockquote with enough text to wrap to multiple lines easily.";
    let content = text_content(&render_at_width(input, 25));
    assert!(content.len() > 1, "Expected wrapping, got: {content:?}");
    for (i, line) in content.iter().enumerate() {
        assert!(line.starts_with("\u{258e} "), "Line {i} missing blockquote bar: {line:?}");
    }
}

#[test]
fn nested_blockquote_bars_on_wrapped() {
    let input = "> > This is a nested blockquote that should wrap with double bars on every line.";
    let content = text_content(&render_at_width(input, 25));
    assert!(content.len() > 1, "Expected wrapping, got: {content:?}");
    for (i, line) in content.iter().enumerate() {
        assert!(line.starts_with("\u{258e} \u{258e} "), "Line {i} missing nested bars: {line:?}");
    }
}

#[test]
fn list_hanging_indent() {
    let input = "- This is a long list item that should wrap with a hanging indent on continuation lines.";
    let content = text_content(&render_at_width(input, 25));
    assert!(content.len() > 1, "Expected wrapping, got: {content:?}");
    assert!(content[0].contains('\u{2022}'), "First line missing bullet: {:?}", content[0]);
    for (i, line) in content.iter().enumerate().skip(1) {
        assert!(!line.contains('\u{2022}'), "Continuation line {i} should not have bullet: {line:?}");
        let trimmed = line.trim_start();
        assert!(line.len() > trimmed.len(), "Continuation line {i} missing hanging indent: {line:?}");
    }
}

#[test]
fn ordered_list_hanging_indent() {
    let input = "1. First item text that should wrap around\n2. Second item text here";
    let text = render_at_width(input, 20);
    let content = text_content(&text);
    assert!(content.iter().any(|l| l.contains("1. ")), "Missing '1.' marker in: {content:?}");
    assert!(content.iter().any(|l| l.contains("2. ")), "Missing '2.' marker in: {content:?}");
    assert!(max_line_width(&text) <= 20, "Line exceeded width 20: {content:?}");
    let first_item_lines: Vec<_> = content.iter().take_while(|l| !l.contains("2. ")).collect();
    if first_item_lines.len() > 1 {
        for cont_line in &first_item_lines[1..] {
            let trimmed = cont_line.trim_start();
            assert!(cont_line.len() > trimmed.len(), "Continuation line missing hanging indent: {cont_line:?}");
        }
    }
}

#[test]
fn hr_fills_available_width() {
    let content = text_content(&render_at_width("---", 60));
    let hr_line = content.iter().find(|l| l.contains('─')).expect("HR line missing");
    assert_eq!(hr_line.chars().filter(|&c| c == '─').count(), 60);
}

#[test]
fn hr_default_width_without_constraint() {
    let content = text_content(&render("---\n", None));
    let hr_line = content.iter().find(|l| l.contains('─')).expect("HR line missing");
    assert_eq!(hr_line.chars().filter(|&c| c == '─').count(), 40);
}

#[test]
fn code_block_truncated_at_width() {
    let input = "```\nvery long line of code that definitely exceeds the width limit we set\n```";
    let text = render_at_width(input, 30);
    let content = text_content(&text);
    assert!(max_line_width(&text) <= 30, "Code block line exceeded width 30: {content:?}");
    let joined = content.join("\n");
    assert!(joined.contains('┌'), "Missing code block header");
    assert!(joined.contains('└'), "Missing code block footer");
    assert!(joined.contains('│'), "Missing code block side borders");
    assert!(joined.contains('…'), "Missing truncation indicator");
}

#[test]
fn code_block_fits_no_truncation() {
    let joined = text_content(&render_at_width("```\nshort\n```", 40)).join("\n");
    assert!(joined.contains('┌'), "Missing header");
    assert!(joined.contains('└'), "Missing footer");
    assert!(!joined.contains('…'), "Unexpected truncation in short code block");
    assert!(joined.contains("short"), "Code content missing");
}

#[test]
fn table_truncated_at_width() {
    let input = "| Very Long Header Name | Another Long Column Header |\n|---|---|\n| cell content here | more cell content here |\n";
    let text = render_at_width(input, 30);
    let content = text_content(&text);
    assert!(max_line_width(&text) <= 30, "Table line exceeded width 30: {content:?}");
    let joined = content.join("\n");
    assert!(joined.contains('┌'), "Missing table top border");
    assert!(joined.contains('┘'), "Missing table bottom border");
    assert!(joined.contains('│'), "Missing table cell border");
}

#[test]
fn table_fits_no_truncation() {
    let joined = text_content(&render_at_width("| A | B |\n|---|---|\n| 1 | 2 |\n", 80)).join("\n");
    assert!(!joined.contains('…'), "Unexpected truncation in narrow table");
    assert!(joined.contains('A'));
    assert!(joined.contains('B'));
    assert!(joined.contains('1'));
    assert!(joined.contains('2'));
}

#[test]
fn table_cell_content_wraps_instead_of_truncating() {
    let input = "| VeryLongCellContentThatExceedsWidth | Short |\n|---|---|\n| AnotherLongCellContent | X |\n";
    let text = render_at_width(input, 25);
    let joined = text_content(&text).join("\n");
    assert!(!joined.contains('\u{2026}'), "Content should wrap, not truncate with ellipsis");
    assert!(text.len() > 5, "Table should have extra lines from wrapping, got {}", text.len());
    assert!(joined.contains('┌'), "Missing table top border");
    assert!(joined.contains('┘'), "Missing table bottom border");
}

#[test]
fn width_change_produces_different_line_count() {
    let input = "This is a paragraph with enough words to demonstrate that narrower width produces more lines";
    let wide = render_at_width(input, 80);
    let narrow = render_at_width(input, 20);
    assert!(narrow.len() > wide.len(), "Narrow should have more lines");
}

#[test]
fn comprehensive_width_integration() {
    let input = "\
# A Heading That Is Fairly Long

This is a paragraph with enough words to need wrapping at narrow widths.

> A blockquote that also has enough text to require wrapping at this width.

- A list item with enough words to demonstrate hanging indent on continuation lines
- Second item

1. First ordered item with text that wraps
2. Second ordered item

```rust
fn example() { let very_long_variable_name = \"some value\"; }
```

| Key | Description |
|---|---|
| j/k | Navigate up and down |

---
";
    let width = 40;
    let text = render_at_width(input, width);
    let content = text_content(&text);
    assert!(max_line_width(&text) <= width, "Line exceeded width {width}: max was {}", max_line_width(&text));
    assert!(content.len() > 10, "Expected many lines, got {}", content.len());
    let joined = content.join("\n");
    assert!(joined.contains('┌'));
    assert!(joined.contains('└'));
    assert!(joined.contains('│'));
    assert!(joined.contains("Key"));
    assert!(joined.contains("Navigate"));
    assert!(joined.contains('▎'));
    assert!(joined.contains('•'));
    assert!(joined.contains('─'));
    assert!(joined.contains("Heading"));
}

// ── blocks and links ─────────────────────────────────────────

fn blocks_of(input: &str) -> (Vec<RenderedBlock>, Vec<LinkInfo>) {
    let ss = Syntaxes::load();
    render_markdown_blocks(input, &ss, false)
}

#[test]
fn links_are_collected_with_their_text() {
    let (_, links) = blocks_of("[click here](https://example.com) and <https://auto.example>\n");
    assert_eq!(links.len(), 2);
    assert_eq!(links[0].display_text, "click here");
    assert_eq!(links[0].url, "https://example.com");
    assert_eq!(links[1].url, "https://auto.example");
    assert_eq!(links[1].display_text, "https://auto.example");
}

#[test]
fn link_without_text_shows_its_url() {
    let (_, links) = blocks_of("[](https://x.example)\n");
    assert_eq!(links.len(), 1);
    assert_eq!(links[0].display_text, "https://x.example");
}

#[test]
fn heading_lines_carry_their_level() {
    let (blocks, _) = blocks_of("# One\n\ntext\n\n### Three\n");
    let levels: Vec<Option<u8>> = blocks
        .iter()
        .filter_map(|b| match b {
            RenderedBlock::StyledLine { heading_level, .. } => Some(*heading_level),
            _ => None,
        })
        .collect();
    assert_eq!(levels, vec![Some(1), None, Some(3)]);
}

#[test]
fn blocks_are_separated_by_blank_lines() {
    let (blocks, _) = blocks_of("para one\n\npara two\n");
    assert_eq!(blocks.len(), 3);
    assert!(matches!(blocks[1], RenderedBlock::BlankLine { blockquote_depth: 0 }));
}

#[test]
fn code_block_keeps_language_and_lines() {
    let (blocks, _) = blocks_of("```python extra\nx = 1\ny = 2\n```\n");
    match &blocks[0] {
        RenderedBlock::CodeBlock { lang, highlighted_lines, blockquote_depth } => {
            assert_eq!(lang, "python");
            assert_eq!(highlighted_lines.len(), 2);
            assert_eq!(*blockquote_depth, 0);
            let first: String = highlighted_lines[0].iter().map(|s| s.content.as_str()).collect();
            assert_eq!(first, "x = 1");
        }
        _ => panic!("expected a code block"),
    }
}

#[test]
fn ordered_list_counts_from_its_start() {
    let content = text_content(&render("3. c\n4. d\n", None));
    assert_eq!(content, vec!["3. c", "4. d"]);
}

#[test]
fn no_color_shows_the_text_as_typed() {
    let ss = Syntaxes::load();
    let (blocks, links) = render_markdown_blocks("# Title\n[a](u)\tx\n", &ss, true);
    assert_eq!(blocks.len(), 2);
    match &blocks[1] {
        RenderedBlock::StyledLine { spans, .. } => assert_eq!(spans[0].content, "[a](u)    x"),
        _ => panic!("expected a styled line"),
    }
    assert_eq!(links.len(), 1);
}

#[test]
fn deduplicate_links_keeps_first_per_url() {
    let mk = |t: &str, u: &str| LinkInfo { display_text: t.to_string(), url: u.to_string() };
    let out = deduplicate_links(vec![mk("a", "x"), mk("b", "y"), mk("c", "x"), mk("d", "z"), mk("e", "y")]);
    let shown: Vec<&str> = out.iter().map(|l| l.display_text.as_str()).collect();
    assert_eq!(shown, vec!["a", "b", "d"]);
}

#[test]
fn render_without_colors_keeps_lines_unwrapped() {
    let ss = Syntaxes::load();
    let lines = render_markdown("# Title\n\tsome words that are longer than ten columns\r\n**b**", Some(10), &ss, true);
    let text: Vec<String> = lines.iter().map(|l| l.iter().map(|s| s.content.as_str()).collect()).collect();
    assert_eq!(text, vec!["# Title", "    some words that are longer than ten columns", "**b**"]);
    assert!(lines.iter().all(|l| l.len() == 1 && l[0].style == mdtui::style::plain_style()));
}
