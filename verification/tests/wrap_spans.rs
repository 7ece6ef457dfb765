use mdtui::style::{new_style, plain_style, span, Span, BOLD};
use mdtui::wrap::wrap_spans;

fn raw(s: &str) -> Span {
    span(s.to_string(), plain_style())
}

fn bold(s: &str) -> Span {
    span(s.to_string(), new_style(None, BOLD))
}

fn wrap_lines_content(lines: &[Vec<Span>]) -> Vec<String> {
    lines.iter().map(|line| line.iter().map(|s| s.content.as_str()).collect::<String>()).collect()
}

fn check_basic_word_wrap() {
    let lines = wrap_spans(&vec![raw("hello world foo")], 10);
    let content = wrap_lines_content(&lines);
    assert_eq!(content.len(), 2);
    assert!(content[0].len() <= 10);
    assert!(content[1].len() <= 10);
    assert_eq!(content[0], "hello");
    assert_eq!(content[1], "world foo");
}

fn check_character_wrap() {
    let lines = wrap_spans(&vec![raw("abcdefghij")], 5);
    assert_eq!(wrap_lines_content(&lines), vec!["abcde", "fghij"]);
}

fn check_style_preservation() {
    let lines = wrap_spans(&vec![bold("abcdefghij")], 5);
    assert_eq!(lines.len(), 2);
    for line in &lines {
        for s in line {
            assert!(s.style.add_modifier & BOLD != 0, "style lost after split: {:?}", s);
        }
    }
    assert_eq!(wrap_lines_content(&lines), vec!["abcde", "fghij"]);
}

fn check_multi_span() {
    let lines = wrap_spans(&vec![raw("hello "), bold("world")], 5);
    let content = wrap_lines_content(&lines);
    assert_eq!(content.len(), 2);
    assert_eq!(content[0], "hello");
    assert_eq!(content[1], "world");
    assert!(lines[1][0].style.add_modifier & BOLD != 0);
}

fn check_empty_input(width: usize) {
    let result = wrap_spans(&vec![], width);
    assert_eq!(result.len(), 1);
    assert!(result[0].is_empty());
}

fn check_width_exact() {
    let content = wrap_lines_content(&wrap_spans(&vec![raw("12345")], 5));
    assert_eq!(content.len(), 1);
    assert_eq!(content[0], "12345");
}

fn check_trailing_whitespace() {
    let content = wrap_lines_content(&wrap_spans(&vec![raw("hello world")], 6));
    assert_eq!(content.len(), 2);
    assert!(!content[0].ends_with(' '), "trailing space not trimmed: {:?}", content[0]);
    assert!(!content[1].starts_with(' '), "leading space on wrapped line: {:?}", content[1]);
}

fn check_multiple_spaces() {
    let content = wrap_lines_content(&wrap_spans(&vec![raw("a  b")], 10));
    assert_eq!(content.len(), 1);
    assert_eq!(content[0], "a  b");
}

fn check_already_short() {
    let content = wrap_lines_content(&wrap_spans(&vec![raw("hi")], 80));
    assert_eq!(content.len(), 1);
    assert_eq!(content[0], "hi");
}

fn check_zero_width() {
    let content = wrap_lines_content(&wrap_spans(&vec![raw("abc")], 0));
    assert_eq!(content, vec!["a", "b", "c"]);
}

#[test]
fn wrap_wrap_spans_basic_word_wrap() {
    check_basic_word_wrap();
}

#[test]
fn markdown_wrap_spans_basic_word_wrap() {
    check_basic_word_wrap();
}

#[test]
fn wrap_wrap_spans_character_wrap() {
    check_character_wrap();
}

#[test]
fn markdown_wrap_spans_character_wrap() {
    check_character_wrap();
}

#[test]
fn wrap_wrap_spans_style_preservation() {
    check_style_preservation();
}

#[test]
fn markdown_wrap_spans_style_preservation() {
    check_style_preservation();
}

#[test]
fn wrap_wrap_spans_multi_span() {
    check_multi_span();
}

#[test]
fn markdown_wrap_spans_multi_span() {
    check_multi_span();
}

#[test]
fn wrap_wrap_spans_empty_input() {
    check_empty_input(80);
}

#[test]
fn markdown_wrap_spans_empty_input() {
    check_empty_input(80);
}

#[test]
fn wrap_wrap_spans_width_exact() {
    check_width_exact();
}

#[test]
fn markdown_wrap_spans_width_exact() {
    check_width_exact();
}

#[test]
fn wrap_wrap_spans_trailing_whitespace() {
    check_trailing_whitespace();
}

#[test]
fn markdown_wrap_spans_trailing_whitespace() {
    check_trailing_whitespace();
}

#[test]
fn wrap_wrap_spans_multiple_spaces() {
    check_multiple_spaces();
}

#[test]
fn markdown_wrap_spans_multiple_spaces() {
    check_multiple_spaces();
}

#[test]
fn wrap_wrap_spans_already_short() {
    check_already_short();
}

#[test]
fn markdown_wrap_spans_already_short() {
    check_already_short();
}

#[test]
fn wrap_wrap_spans_zero_width() {
    check_zero_width();
}

#[test]
fn markdown_wrap_spans_zero_width() {
    check_zero_width();
}

#[test]
fn wrap_wrap_spans_zero_width_empty() {
    check_empty_input(0);
}

#[test]
fn markdown_wrap_spans_zero_width_empty() {
    check_empty_input(0);
}

#[test]
fn wrap_spans_wide_graphemes_count_two_columns() {
    let content = wrap_lines_content(&wrap_spans(&vec![raw("日本語")], 4));
    assert_eq!(content, vec!["日本", "語"]);
}

#[test]
fn narrower_width_usually_gives_more_lines() {
    let p = "This is a paragraph with enough words to demonstrate that narrower width produces more lines";
    assert!(wrap_spans(&vec![raw(p)], 20).len() > wrap_spans(&vec![raw(p)], 80).len());
}

#[test]
fn a_wide_space_can_give_fewer_lines_at_a_narrower_width() {
    // The ideographic space is two columns wide: at 4 columns it fits after
    // "ab" and pushes "d" to a new line; at 3 it is dropped and "d" fits.
    let s = "ab\u{3000}d";
    assert_eq!(wrap_lines_content(&wrap_spans(&vec![raw(s)], 3)), vec!["abd"]);
    assert_eq!(wrap_lines_content(&wrap_spans(&vec![raw(s)], 4)), vec!["ab", "d"]);
}
