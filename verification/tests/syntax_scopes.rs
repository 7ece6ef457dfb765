use mdtui::style::{plain_style, Color, BOLD, ITALIC};
use mdtui::syntax::{highlight_code, scope_to_style};
use mdtui::syntax::Syntaxes;

fn check_keyword_operator() {
    let style = scope_to_style(Some("keyword.operator"));
    assert_eq!(style.fg, Some(Color::Cyan));
    assert_ne!(style.fg, Some(Color::Magenta));
}

fn check_comment() {
    let style = scope_to_style(Some("comment.line.double-slash"));
    assert_eq!(style.fg, Some(Color::DarkGray));
    assert!(style.add_modifier & ITALIC != 0);
}

fn check_string() {
    assert_eq!(scope_to_style(Some("string.quoted.double")).fg, Some(Color::Green));
}

fn check_function() {
    assert_eq!(scope_to_style(Some("entity.name.function")).fg, Some(Color::Blue));
}

fn check_type() {
    assert_eq!(scope_to_style(Some("entity.name.type")).fg, Some(Color::Yellow));
}

fn check_unknown() {
    assert_eq!(scope_to_style(Some("unknown.scope.xyz")), plain_style());
}

fn check_function_before_entity_name() {
    let style = scope_to_style(Some("entity.name.function"));
    assert_eq!(style.fg, Some(Color::Blue));
    assert_ne!(style.fg, Some(Color::Red));
}

fn check_numeric_before_constant() {
    let style = scope_to_style(Some("constant.numeric"));
    assert_eq!(style.fg, Some(Color::Cyan));
    assert!(style.add_modifier & BOLD == 0);
}

#[test]
fn syntax_scope_keyword_operator_gets_operator_not_keyword() {
    check_keyword_operator();
}

#[test]
fn markdown_scope_keyword_operator_gets_operator_not_keyword() {
    check_keyword_operator();
}

#[test]
fn syntax_scope_comment_gets_darkgray_italic() {
    check_comment();
}

#[test]
fn markdown_scope_comment_gets_darkgray_italic() {
    check_comment();
}

#[test]
fn syntax_scope_string_gets_green() {
    check_string();
}

#[test]
fn markdown_scope_string_gets_green() {
    check_string();
}

#[test]
fn syntax_scope_function_gets_blue() {
    check_function();
}

#[test]
fn markdown_scope_function_gets_blue() {
    check_function();
}

#[test]
fn syntax_scope_type_gets_yellow() {
    check_type();
}

#[test]
fn markdown_scope_type_gets_yellow() {
    check_type();
}

#[test]
fn syntax_scope_unknown_gets_default() {
    check_unknown();
}

#[test]
fn markdown_scope_unknown_gets_default() {
    check_unknown();
}

#[test]
fn syntax_scope_entity_name_function_before_entity_name() {
    check_function_before_entity_name();
}

#[test]
fn markdown_scope_entity_name_function_before_entity_name() {
    check_function_before_entity_name();
}

#[test]
fn syntax_scope_constant_numeric_before_constant() {
    check_numeric_before_constant();
}

#[test]
fn markdown_scope_constant_numeric_before_constant() {
    check_numeric_before_constant();
}

#[test]
fn scope_prefix_is_by_whole_atoms() {
    assert_eq!(scope_to_style(Some("keywords.x")), plain_style());
    assert_eq!(scope_to_style(Some("keyword")).fg, Some(Color::Magenta));
    assert_eq!(scope_to_style(Some("constant.language")).add_modifier & BOLD, BOLD);
    assert_eq!(scope_to_style(None), plain_style());
}

#[test]
fn highlight_without_language_is_plain() {
    let ss = Syntaxes::load();
    let lines = highlight_code("a\r\nb\n\nc", "", &ss);
    let text: Vec<String> = lines.iter().map(|l| l.iter().map(|s| s.content.as_str()).collect()).collect();
    assert_eq!(text, vec!["a", "b", "", "c"]);
    let unknown = highlight_code("x\n", "no-such-language", &ss);
    assert_eq!(unknown.len(), 1);
    assert_eq!(unknown[0][0].style, plain_style());
}

#[test]
fn highlight_rust_keeps_text_and_colors_keywords() {
    let ss = Syntaxes::load();
    let lines = highlight_code("fn main() {}\nlet x = 1;\n", "rust", &ss);
    assert_eq!(lines.len(), 2);
    let first: String = lines[0].iter().map(|s| s.content.as_str()).collect();
    assert_eq!(first, "fn main() {}");
    assert!(lines[0].iter().any(|s| s.style.fg == Some(Color::Magenta)));
    assert!(lines.iter().flatten().all(|s| !s.content.contains('\n')));
}

#[test]
fn highlight_keeps_each_line_of_text() {
    let ss = Syntaxes::load();
    let code = "// note: é\nfn f(x: u8) -> u8 { x + 1 }\n\n\"s\"";
    let lines = highlight_code(code, "rs", &ss);
    let text: Vec<String> = lines.iter().map(|l| l.iter().map(|s| s.content.as_str()).collect()).collect();
    assert_eq!(text, vec!["// note: é", "fn f(x: u8) -> u8 { x + 1 }", "", "\"s\""]);
}
