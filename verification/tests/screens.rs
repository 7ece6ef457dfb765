use mdtui::highlight::{highlight_line, highlight_span};
use mdtui::modes::AppMode;
use mdtui::overlays::{list_window_start, popup_height, truncate_to_width};
use mdtui::preview::{current_match_style_exec, match_style_exec};
use mdtui::scan::{keeps_entry, order_entries, DirEntryInfo};
use mdtui::screens::{welcome_layout, welcome_lines};
use mdtui::session::{App, FileOp, FileRead, Overlay};
use mdtui::style::{Color, Span, Style};
use mdtui::tree::PathMap;
use mdtui::syntax::Syntaxes;

fn plain() -> Style {
    Style { fg: None, bg: None, add_modifier: 0, sub_modifier: 0 }
}

fn raw(s: &str) -> Span {
    Span { content: s.to_string(), style: plain() }
}

fn red() -> Style {
    Style { fg: Some(Color::Red), bg: None, add_modifier: 0, sub_modifier: 0 }
}

fn chars(s: &str) -> Vec<char> {
    s.chars().collect()
}

fn text_of(lines: &[Vec<Span>]) -> String {
    lines.iter().map(|l| l.iter().map(|s| s.content.as_str()).collect::<String>()).collect::<Vec<_>>().join("\n")
}

// ── search highlighting ──────────────────────────────────────

#[test]
fn highlight_span_no_match_returns_original() {
    let result = highlight_span(&raw("hello world"), &chars("xyz"), red());
    assert_eq!(result.len(), 1);
    assert_eq!(result[0].content, "hello world");
}

#[test]
fn highlight_span_splits_at_match_boundary() {
    let result = highlight_span(&raw("hello world!"), &chars("world"), red());
    assert_eq!(result.len(), 3);
    assert_eq!(result[0].content, "hello ");
    assert_eq!(result[1].content, "world");
    assert_eq!(result[1].style.fg, Some(Color::Red));
    assert_eq!(result[2].content, "!");
}

#[test]
fn highlight_line_highlights_multiple_occurrences() {
    let line = vec![raw("foo bar foo baz foo")];
    let result = highlight_line(&line, &chars("foo"), Style { fg: Some(Color::Yellow), ..plain() });
    let foo_count = result.iter().filter(|s| s.content == "foo").count();
    assert_eq!(foo_count, 3);
}

#[test]
fn highlight_span_is_case_insensitive_and_keeps_case() {
    let result = highlight_span(&raw("Hello HELLO"), &chars("hello"), red());
    let parts: Vec<&str> = result.iter().map(|s| s.content.as_str()).collect();
    assert_eq!(parts, vec!["Hello", " ", "HELLO"]);
    assert_eq!(result[0].style, red());
    assert_eq!(result[1].style, plain());
}

fn searched_app(ss: &Syntaxes) -> App {
    let mut m = PathMap::new();
    m.insert("t.md".to_string(), "/r/t.md".to_string(), false);
    let mut app = App::new("/r".to_string(), m, 80, 24, 0);
    app.open_read("/r/t.md".to_string(), FileRead::Text("foo\n\nbar foo".to_string()), ss, true);
    app.search.query = "foo".to_string();
    app.search.matches = vec![0, 2];
    app.search.current = 1;
    app
}

#[test]
fn visible_lines_mark_the_current_match() {
    let ss = Syntaxes::load();
    let app = searched_app(&ss);
    let lines = app.visible_lines();
    assert_eq!(lines.len(), 3);
    assert_eq!(lines[0][0].content, "foo");
    assert_eq!(lines[0][0].style, match_style_exec());
    assert_eq!(lines[2][1].content, "foo");
    assert_eq!(lines[2][1].style, current_match_style_exec());
}

#[test]
fn draw_preview_empty_shows_welcome() {
    let app = App::new("/r".to_string(), PathMap::new(), 56, 23, 0);
    assert!(app.document.rendered_lines.is_empty());
    let text = text_of(&welcome_lines(23));
    assert!(text.contains("Terminal Markdown Viewer"));
}

// ── welcome screen ───────────────────────────────────────────

#[test]
fn welcome_screen_renders_logo() {
    let text = text_of(&welcome_lines(29));
    assert!(text.contains("Terminal Markdown Viewer"));
    assert!(text.contains("███╗   ███╗██████╗ ████████╗"));
}

#[test]
fn welcome_screen_renders_keybindings() {
    let text = text_of(&welcome_lines(29));
    assert!(text.contains("Navigate files"));
    assert!(text.contains("Quit"));
    assert!(text.contains("v0.1.0"));
}

#[test]
fn welcome_screen_small_terminal_no_panic() {
    let lines = welcome_lines(2);
    assert!(text_of(&lines).contains("mdt"));
    assert!(!text_of(&lines).contains("Terminal Markdown Viewer"));
}

#[test]
fn welcome_layout_centers_content() {
    let l = welcome_layout(29);
    assert!(l.show_logo && l.show_subtitle && l.show_keybindings && l.show_version);
    assert_eq!(l.kb_count, 7);
    assert_eq!(l.top_pad, 5);
    assert_eq!(welcome_lines(29).len(), 5 + 6 + 2 + 2 + 7 + 2);
    let small = welcome_layout(14);
    assert!(small.show_keybindings && !small.show_version);
    assert_eq!(small.kb_count, 4);
}

#[test]
fn welcome_keybinding_rows_are_padded() {
    let lines = welcome_lines(29);
    let row = &lines[5 + 6 + 2 + 2];
    assert_eq!(row[0].content, "  Spc+e");
    assert_eq!(row[1].content, "   ");
    assert_eq!(row[2].content, "Open file tree ");
}

// ── status bar ───────────────────────────────────────────────

#[test]
fn status_bar_shows_mode_file_and_position() {
    let ss = Syntaxes::load();
    let mut m = PathMap::new();
    m.insert("t.md".to_string(), "/r/t.md".to_string(), false);
    let mut app = App::new("/r".to_string(), m, 80, 24, 0);
    app.open_read("/r/t.md".to_string(), FileRead::Text("a\n\nb".to_string()), &ss, true);
    app.editor.is_dirty = true;
    app.status_message = "hi".to_string();
    let bar = app.status_bar(40);
    let parts: Vec<&str> = bar.iter().map(|s| s.content.as_str()).collect();
    assert_eq!(parts[0], " NORMAL ");
    assert_eq!(parts[2], "t.md [+] hi");
    assert_eq!(parts[4], "Ln 1/3 ");
    assert_eq!(parts.iter().map(|p| p.len()).sum::<usize>(), 40);
}

#[test]
fn status_bar_in_command_mode_shows_input() {
    let mut app = App::new("/r".to_string(), PathMap::new(), 80, 24, 0);
    app.mode = AppMode::Command;
    app.command_buffer = "wq".to_string();
    let bar = app.status_bar(40);
    assert_eq!(bar.len(), 1);
    assert_eq!(bar[0].content, ":wq█");
}

// ── overlays ─────────────────────────────────────────────────

#[test]
fn list_window_keeps_selection_in_view() {
    assert_eq!(list_window_start(3, 5), 0);
    assert_eq!(list_window_start(7, 5), 3);
}

#[test]
fn truncate_to_width_adds_ellipsis() {
    assert_eq!(truncate_to_width("short", 10), "short");
    assert_eq!(truncate_to_width("abcdefghij", 5), "abcd…");
}

#[test]
fn popup_height_is_bounded() {
    assert_eq!(popup_height(3, 40), 13);
    assert_eq!(popup_height(100, 40), 30);
    assert_eq!(popup_height(0, 12), 8);
}

#[test]
fn file_op_dialog_texts() {
    let mut app = App::new("/r".to_string(), PathMap::new(), 80, 24, 0);
    assert!(app.file_op_dialog().is_none());
    app.overlay = Overlay::FileOp(FileOp::CreateFile { parent_dir: "/r/docs".to_string() });
    let (t, h, i, p) = app.file_op_dialog().unwrap();
    assert_eq!((t.as_str(), h.as_str(), i, p.as_str()), ("New File", "in docs/", true, "filename"));
    app.overlay = Overlay::FileOp(FileOp::CreateDir { parent_dir: "/r".to_string() });
    assert_eq!(app.file_op_dialog().unwrap().1, "in ./");
    app.overlay =
        Overlay::FileOp(FileOp::Delete { target: "/r/a.md".to_string(), is_dir: false, name: "a.md".to_string() });
    assert_eq!(app.file_op_dialog().unwrap().1, "Delete file \"a.md\"?");
}

// ── directory scan ───────────────────────────────────────────

fn entry(name: &str, is_dir: bool) -> DirEntryInfo {
    DirEntryInfo { name: name.to_string(), is_dir, is_file: !is_dir }
}

#[test]
fn build_tree_items_empty_dir() {
    assert!(order_entries(Vec::new()).is_empty());
}

#[test]
fn build_tree_items_with_md_files() {
    let r = order_entries(vec![entry("b.md", false), entry("a.md", false), entry("docs", true)]);
    assert_eq!(
        r,
        vec![("docs".to_string(), true), ("a.md".to_string(), false), ("b.md".to_string(), false)]
    );
}

#[test]
fn build_tree_items_excludes_non_md() {
    let r = order_entries(vec![entry("notes.txt", false), entry("keep.md", false), entry(".hidden", true)]);
    assert_eq!(r, vec![("keep.md".to_string(), false)]);
}

#[test]
fn order_entries_ignores_case() {
    let r = order_entries(vec![entry("b.md", false), entry("A.md", false), entry("Zed", true), entry("alpha", true)]);
    let names: Vec<&str> = r.iter().map(|e| e.0.as_str()).collect();
    assert_eq!(names, vec!["alpha", "Zed", "A.md", "b.md"]);
}

#[test]
fn directories_stay_only_with_markdown_below() {
    assert!(keeps_entry(false, false));
    assert!(keeps_entry(true, true));
    assert!(!keeps_entry(true, false));
}
