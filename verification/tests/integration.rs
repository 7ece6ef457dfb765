use mdtui::modes::{AppMode, Focus};
use mdtui::screens::welcome_lines;
use mdtui::session::{Action, App, FileRead, Key, KeyCode, Overlay, TreeMove};
use mdtui::style::Span;
use mdtui::tree::PathMap;
use mdtui::syntax::Syntaxes;

fn app_with(files: &[&str]) -> App {
    let mut m = PathMap::new();
    for f in files {
        m.insert(f.to_string(), format!("/r/{f}"), false);
    }
    App::new("/r".to_string(), m, 80, 24, 0)
}

fn open(app: &mut App, name: &str, content: &str, ss: &Syntaxes) {
    app.open_read(format!("/r/{name}"), FileRead::Text(content.to_string()), ss, false);
}

fn key(code: KeyCode) -> Key {
    Key { code, ctrl: false }
}

fn ctrl(c: char) -> Key {
    Key { code: KeyCode::Char(c), ctrl: true }
}

fn text_of(lines: &[Vec<Span>]) -> String {
    lines.iter().map(|l| l.iter().map(|s| s.content.as_str()).collect::<String>()).collect::<Vec<_>>().join("\n")
}

#[test]
fn gg_sequence_scrolls_preview_to_top() {
    let ss = Syntaxes::load();
    let content = (0..100).map(|i| format!("## Heading {i}\n\nParagraph {i}")).collect::<Vec<_>>().join("\n\n");
    let mut app = app_with(&["long.md"]);
    open(&mut app, "long.md", &content, &ss);
    app.document.viewport_height = 20;
    app.document.scroll_offset = 50;
    app.focus = Focus::Preview;
    app.handle_event(key(KeyCode::Char('g')), 0);
    app.handle_event(key(KeyCode::Char('g')), 100);
    assert_eq!(app.document.scroll_offset, 0);
}

#[test]
fn gg_sequence_selects_first_in_file_list() {
    let mut app = app_with(&["a.md", "b.md", "c.md"]);
    assert_eq!(app.focus, Focus::FileList);
    let a = app.handle_event(key(KeyCode::Char('j')), 0);
    assert!(matches!(a, Action::Tree(TreeMove::Down, 1)));
    app.handle_event(key(KeyCode::Char('g')), 1000);
    let a = app.handle_event(key(KeyCode::Char('g')), 1100);
    assert!(matches!(a, Action::Tree(TreeMove::First, _)));
}

#[test]
fn space_e_toggles_file_tree() {
    let mut app = app_with(&["test.md"]);
    assert!(!app.show_file_tree);
    app.handle_event(key(KeyCode::Char(' ')), 0);
    app.handle_event(key(KeyCode::Char('e')), 100);
    assert!(app.show_file_tree);
    app.handle_event(key(KeyCode::Char(' ')), 200);
    app.handle_event(key(KeyCode::Char('e')), 300);
    assert!(!app.show_file_tree);
}

#[test]
fn search_flow_enter_query_and_navigate_matches() {
    let ss = Syntaxes::load();
    let mut app = app_with(&["test.md"]);
    open(&mut app, "test.md", "# Title\n\nfoo bar\n\nsome foo text\n\nanother foo line", &ss);
    app.document.viewport_height = 20;
    app.focus = Focus::Preview;
    app.handle_event(key(KeyCode::Char('/')), 0);
    assert_eq!(app.mode, AppMode::Search);
    for c in "foo".chars() {
        app.handle_event(key(KeyCode::Char(c)), 0);
    }
    assert_eq!(app.search.query, "foo");
    app.handle_event(key(KeyCode::Enter), 0);
    assert_eq!(app.mode, AppMode::Normal);
    assert_eq!(app.search.matches.len(), 3);
    let first = app.search.current;
    app.handle_event(key(KeyCode::Char('n')), 0);
    let second = app.search.current;
    assert_ne!(first, second);
    app.handle_event(key(KeyCode::Char('N')), 0);
    assert_eq!(app.search.current, first);
}

#[test]
fn command_mode_quit() {
    let mut app = app_with(&["test.md"]);
    assert!(!app.should_quit);
    app.handle_event(key(KeyCode::Char(':')), 0);
    assert_eq!(app.mode, AppMode::Command);
    app.handle_event(key(KeyCode::Char('q')), 0);
    app.handle_event(key(KeyCode::Enter), 0);
    assert!(app.should_quit);
}

#[test]
fn help_overlay_renders_and_dismisses() {
    let mut app = app_with(&["test.md"]);
    app.handle_event(key(KeyCode::Char('?')), 0);
    assert!(matches!(app.overlay, Overlay::Help));
    app.handle_event(key(KeyCode::Esc), 0);
    assert!(matches!(app.overlay, Overlay::Off));
}

#[test]
fn file_tree_renders_filenames() {
    let mut app = app_with(&["beta.md", "alpha.md"]);
    app.show_file_tree = true;
    let names: Vec<String> = app.paths.children("").into_iter().map(|t| t.1).collect();
    assert_eq!(names, vec!["alpha.md", "beta.md"]);
}

#[test]
fn navigate_and_open_file_shows_content() {
    let ss = Syntaxes::load();
    let mut app = app_with(&["hello.md"]);
    app.show_file_tree = true;
    let a = app.handle_event(key(KeyCode::Enter), 0);
    assert!(matches!(a, Action::OpenSelected));
    open(&mut app, "hello.md", "# Hello World", &ss);
    assert!(app.document.current_file.is_some());
    let shown = text_of(&app.visible_lines());
    assert!(shown.contains("Hello World"));
}

#[test]
fn ctrl_c_quits_from_search_mode() {
    let mut app = app_with(&["test.md"]);
    app.handle_event(key(KeyCode::Char('/')), 0);
    assert_eq!(app.mode, AppMode::Search);
    app.handle_event(ctrl('c'), 0);
    assert!(app.should_quit);
}

#[test]
fn tab_cycling_updates_render() {
    let ss = Syntaxes::load();
    let mut app = app_with(&["test.md"]);
    app.show_file_tree = true;
    open(&mut app, "test.md", "# Content", &ss);
    assert_eq!(app.focus, Focus::FileList);
    app.handle_event(key(KeyCode::Tab), 0);
    assert_eq!(app.focus, Focus::Preview);
    app.handle_event(key(KeyCode::Tab), 0);
    assert_eq!(app.focus, Focus::FileList);
}

#[test]
fn file_search_filters_tree() {
    let mut app = app_with(&["readme.md", "notes.md", "todo.md"]);
    assert_eq!(app.focus, Focus::FileList);
    app.handle_event(key(KeyCode::Char('/')), 0);
    assert_eq!(app.mode, AppMode::Search);
    for c in "read".chars() {
        app.handle_event(key(KeyCode::Char(c)), 0);
    }
    let filtered = app.filtered.clone().expect("a filter");
    assert_eq!(filtered.len(), 1);
    assert_eq!(filtered[0].0, "readme.md");
    app.handle_event(key(KeyCode::Enter), 0);
    assert_eq!(app.mode, AppMode::Normal);
}

#[test]
fn capital_g_scrolls_to_bottom() {
    let ss = Syntaxes::load();
    let content = (0..50).map(|i| format!("## H{i}\n\nText {i}")).collect::<Vec<_>>().join("\n\n");
    let mut app = app_with(&["long.md"]);
    open(&mut app, "long.md", &content, &ss);
    app.document.viewport_height = 10;
    app.focus = Focus::Preview;
    app.handle_event(key(KeyCode::Char('G')), 0);
    assert_eq!(app.document.scroll_offset, app.document.max_scroll());
    assert!(app.document.scroll_offset > 0);
}

#[test]
fn welcome_screen_shows_when_no_file_open() {
    let app = app_with(&["test.md"]);
    assert!(app.document.rendered_lines.is_empty());
    let text = text_of(&welcome_lines(29));
    assert!(text.contains("Terminal Markdown Viewer"));
}

#[test]
fn ctrl_d_u_half_page_scroll() {
    let ss = Syntaxes::load();
    let content = (0..100).map(|i| format!("## H{i}\n\nText {i}")).collect::<Vec<_>>().join("\n\n");
    let mut app = app_with(&["long.md"]);
    open(&mut app, "long.md", &content, &ss);
    app.document.viewport_height = 20;
    app.focus = Focus::Preview;
    app.handle_event(ctrl('d'), 0);
    assert_eq!(app.document.scroll_offset, 10);
    app.handle_event(ctrl('u'), 0);
    assert_eq!(app.document.scroll_offset, 0);
}
