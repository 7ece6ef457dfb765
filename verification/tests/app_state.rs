use mdtui::modes::{AppMode, Focus};
use mdtui::session::{Action, App, FileRead, Key, KeyCode, Overlay, SplitOrientation};
use mdtui::tree::PathMap;
use mdtui::syntax::Syntaxes;

fn syntaxes() -> Syntaxes {
    Syntaxes::load()
}

fn paths_of(files: &[&str]) -> PathMap {
    let mut m = PathMap::new();
    for f in files {
        m.insert(f.to_string(), format!("/r/{f}"), false);
    }
    m
}

fn app_with(files: &[&str]) -> App {
    App::new("/r".to_string(), paths_of(files), 80, 24, 0)
}

fn open(app: &mut App, name: &str, content: &str, ss: &Syntaxes) {
    app.open_read(format!("/r/{name}"), FileRead::Text(content.to_string()), ss, false);
}

fn key(code: KeyCode) -> Key {
    Key { code, ctrl: false }
}

fn long_text(n: usize) -> String {
    (0..n).map(|i| format!("line {i}")).collect::<Vec<_>>().join("\n\n")
}

// ── App::new ─────────────────────────────────────────────────────

fn body_app_new_with_temp_dir() {
    let app = app_with(&["test.md"]);
    assert!(app.paths.len() > 0);
    assert_eq!(app.mode, AppMode::Normal);
    assert_eq!(app.focus, Focus::FileList);
    assert!(!app.should_quit);
    assert!(matches!(app.overlay, Overlay::Off));
}

#[test]
fn app_app_new_with_temp_dir() {
    body_app_new_with_temp_dir();
}

#[test]
fn tests_app_new_with_temp_dir() {
    body_app_new_with_temp_dir();
}

fn body_app_new_empty_dir() {
    let app = app_with(&[]);
    assert_eq!(app.paths.len(), 0);
    assert!(app.paths.files_sorted().is_empty());
}

#[test]
fn app_app_new_empty_dir() {
    body_app_new_empty_dir();
}

#[test]
fn tests_app_new_empty_dir() {
    body_app_new_empty_dir();
}

// ── Search state ─────────────────────────────────────────────────

fn body_clear_search_resets_all_fields() {
    let mut app = app_with(&[]);
    app.search.active = true;
    app.search.query = "test".to_string();
    app.search.matches = vec![1, 5, 10];
    app.search.current = 2;
    app.status_message = "something".to_string();
    app.filtered = Some(vec![("a.md".to_string(), "a.md".to_string())]);

    app.clear_search();

    assert!(!app.search.active);
    assert!(app.search.query.is_empty());
    assert!(app.search.matches.is_empty());
    assert_eq!(app.search.current, 0);
    assert!(app.filtered.is_none());
    assert!(app.status_message.is_empty());
}

#[test]
fn app_clear_search_resets_all_fields() {
    body_clear_search_resets_all_fields();
}

#[test]
fn tests_clear_search_resets_all_fields() {
    body_clear_search_resets_all_fields();
}

// ── State machine transitions ──────────────────────────────────

fn body_transition_normal_to_command_and_back() {
    let mut app = app_with(&[]);
    assert_eq!(app.mode, AppMode::Normal);
    app.handle_event(key(KeyCode::Char(':')), 0);
    assert_eq!(app.mode, AppMode::Command);
    app.handle_event(key(KeyCode::Esc), 10);
    assert_eq!(app.mode, AppMode::Normal);
}

#[test]
fn app_transition_normal_to_command_and_back() {
    body_transition_normal_to_command_and_back();
}

#[test]
fn tests_transition_normal_to_command_and_back() {
    body_transition_normal_to_command_and_back();
}

fn body_transition_normal_to_search_and_back() {
    let mut app = app_with(&[]);
    app.handle_event(key(KeyCode::Char('/')), 0);
    assert_eq!(app.mode, AppMode::Search);
    assert!(app.search.active);
    app.handle_event(key(KeyCode::Esc), 10);
    assert_eq!(app.mode, AppMode::Normal);
    assert!(!app.search.active);
}

#[test]
fn app_transition_normal_to_search_and_back() {
    body_transition_normal_to_search_and_back();
}

#[test]
fn tests_transition_normal_to_search_and_back() {
    body_transition_normal_to_search_and_back();
}

fn body_help_toggle_on_and_off() {
    let mut app = app_with(&[]);
    assert!(matches!(app.overlay, Overlay::Off));
    app.handle_event(key(KeyCode::Char('?')), 0);
    assert!(matches!(app.overlay, Overlay::Help));
    app.handle_event(key(KeyCode::Char('?')), 10);
    assert!(matches!(app.overlay, Overlay::Off));
}

#[test]
fn app_help_toggle_on_and_off() {
    body_help_toggle_on_and_off();
}

#[test]
fn tests_help_toggle_on_and_off() {
    body_help_toggle_on_and_off();
}

fn body_focus_toggle_cycles_between_panels() {
    let mut app = app_with(&[]);
    app.show_file_tree = true;
    assert_eq!(app.focus, Focus::FileList);
    app.handle_event(key(KeyCode::Tab), 0);
    assert_eq!(app.focus, Focus::Preview);
    app.handle_event(key(KeyCode::Tab), 10);
    assert_eq!(app.focus, Focus::FileList);
    app.handle_event(key(KeyCode::Tab), 20);
    app.show_file_tree = false;
    app.handle_event(key(KeyCode::Tab), 30);
    assert_eq!(app.focus, Focus::Preview);
}

#[test]
fn app_focus_toggle_cycles_between_panels() {
    body_focus_toggle_cycles_between_panels();
}

#[test]
fn tests_focus_toggle_cycles_between_panels() {
    body_focus_toggle_cycles_between_panels();
}

fn body_ctrl_c_quits_from_any_mode() {
    let mut app = app_with(&[]);
    app.handle_event(key(KeyCode::Char(':')), 0);
    assert_eq!(app.mode, AppMode::Command);
    app.handle_event(Key { code: KeyCode::Char('c'), ctrl: true }, 10);
    assert!(app.should_quit);
}

#[test]
fn app_ctrl_c_quits_from_any_mode() {
    body_ctrl_c_quits_from_any_mode();
}

#[test]
fn tests_ctrl_c_quits_from_any_mode() {
    body_ctrl_c_quits_from_any_mode();
}

// ── Scroll ─────────────────────────────────────────────────────

fn body_scroll_down_increments_offset() {
    let ss = syntaxes();
    let mut app = app_with(&["long.md"]);
    open(&mut app, "long.md", &long_text(30), &ss);
    app.document.viewport_height = 10;
    assert_eq!(app.document.scroll_offset, 0);
    app.document.scroll_down();
    assert_eq!(app.document.scroll_offset, 1);
}

#[test]
fn app_scroll_down_increments_offset() {
    body_scroll_down_increments_offset();
}

#[test]
fn tests_scroll_down_increments_offset() {
    body_scroll_down_increments_offset();
}

fn body_scroll_half_page_down_moves_half_viewport() {
    let ss = syntaxes();
    let mut app = app_with(&["long.md"]);
    open(&mut app, "long.md", &long_text(50), &ss);
    app.document.viewport_height = 20;
    app.document.scroll_half_page_down();
    assert_eq!(app.document.scroll_offset, 10);
}

#[test]
fn app_scroll_half_page_down_moves_half_viewport() {
    body_scroll_half_page_down_moves_half_viewport();
}

#[test]
fn tests_scroll_half_page_down_moves_half_viewport() {
    body_scroll_half_page_down_moves_half_viewport();
}

fn body_scroll_to_top_resets_to_zero() {
    let ss = syntaxes();
    let mut app = app_with(&["long.md"]);
    open(&mut app, "long.md", &long_text(30), &ss);
    app.document.viewport_height = 10;
    app.document.scroll_offset = 15;
    app.document.scroll_to_top();
    assert_eq!(app.document.scroll_offset, 0);
}

#[test]
fn app_scroll_to_top_resets_to_zero() {
    body_scroll_to_top_resets_to_zero();
}

#[test]
fn tests_scroll_to_top_resets_to_zero() {
    body_scroll_to_top_resets_to_zero();
}

fn body_scroll_to_bottom_sets_max_scroll() {
    let ss = syntaxes();
    let mut app = app_with(&["long.md"]);
    open(&mut app, "long.md", &long_text(50), &ss);
    app.document.viewport_height = 10;
    app.document.scroll_to_bottom();
    let expected = app.document.rendered_lines.len().saturating_sub(10);
    assert_eq!(app.document.scroll_offset, expected);
    assert!(app.document.scroll_offset > 0);
}

#[test]
fn app_scroll_to_bottom_sets_max_scroll() {
    body_scroll_to_bottom_sets_max_scroll();
}

#[test]
fn tests_scroll_to_bottom_sets_max_scroll() {
    body_scroll_to_bottom_sets_max_scroll();
}

// ── Opening files ───────────────────────────────────────────────

fn body_open_file_rejects_large_files() {
    let ss = syntaxes();
    let mut app = app_with(&["big.md"]);
    app.open_read("/r/big.md".to_string(), FileRead::TooLarge, &ss, false);
    assert!(app.status_message.contains("File too large"));
    assert_eq!(app.status_message, "File too large (>5MB)");
    assert!(app.document.current_file.is_none());
}

#[test]
fn app_open_file_rejects_large_files() {
    body_open_file_rejects_large_files();
}

#[test]
fn tests_open_file_rejects_large_files() {
    body_open_file_rejects_large_files();
}

fn body_open_file_succeeds_for_small_file() {
    let ss = syntaxes();
    let mut app = app_with(&["hello.md"]);
    open(&mut app, "hello.md", "# Hello", &ss);
    assert!(app.status_message.is_empty());
    assert_eq!(app.document.current_file, Some("/r/hello.md".to_string()));
}

#[test]
fn app_open_file_succeeds_for_small_file() {
    body_open_file_succeeds_for_small_file();
}

#[test]
fn tests_open_file_succeeds_for_small_file() {
    body_open_file_succeeds_for_small_file();
}

#[test]
fn open_binary_and_unreadable_files_only_set_status() {
    let ss = syntaxes();
    let mut app = app_with(&["b.md"]);
    app.open_read("/r/b.md".to_string(), FileRead::Binary, &ss, false);
    assert_eq!(app.status_message, "Binary file, cannot preview");
    app.open_read("/r/b.md".to_string(), FileRead::Failed("denied".to_string()), &ss, false);
    assert_eq!(app.status_message, "Error: denied");
    assert!(app.document.current_file.is_none());
}

// ── Live preview ──────────────────────────────────────────────────

#[test]
fn toggle_live_preview_flips_enabled() {
    let mut app = app_with(&["test.md"]);
    assert!(!app.live_preview.enabled);
    app.toggle_live_preview();
    assert!(app.live_preview.enabled);
    app.toggle_live_preview();
    assert!(!app.live_preview.enabled);
}

#[test]
fn toggle_split_orientation_swaps() {
    let mut app = app_with(&["test.md"]);
    assert_eq!(app.live_preview.orientation, SplitOrientation::Horizontal);
    app.toggle_split_orientation();
    assert_eq!(app.live_preview.orientation, SplitOrientation::Vertical);
    app.toggle_split_orientation();
    assert_eq!(app.live_preview.orientation, SplitOrientation::Horizontal);
}

#[test]
fn update_live_preview_renders_editor_content() {
    let ss = syntaxes();
    let mut app = app_with(&["test.md"]);
    open(&mut app, "test.md", "# Hello", &ss);
    app.enter_editor();
    app.live_preview.enabled = true;
    let lines: Vec<String> = app.document.file_content.lines().map(|l| l.to_string()).collect();
    app.update_live_preview(&lines, &ss, false);
    assert!(!app.live_preview.rendered_lines.is_empty());
    assert!(app.live_preview.debounce.is_none());
}

#[test]
fn e2e_space_p_toggles_preview_in_editor_via_handle_event() {
    let ss = syntaxes();
    let mut app = app_with(&["test.md"]);
    open(&mut app, "test.md", "# Hello\nWorld", &ss);
    app.focus = Focus::Preview;

    let a = app.handle_event(key(KeyCode::Char('i')), 0);
    assert!(matches!(a, Action::OpenEditor));
    assert_eq!(app.mode, AppMode::Insert);
    assert!(app.editor.open);

    app.handle_event(key(KeyCode::Esc), 10);
    assert_eq!(app.mode, AppMode::Normal);
    assert!(app.editor.open);

    assert!(!app.live_preview.enabled);
    app.handle_event(key(KeyCode::Char(' ')), 20);
    let a = app.handle_event(key(KeyCode::Char('p')), 30);
    assert!(matches!(a, Action::RefreshLivePreview));
    assert!(app.live_preview.enabled);
    assert_eq!(app.status_message, "Live preview ON");

    app.handle_event(key(KeyCode::Char(' ')), 40);
    app.handle_event(key(KeyCode::Char('p')), 50);
    assert!(!app.live_preview.enabled);
    assert_eq!(app.status_message, "Live preview OFF");
}

#[test]
fn space_p_in_insert_mode_does_not_toggle_preview() {
    let ss = syntaxes();
    let mut app = app_with(&["test.md"]);
    open(&mut app, "test.md", "# Test", &ss);
    app.focus = Focus::Preview;
    app.handle_event(key(KeyCode::Char('i')), 0);
    assert_eq!(app.mode, AppMode::Insert);
    let a = app.handle_event(key(KeyCode::Char(' ')), 10);
    assert!(matches!(a, Action::EditorInput(_)));
    app.handle_event(key(KeyCode::Char('p')), 20);
    assert!(!app.live_preview.enabled);
}

#[test]
fn live_preview_due_after_debounce() {
    let mut app = app_with(&["test.md"]);
    assert!(!app.live_preview_due(1000));
    app.live_preview.debounce = Some(1000);
    assert!(!app.live_preview_due(1149));
    assert!(app.live_preview_due(1150));
}

#[test]
fn from_stdin_shows_text_without_tree() {
    let ss = syntaxes();
    let app = App::from_stdin("# Piped".to_string(), 80, 24, 0, &ss, false);
    assert!(app.stdin_mode);
    assert_eq!(app.focus, Focus::Preview);
    assert_eq!(app.document.file_content, "# Piped");
    assert!(!app.document.rendered_lines.is_empty());
    assert_eq!(app.paths.len(), 0);
}
