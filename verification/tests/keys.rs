use mdtui::document::{next_search_match, perform_document_search, prev_search_match};
use mdtui::file_ops::{create_dir_target, create_file_target, rename_target};
use mdtui::modes::{AppMode, Focus};
use mdtui::session::{
    Action, App, Area, FileOp, FileOpKind, FileRead, Key, KeyCode, MouseKind, Overlay, SplitOrientation,
};
use mdtui::tree::PathMap;
use mdtui::syntax::Syntaxes;

fn app_with(files: &[&str]) -> App {
    let mut m = PathMap::new();
    for f in files {
        m.insert(f.to_string(), format!("/r/{f}"), false);
    }
    App::new("/r".to_string(), m, 80, 24, 0)
}

fn open(app: &mut App, name: &str, content: &str, ss: &Syntaxes) {
    app.open_read(format!("/r/{name}"), FileRead::Text(content.to_string()), ss, false);
}

fn key(code: KeyCode) -> Key {
    Key { code, ctrl: false }
}

// ── command mode ─────────────────────────────────────────────

#[test]
fn execute_quit_sets_should_quit() {
    let mut app = app_with(&["test.md"]);
    assert!(!app.should_quit);
    app.execute_command("q");
    assert!(app.should_quit);
}

#[test]
fn esc_in_command_mode_returns_to_normal() {
    let mut app = app_with(&["test.md"]);
    app.mode = AppMode::Command;
    app.command_buffer = "some".to_string();
    app.handle_command_key(key(KeyCode::Esc));
    assert_eq!(app.mode, AppMode::Normal);
    assert!(app.command_buffer.is_empty());
}

#[test]
fn execute_e_reloads_in_editor() {
    let ss = Syntaxes::load();
    let mut app = app_with(&["test.md"]);
    open(&mut app, "test.md", "# V1", &ss);
    app.enter_editor();
    let a = app.execute_command("e");
    assert!(matches!(a, Action::ReloadEditor));
    assert!(app.reload_editor_from_disk(Ok("# V2".to_string())));
    assert_eq!(app.document.file_content, "# V2");
    assert!(!app.editor.is_dirty);
    assert!(!app.editor.external_change_detected);
    assert_eq!(app.status_message, "reloaded");
}

#[test]
fn execute_e_not_in_editor() {
    let ss = Syntaxes::load();
    let mut app = app_with(&["test.md"]);
    open(&mut app, "test.md", "# Test", &ss);
    app.execute_command("e");
    assert_eq!(app.status_message, "Not in editor");
}

#[test]
fn command_enter_runs_trimmed_command() {
    let mut app = app_with(&[]);
    app.handle_event(key(KeyCode::Char(':')), 0);
    for c in " q ".chars() {
        app.handle_event(key(KeyCode::Char(c)), 1);
    }
    app.handle_event(key(KeyCode::Enter), 2);
    assert!(app.should_quit);
    assert_eq!(app.mode, AppMode::Normal);
}

// ── normal mode ──────────────────────────────────────────────

#[test]
fn j_key_in_file_list_dispatches_tree_navigation() {
    let mut app = app_with(&["a.md", "b.md"]);
    assert_eq!(app.focus, Focus::FileList);
    let a = app.handle_normal_key(key(KeyCode::Char('j')), 0);
    assert!(matches!(a, Action::Tree(_, 1)));
    assert_eq!(app.mode, AppMode::Normal);
    assert_eq!(app.focus, Focus::FileList);
}

#[test]
fn colon_key_enters_command_mode() {
    let mut app = app_with(&["test.md"]);
    app.handle_normal_key(key(KeyCode::Char(':')), 0);
    assert_eq!(app.mode, AppMode::Command);
    assert!(app.command_buffer.is_empty());
}

// ── mouse ────────────────────────────────────────────────────

fn mouse_app() -> App {
    let ss = Syntaxes::load();
    let mut app = app_with(&["test.md"]);
    let content = (0..30).map(|i| format!("line {i}")).collect::<Vec<_>>().join("\n\n");
    open(&mut app, "test.md", &content, &ss);
    app.document.viewport_height = 10;
    app
}

fn file_list_area() -> Option<Area> {
    Some(Area { x: 0, y: 0, width: 30, height: 24 })
}

fn preview_area() -> Option<Area> {
    Some(Area { x: 30, y: 0, width: 50, height: 24 })
}

#[test]
fn scroll_down_in_preview() {
    let mut app = mouse_app();
    let initial = app.document.scroll_offset;
    app.handle_mouse(MouseKind::ScrollDown, 40, 10, preview_area(), file_list_area());
    assert_eq!(app.document.scroll_offset, initial + 3);
}

#[test]
fn scroll_up_in_preview() {
    let mut app = mouse_app();
    app.document.scroll_offset = 10;
    app.handle_mouse(MouseKind::ScrollUp, 40, 10, preview_area(), file_list_area());
    assert_eq!(app.document.scroll_offset, 7);
}

#[test]
fn left_click_in_preview_sets_focus() {
    let mut app = mouse_app();
    app.focus = Focus::FileList;
    app.handle_mouse(MouseKind::LeftDown, 40, 10, preview_area(), file_list_area());
    assert_eq!(app.focus, Focus::Preview);
}

#[test]
fn left_click_in_file_list_sets_focus() {
    let mut app = mouse_app();
    app.focus = Focus::Preview;
    app.handle_mouse(MouseKind::LeftDown, 10, 10, preview_area(), file_list_area());
    assert_eq!(app.focus, Focus::FileList);
}

#[test]
fn scroll_outside_areas_does_nothing() {
    let mut app = mouse_app();
    let initial = app.document.scroll_offset;
    app.handle_mouse(MouseKind::ScrollDown, 40, 10, None, None);
    assert_eq!(app.document.scroll_offset, initial);
}

#[test]
fn mouse_scroll_up_at_zero_stays_zero() {
    let mut app = mouse_app();
    app.document.scroll_offset = 0;
    app.handle_mouse(MouseKind::ScrollUp, 40, 10, preview_area(), file_list_area());
    assert_eq!(app.document.scroll_offset, 0);
}

// ── search ───────────────────────────────────────────────────

#[test]
fn esc_in_search_clears_and_returns_to_normal() {
    let mut app = app_with(&["test.md"]);
    app.mode = AppMode::Search;
    app.search.active = true;
    app.search.query = "hello".to_string();
    app.handle_search_key(key(KeyCode::Esc));
    assert_eq!(app.mode, AppMode::Normal);
    assert!(!app.search.active);
    assert!(app.search.query.is_empty());
}

#[test]
fn char_keys_append_to_search_query() {
    let mut app = app_with(&["test.md"]);
    app.mode = AppMode::Search;
    app.handle_search_key(key(KeyCode::Char('a')));
    app.handle_search_key(key(KeyCode::Char('b')));
    assert_eq!(app.search.query, "ab");
}

fn searched_app(query: &str, text: &str) -> App {
    let ss = Syntaxes::load();
    let mut app = app_with(&["test.md"]);
    open(&mut app, "test.md", text, &ss);
    app.document.viewport_height = 20;
    app.search.query = query.to_string();
    perform_document_search(&mut app.search, &mut app.document, &mut app.status_message);
    app
}

#[test]
fn perform_document_search_finds_matches() {
    let app = searched_app("hello", "hello world\n\ngoodbye\n\nhello again");
    assert_eq!(app.search.matches.len(), 2);
    for &idx in &app.search.matches {
        assert!(idx < app.document.rendered_lines.len());
    }
}

#[test]
fn perform_document_search_no_matches() {
    let app = searched_app("zzzznotfound", "hello world\n\ngoodbye");
    assert!(app.search.matches.is_empty());
    assert!(app.status_message.to_lowercase().contains("not found"));
}

#[test]
fn next_search_match_wraps_around() {
    let mut app = searched_app("hello", "hello world\n\ngoodbye\n\nhello again");
    let match_count = app.search.matches.len();
    assert!(match_count >= 2);
    app.search.current = match_count - 1;
    next_search_match(&mut app.search, &mut app.document, &mut app.status_message);
    assert_eq!(app.search.current, 0);
}

#[test]
fn prev_search_match_wraps_around() {
    let mut app = searched_app("hello", "hello world\n\ngoodbye\n\nhello again");
    let match_count = app.search.matches.len();
    assert!(match_count >= 2);
    app.search.current = 0;
    prev_search_match(&mut app.search, &mut app.document, &mut app.status_message);
    assert_eq!(app.search.current, match_count - 1);
}

#[test]
fn next_then_prev_returns_to_same_match() {
    let mut app = searched_app("hello", "hello world\n\ngoodbye\n\nhello again\n\nhello there");
    app.search.current = 1;
    next_search_match(&mut app.search, &mut app.document, &mut app.status_message);
    prev_search_match(&mut app.search, &mut app.document, &mut app.status_message);
    assert_eq!(app.search.current, 1);
}

// ── editor ───────────────────────────────────────────────────

#[test]
fn esc_in_insert_mode_returns_to_normal() {
    let mut app = app_with(&["test.md"]);
    app.mode = AppMode::Insert;
    app.handle_insert_key(key(KeyCode::Esc));
    assert_eq!(app.mode, AppMode::Normal);
    assert!(app.status_message.is_empty());
}

#[test]
fn i_key_in_editor_normal_enters_insert() {
    let ss = Syntaxes::load();
    let mut app = app_with(&["test.md"]);
    open(&mut app, "test.md", "# Test", &ss);
    app.enter_editor();
    app.mode = AppMode::Normal;
    app.handle_editor_normal_key(key(KeyCode::Char('i')), 0);
    assert_eq!(app.mode, AppMode::Insert);
    assert_eq!(app.status_message, "-- INSERT --");
}

fn editor_lines(app: &App) -> Vec<String> {
    app.document.file_content.lines().map(|l| l.to_string()).collect()
}

#[test]
fn save_editor_appends_trailing_newline() {
    let ss = Syntaxes::load();
    let mut app = app_with(&["test.md"]);
    open(&mut app, "test.md", "# Hello\nWorld", &ss);
    app.enter_editor();
    let (path, text) = app.begin_save(&editor_lines(&app)).expect("a save");
    assert_eq!(path, "/r/test.md");
    assert!(text.ends_with('\n'));
    assert!(!text.ends_with("\n\n"));
    assert_eq!(text, "# Hello\nWorld\n");
    let a = app.finish_save(text, Ok(()), false, &ss, false);
    assert!(matches!(a, Action::Nothing));
    assert_eq!(app.status_message, "written");
    assert_eq!(app.document.file_content, "# Hello\nWorld\n");
    assert!(!app.editor.is_dirty);
}

#[test]
fn save_editor_empty_content_is_single_newline() {
    let ss = Syntaxes::load();
    let mut app = app_with(&["test.md"]);
    open(&mut app, "test.md", "", &ss);
    app.enter_editor();
    let (_, text) = app.begin_save(&editor_lines(&app)).expect("a save");
    assert_eq!(text, "\n");
}

#[test]
fn save_editor_failure_reports_error() {
    let ss = Syntaxes::load();
    let mut app = app_with(&["test.md"]);
    open(&mut app, "test.md", "# A", &ss);
    app.enter_editor();
    app.editor.is_dirty = true;
    let a = app.finish_save("# B\n".to_string(), Err("disk full".to_string()), true, &ss, false);
    assert!(matches!(a, Action::Nothing));
    assert_eq!(app.status_message, "Error saving: disk full");
    assert!(app.editor.is_dirty);
    assert!(app.editor.open);
}

#[test]
fn save_and_exit_closes_editor() {
    let ss = Syntaxes::load();
    let mut app = app_with(&["test.md"]);
    open(&mut app, "test.md", "# A", &ss);
    app.enter_editor();
    let a = app.finish_save("# A\n".to_string(), Ok(()), true, &ss, false);
    assert!(matches!(a, Action::CloseEditor));
    assert!(!app.editor.open);
    assert_eq!(app.mode, AppMode::Normal);
}

#[test]
fn begin_save_without_editor_refuses() {
    let ss = Syntaxes::load();
    let mut app = app_with(&["test.md"]);
    assert!(app.begin_save(&Vec::new()).is_none());
    assert_eq!(app.status_message, "No file path");
    open(&mut app, "test.md", "# A", &ss);
    assert!(app.begin_save(&Vec::new()).is_none());
    assert_eq!(app.status_message, "Not in editor");
}

#[test]
fn reload_editor_from_disk_updates_content() {
    let ss = Syntaxes::load();
    let mut app = app_with(&["test.md"]);
    open(&mut app, "test.md", "# Original", &ss);
    app.enter_editor();
    assert!(app.reload_editor_from_disk(Ok("# Reloaded".to_string())));
    assert_eq!(app.document.file_content, "# Reloaded");
    assert!(!app.editor.is_dirty);
    assert!(!app.editor.external_change_detected);
    assert_eq!(app.status_message, "reloaded");
}

#[test]
fn reload_editor_clears_flags() {
    let ss = Syntaxes::load();
    let mut app = app_with(&["test.md"]);
    open(&mut app, "test.md", "# Test", &ss);
    app.enter_editor();
    app.editor.is_dirty = true;
    app.editor.external_change_detected = true;
    app.reload_editor_from_disk(Ok("# Test".to_string()));
    assert!(!app.editor.is_dirty);
    assert!(!app.editor.external_change_detected);
}

#[test]
fn reload_editor_read_error_is_reported() {
    let ss = Syntaxes::load();
    let mut app = app_with(&["test.md"]);
    open(&mut app, "test.md", "# Test", &ss);
    app.enter_editor();
    assert!(!app.reload_editor_from_disk(Err("gone".to_string())));
    assert_eq!(app.status_message, "Error reading: gone");
}

#[test]
fn insert_keystroke_sets_debounce_when_preview_enabled() {
    let ss = Syntaxes::load();
    let mut app = app_with(&["test.md"]);
    open(&mut app, "test.md", "# Test", &ss);
    app.enter_editor();
    app.live_preview.enabled = true;
    assert!(app.live_preview.debounce.is_none());
    let a = app.handle_insert_key(key(KeyCode::Char('x')));
    assert!(matches!(a, Action::EditorInput(_)));
    app.note_edit(true, 42);
    assert_eq!(app.live_preview.debounce, Some(42));
    assert!(app.editor.is_dirty);
}

#[test]
fn space_p_toggles_live_preview_in_editor_normal() {
    let ss = Syntaxes::load();
    let mut app = app_with(&["test.md"]);
    open(&mut app, "test.md", "# Test", &ss);
    app.enter_editor();
    app.mode = AppMode::Normal;
    assert!(!app.live_preview.enabled);
    app.handle_editor_normal_key(key(KeyCode::Char(' ')), 0);
    app.handle_editor_normal_key(key(KeyCode::Char('p')), 100);
    assert!(app.live_preview.enabled);
}

#[test]
fn space_s_toggles_orientation_in_editor_normal() {
    let ss = Syntaxes::load();
    let mut app = app_with(&["test.md"]);
    open(&mut app, "test.md", "# Test", &ss);
    app.enter_editor();
    app.mode = AppMode::Normal;
    assert_eq!(app.live_preview.orientation, SplitOrientation::Horizontal);
    app.handle_editor_normal_key(key(KeyCode::Char(' ')), 0);
    app.handle_editor_normal_key(key(KeyCode::Char('s')), 100);
    assert_eq!(app.live_preview.orientation, SplitOrientation::Vertical);
}

#[test]
fn reload_editor_no_file_shows_error() {
    let mut app = app_with(&["test.md"]);
    app.editor.open = true;
    assert!(!app.reload_editor_from_disk(Ok(String::new())));
    assert_eq!(app.status_message, "No file path");
}

#[test]
fn editor_title_names_relative_path() {
    let ss = Syntaxes::load();
    let mut app = app_with(&["docs/a.md"]);
    assert_eq!(app.editor_title(), " Editor ");
    open(&mut app, "docs/a.md", "# A", &ss);
    assert_eq!(app.display_file_path(), "docs/a.md");
    assert_eq!(app.editor_title(), " Editor: docs/a.md ");
}

// ── file operations ──────────────────────────────────────────

#[test]
fn cancel_file_op_clears_overlay_and_input() {
    let mut app = app_with(&["a.md"]);
    app.overlay = Overlay::FileOp(FileOp::CreateFile { parent_dir: "/r".to_string() });
    app.file_op_input = "test".to_string();
    app.cancel_file_op();
    assert!(matches!(app.overlay, Overlay::Off));
    assert!(app.file_op_input.is_empty());
}

fn selected_a() -> Option<(String, bool)> {
    Some(("/r/a.md".to_string(), false))
}

#[test]
fn start_create_file_sets_overlay() {
    let mut app = app_with(&["a.md"]);
    app.start_file_op(FileOpKind::CreateFile, selected_a(), 0);
    match &app.overlay {
        Overlay::FileOp(FileOp::CreateFile { parent_dir }) => assert_eq!(parent_dir, "/r"),
        _ => panic!("Expected CreateFile overlay"),
    }
    assert!(app.file_op_input.is_empty());
}

#[test]
fn start_create_dir_sets_overlay() {
    let mut app = app_with(&["a.md"]);
    app.start_file_op(FileOpKind::CreateDir, None, 0);
    assert!(matches!(app.overlay, Overlay::FileOp(FileOp::CreateDir { .. })));
}

#[test]
fn start_delete_with_selection() {
    let mut app = app_with(&["a.md"]);
    app.start_file_op(FileOpKind::Delete, selected_a(), 0);
    match &app.overlay {
        Overlay::FileOp(FileOp::Delete { name, .. }) => assert_eq!(name, "a.md"),
        _ => panic!("Expected Delete overlay"),
    }
}

#[test]
fn start_rename_prefills_current_name() {
    let mut app = app_with(&["a.md"]);
    app.start_file_op(FileOpKind::Rename, selected_a(), 0);
    assert!(matches!(app.overlay, Overlay::FileOp(FileOp::Rename { .. })));
    assert_eq!(app.file_op_input, "a.md");
}

#[test]
fn start_move_with_selection() {
    let mut app = app_with(&["a.md"]);
    app.start_file_op(FileOpKind::Move, selected_a(), 0);
    assert!(matches!(app.overlay, Overlay::FileOp(FileOp::Move { .. })));
    assert!(app.file_op_input.is_empty());
}

#[test]
fn handle_file_op_key_esc_cancels() {
    let mut app = app_with(&["a.md"]);
    app.overlay = Overlay::FileOp(FileOp::CreateFile { parent_dir: "/r".to_string() });
    app.handle_file_op_key(key(KeyCode::Esc));
    assert!(matches!(app.overlay, Overlay::Off));
}

#[test]
fn handle_file_op_key_char_adds_to_input() {
    let mut app = app_with(&["a.md"]);
    app.overlay = Overlay::FileOp(FileOp::CreateFile { parent_dir: "/r".to_string() });
    app.handle_file_op_key(key(KeyCode::Char('t')));
    app.handle_file_op_key(key(KeyCode::Char('e')));
    assert_eq!(app.file_op_input, "te");
}

#[test]
fn handle_file_op_key_backspace_removes_char() {
    let mut app = app_with(&["a.md"]);
    app.overlay = Overlay::FileOp(FileOp::CreateFile { parent_dir: "/r".to_string() });
    app.file_op_input = "abc".to_string();
    app.handle_file_op_key(key(KeyCode::Backspace));
    assert_eq!(app.file_op_input, "ab");
}

/// Carries out a confirmed operation as the caller does, with the disk
/// work replaced by the path the operation aims at.
fn perform(app: &mut App, a: Action, ss: &Syntaxes) -> Option<String> {
    match a {
        Action::ConfirmFileOp(op, input) => {
            let result = match &op {
                FileOp::CreateFile { parent_dir } => create_file_target(parent_dir, &input),
                FileOp::CreateDir { parent_dir } => create_dir_target(parent_dir, &input),
                FileOp::Rename { target, .. } => rename_target(target, &input),
                FileOp::Delete { target, .. } => Ok(target.clone()),
                FileOp::Move { .. } => Err("not used here".to_string()),
            };
            app.finish_file_op(op, result, FileRead::Text(String::new()), ss, false)
        },
        _ => None,
    }
}

#[test]
fn confirm_create_file_creates_and_updates_tree() {
    let ss = Syntaxes::load();
    let mut app = app_with(&["a.md"]);
    app.overlay = Overlay::FileOp(FileOp::CreateFile { parent_dir: "/r".to_string() });
    app.file_op_input = "new.md".to_string();
    let a = app.confirm_file_op();
    assert!(matches!(app.overlay, Overlay::Off));
    let sel = perform(&mut app, a, &ss);
    assert_eq!(sel, Some("new.md".to_string()));
    assert!(app.status_message.contains("Created"));
    assert!(app.paths.get("new.md").is_some());
    assert_eq!(app.document.current_file, Some("/r/new.md".to_string()));
}

#[test]
fn confirm_create_dir_creates_directory() {
    let ss = Syntaxes::load();
    let mut app = app_with(&[]);
    app.overlay = Overlay::FileOp(FileOp::CreateDir { parent_dir: "/r".to_string() });
    app.file_op_input = "newdir".to_string();
    let a = app.confirm_file_op();
    perform(&mut app, a, &ss);
    assert_eq!(app.paths.get("newdir"), Some(("/r/newdir".to_string(), true)));
    assert!(app.status_message.contains("Created"));
    assert_eq!(app.status_message, "Created newdir/");
}

#[test]
fn confirm_empty_input_does_nothing() {
    let mut app = app_with(&["a.md"]);
    app.overlay = Overlay::FileOp(FileOp::CreateFile { parent_dir: "/r".to_string() });
    app.file_op_input.clear();
    let a = app.confirm_file_op();
    assert!(matches!(a, Action::Nothing));
    assert!(app.status_message.is_empty());
}

#[test]
fn confirm_delete_removes_file() {
    let ss = Syntaxes::load();
    let mut app = app_with(&["a.md"]);
    app.overlay =
        Overlay::FileOp(FileOp::Delete { target: "/r/a.md".to_string(), is_dir: false, name: "a.md".to_string() });
    let a = app.confirm_file_op();
    perform(&mut app, a, &ss);
    assert!(app.paths.get("a.md").is_none());
    assert!(app.status_message.contains("Deleted"));
}

#[test]
fn confirm_delete_current_file_clears_document() {
    let ss = Syntaxes::load();
    let mut app = app_with(&["a.md"]);
    open(&mut app, "a.md", "# A", &ss);
    assert!(app.document.current_file.is_some());
    app.overlay =
        Overlay::FileOp(FileOp::Delete { target: "/r/a.md".to_string(), is_dir: false, name: "a.md".to_string() });
    let a = app.confirm_file_op();
    perform(&mut app, a, &ss);
    assert!(app.document.current_file.is_none());
}

#[test]
fn confirm_rename_renames_file() {
    let ss = Syntaxes::load();
    let mut app = app_with(&["old.md"]);
    app.overlay = Overlay::FileOp(FileOp::Rename { target: "/r/old.md".to_string(), is_dir: false });
    app.file_op_input = "new.md".to_string();
    let a = app.confirm_file_op();
    perform(&mut app, a, &ss);
    assert!(app.paths.get("old.md").is_none());
    assert!(app.paths.get("new.md").is_some());
    assert!(app.status_message.contains("Renamed"));
}

#[test]
fn confirm_failure_shows_error() {
    let ss = Syntaxes::load();
    let mut app = app_with(&["a.md"]);
    app.overlay = Overlay::FileOp(FileOp::CreateFile { parent_dir: "/r".to_string() });
    app.file_op_input = "../x.md".to_string();
    let a = app.confirm_file_op();
    perform(&mut app, a, &ss);
    assert_eq!(app.status_message, "Error: path must not contain '..' components: ../x.md");
    assert_eq!(app.paths.len(), 1);
}

#[test]
fn delete_overlay_only_enter_or_esc() {
    let mut app = app_with(&["a.md"]);
    app.overlay =
        Overlay::FileOp(FileOp::Delete { target: "/r/a.md".to_string(), is_dir: false, name: "a.md".to_string() });
    app.handle_file_op_key(key(KeyCode::Char('y')));
    assert!(app.file_op_input.is_empty());
}

// ── keys documented for the preview and the file tree ───────

fn preview_with_headings(app: &mut App) {
    app.document.rendered_lines = (0..30).map(|i| vec![mdtui::style::Span { content: format!("line {i}"), style: mdtui::style::plain_style() }]).collect();
    app.document.rendered_lines_lower = (0..30).map(|i| format!("line {i}")).collect();
    app.document.viewport_height = 10;
    app.document.heading_line_offsets = vec![5, 15, 25];
    app.focus = Focus::Preview;
}

#[test]
fn bracket_keys_jump_between_headings() {
    let mut app = app_with(&["test.md"]);
    preview_with_headings(&mut app);
    app.document.scroll_offset = 0;
    app.handle_normal_key(key(KeyCode::Char(']')), 0);
    assert_eq!(app.document.scroll_offset, 3);
    app.document.scroll_offset = 15;
    app.handle_normal_key(key(KeyCode::Char('[')), 0);
    assert_eq!(app.document.scroll_offset, 13);
}

#[test]
fn bracket_keys_do_nothing_in_file_list() {
    let mut app = app_with(&["test.md"]);
    preview_with_headings(&mut app);
    app.focus = Focus::FileList;
    app.handle_normal_key(key(KeyCode::Char(']')), 0);
    assert_eq!(app.document.scroll_offset, 0);
}

#[test]
fn double_f_opens_file_finder() {
    let mut app = app_with(&["b.md", "a.md"]);
    app.focus = Focus::FileList;
    app.handle_normal_key(key(KeyCode::Char('f')), 1000);
    assert!(matches!(app.overlay, Overlay::Off));
    app.handle_normal_key(key(KeyCode::Char('f')), 1200);
    assert!(matches!(app.overlay, Overlay::FileFinder));
    assert!(app.file_finder.query.is_empty());
    assert_eq!(app.file_finder.selected, 0);
    let ids: Vec<&str> = app.file_finder.results.iter().map(|r| r.0.as_str()).collect();
    assert_eq!(ids, vec!["a.md", "b.md"]);
}

#[test]
fn slow_second_f_does_not_open_file_finder() {
    let mut app = app_with(&["a.md"]);
    app.handle_normal_key(key(KeyCode::Char('f')), 1000);
    app.handle_normal_key(key(KeyCode::Char('f')), 1600);
    assert!(matches!(app.overlay, Overlay::Off));
}

#[test]
fn preview_command_toggles_live_preview() {
    let mut app = app_with(&["test.md"]);
    let a = app.execute_command("preview");
    assert!(app.live_preview.enabled);
    assert!(matches!(a, Action::RefreshLivePreview));
    assert_eq!(app.status_message, "Live preview ON");
    let a = app.execute_command("preview");
    assert!(!app.live_preview.enabled);
    assert!(matches!(a, Action::Nothing));
    assert_eq!(app.status_message, "Live preview OFF");
}

#[test]
fn force_quit_in_dirty_editor_discards_changes() {
    let ss = Syntaxes::load();
    let mut app = app_with(&["test.md"]);
    open(&mut app, "test.md", "# V1", &ss);
    app.enter_editor();
    app.note_edit(true, 5);
    app.execute_command("q");
    assert!(app.editor.open && app.editor.is_dirty);
    assert_eq!(app.status_message, "Unsaved changes! :q! to force quit");
    let a = app.execute_command("q!");
    assert!(matches!(a, Action::CloseEditor));
    assert!(!app.editor.open && !app.editor.is_dirty);
    assert_eq!(app.mode, AppMode::Normal);
    assert!(!app.should_quit);
}

#[test]
fn write_outside_editor_only_reports() {
    let ss = Syntaxes::load();
    let mut app = app_with(&["test.md"]);
    open(&mut app, "test.md", "# V1", &ss);
    let a = app.execute_command("w");
    assert!(matches!(a, Action::Nothing));
    assert_eq!(app.status_message, "Not in editor");
    assert_eq!(app.document.file_content, "# V1");
    assert!(!app.editor.open);
}

#[test]
fn typing_in_file_finder_refilters_results() {
    let mut app = app_with(&["alpha.md", "beta.md", "gamma.md"]);
    app.open_file_finder();
    app.handle_file_finder_key(key(KeyCode::Char('b')));
    app.handle_file_finder_key(key(KeyCode::Char('e')));
    let ids: Vec<&str> = app.file_finder.results.iter().map(|r| r.0.as_str()).collect();
    assert_eq!(ids, vec!["beta.md"]);
    app.handle_file_finder_key(key(KeyCode::Esc));
    assert!(matches!(app.overlay, Overlay::FileFinder));
    assert_eq!(app.file_finder.results.len(), 3);
    app.handle_file_finder_key(key(KeyCode::Esc));
    assert!(matches!(app.overlay, Overlay::Off));
}

#[test]
fn opened_file_has_lowercase_search_cache() {
    let ss = Syntaxes::load();
    let mut app = app_with(&["test.md"]);
    open(&mut app, "test.md", "# Hello World\n\nSome TEXT", &ss);
    assert_eq!(app.document.rendered_lines_lower.len(), app.document.rendered_lines.len());
    for (i, l) in app.document.rendered_lines.iter().enumerate() {
        let text: String = l.iter().map(|s| s.content.as_str()).collect();
        assert_eq!(app.document.rendered_lines_lower[i], text.to_lowercase());
    }
}

#[test]
fn deleting_open_file_empties_the_preview() {
    let ss = Syntaxes::load();
    let mut app = app_with(&["a.md"]);
    open(&mut app, "a.md", "# A\n\nsome text\n\nmore", &ss);
    app.document.scroll_offset = 2;
    app.overlay =
        Overlay::FileOp(FileOp::Delete { target: "/r/a.md".to_string(), is_dir: false, name: "a.md".to_string() });
    let a = app.confirm_file_op();
    perform(&mut app, a, &ss);
    assert!(app.document.file_content.is_empty());
    assert!(app.document.rendered_lines.is_empty());
    assert!(app.document.rendered_lines_lower.is_empty());
    assert_eq!(app.document.scroll_offset, 0);
    assert_eq!(app.status_message, "Deleted a.md");
}
