use mdtui::session::{App, FileRead};
use mdtui::tree::PathMap;
use mdtui::watcher::FsEvent;
use mdtui::syntax::Syntaxes;

fn app_with(files: &[&str]) -> App {
    let mut m = PathMap::new();
    for f in files {
        m.insert(f.to_string(), format!("/r/{f}"), false);
    }
    App::new("/r".to_string(), m, 80, 24, 0)
}

fn open(app: &mut App, name: &str, content: &str, ss: &Syntaxes) {
    app.open_read(format!("/r/{name}"), FileRead::Text(content.to_string()), ss, false);
}

// ── a file changes on disk ─────────────────────────────────────

#[test]
fn modified_auto_reloads_preview() {
    let ss = Syntaxes::load();
    let mut app = app_with(&["test.md"]);
    open(&mut app, "test.md", "# Old", &ss);
    assert_eq!(app.document.file_content, "# Old");
    app.handle_fs_event(FsEvent::FileModified("/r/test.md".to_string()), Some("# New".to_string()), false, &ss, false);
    assert_eq!(app.document.file_content, "# New");
    assert_eq!(app.status_message, "reloaded");
}

#[test]
fn modified_warns_in_editor() {
    let ss = Syntaxes::load();
    let mut app = app_with(&["test.md"]);
    open(&mut app, "test.md", "# Old", &ss);
    app.enter_editor();
    app.handle_fs_event(FsEvent::FileModified("/r/test.md".to_string()), Some("# New".to_string()), false, &ss, false);
    assert!(app.editor.external_change_detected);
    assert!(app.status_message.contains("changed on disk"));
    assert_eq!(app.document.file_content, "# Old");
}

#[test]
fn modified_skips_different_file() {
    let ss = Syntaxes::load();
    let mut app = app_with(&["a.md", "b.md"]);
    open(&mut app, "a.md", "# A", &ss);
    app.status_message.clear();
    app.handle_fs_event(FsEvent::FileModified("/r/b.md".to_string()), Some("# B2".to_string()), false, &ss, false);
    assert!(app.status_message.is_empty());
    assert_eq!(app.document.file_content, "# A");
}

#[test]
fn modified_skips_unchanged() {
    let ss = Syntaxes::load();
    let mut app = app_with(&["test.md"]);
    open(&mut app, "test.md", "# Same", &ss);
    app.status_message.clear();
    app.handle_fs_event(FsEvent::FileModified("/r/test.md".to_string()), Some("# Same".to_string()), false, &ss, false);
    assert!(app.status_message.is_empty());
}

#[test]
fn modified_keeps_scroll_within_shorter_text() {
    let ss = Syntaxes::load();
    let mut app = app_with(&["test.md"]);
    let long = (0..40).map(|i| format!("line {i}")).collect::<Vec<_>>().join("\n\n");
    open(&mut app, "test.md", &long, &ss);
    app.document.viewport_height = 10;
    app.document.scroll_offset = 60;
    app.on_file_modified("/r/test.md", Some("one\n\ntwo".to_string()), &ss, false);
    assert_eq!(app.document.scroll_offset, 0);
}

// ── entries appear ─────────────────────────────────────────────

#[test]
fn created_md_refreshes_tree() {
    let ss = Syntaxes::load();
    let mut app = app_with(&["test.md"]);
    app.handle_fs_event(FsEvent::EntryCreated { path: "/r/new.md".to_string(), is_dir: false }, None, false, &ss, false);
    assert!(app.paths.get("new.md").is_some());
}

#[test]
fn created_non_md_ignored() {
    let ss = Syntaxes::load();
    let mut app = app_with(&["test.md"]);
    app.handle_fs_event(FsEvent::EntryCreated { path: "/r/file.txt".to_string(), is_dir: false }, None, false, &ss, false);
    assert!(app.paths.get("file.txt").is_none());
}

#[test]
fn created_outside_root_ignored() {
    let ss = Syntaxes::load();
    let mut app = app_with(&["test.md"]);
    app.handle_fs_event(FsEvent::EntryCreated { path: "/other/x.md".to_string(), is_dir: false }, None, false, &ss, false);
    assert_eq!(app.paths.len(), 1);
}

#[test]
fn created_current_file_triggers_reload() {
    let ss = Syntaxes::load();
    let mut app = app_with(&["test.md"]);
    open(&mut app, "test.md", "# Original", &ss);
    app.handle_fs_event(
        FsEvent::EntryCreated { path: "/r/test.md".to_string(), is_dir: false },
        Some("# Updated".to_string()),
        false,
        &ss,
        false,
    );
    assert_eq!(app.document.file_content, "# Updated");
    assert_eq!(app.status_message, "reloaded");
}

// ── entries disappear ──────────────────────────────────────────

#[test]
fn removed_current_clears_document() {
    let ss = Syntaxes::load();
    let mut app = app_with(&["test.md"]);
    open(&mut app, "test.md", "# Test", &ss);
    app.handle_fs_event(FsEvent::EntryRemoved("/r/test.md".to_string()), None, false, &ss, false);
    assert!(app.document.current_file.is_none());
    assert!(app.document.file_content.is_empty());
    assert_eq!(app.status_message, "File deleted");
    assert!(app.paths.get("test.md").is_none());
}

// ── entries are renamed ────────────────────────────────────────

#[test]
fn renamed_current_updates_path() {
    let ss = Syntaxes::load();
    let mut app = app_with(&["old.md"]);
    open(&mut app, "old.md", "# Old", &ss);
    app.handle_fs_event(
        FsEvent::EntryRenamed { from: "/r/old.md".to_string(), to: "/r/new.md".to_string() },
        None,
        false,
        &ss,
        false,
    );
    assert_eq!(app.document.current_file, Some("/r/new.md".to_string()));
    assert!(app.status_message.contains("renamed"));
    assert_eq!(app.status_message, "File renamed → new.md");
    assert!(app.paths.get("new.md").is_some());
    assert!(app.paths.get("old.md").is_none());
}

#[test]
fn renamed_to_non_md_leaves_tree() {
    let ss = Syntaxes::load();
    let mut app = app_with(&["a.md"]);
    app.handle_fs_event(
        FsEvent::EntryRenamed { from: "/r/a.md".to_string(), to: "/r/a.txt".to_string() },
        None,
        false,
        &ss,
        false,
    );
    assert!(app.paths.get("a.md").is_none());
    assert!(app.paths.get("a.txt").is_none());
}

#[test]
fn renamed_from_non_md_joins_tree() {
    let ss = Syntaxes::load();
    let mut app = app_with(&[]);
    app.on_entry_renamed("/r/a.txt", "/r/a.md", false);
    assert_eq!(app.paths.get("a.md"), Some(("/r/a.md".to_string(), false)));
    let _ = ss;
}
