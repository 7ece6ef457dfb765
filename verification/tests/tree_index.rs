use mdtui::session::App;
use mdtui::tree::{relative_path_str, split_id, PathMap};

fn map_of(files: &[&str], dirs: &[&str]) -> PathMap {
    let mut m = PathMap::new();
    for f in files {
        m.insert(f.to_string(), format!("/r/{f}"), false);
    }
    for d in dirs {
        m.insert(d.to_string(), format!("/r/{d}"), true);
    }
    m
}

#[test]
fn relative_path_str_strips_root() {
    assert_eq!(relative_path_str("/r", "/r/test.md"), "test.md");
}

#[test]
fn relative_path_str_nested() {
    assert_eq!(relative_path_str("/r", "/r/sub/note.md"), "sub/note.md");
}

#[test]
fn relative_path_str_outside_root_keeps_path() {
    assert_eq!(relative_path_str("/r", "/elsewhere/x.md"), "/elsewhere/x.md");
}

#[test]
fn refresh_tree_add_inserts_file() {
    let mut m = map_of(&["a.md"], &[]);
    m.refresh_add("/r", "/r/b.md", false);
    assert_eq!(m.get("b.md"), Some(("/r/b.md".to_string(), false)));
}

#[test]
fn refresh_tree_add_creates_parent_dirs() {
    let mut m = map_of(&[], &[]);
    m.refresh_add("/r", "/r/sub/deep/file.md", false);
    assert!(m.get("sub/deep/file.md").is_some());
    assert_eq!(m.get("sub/deep"), Some(("/r/sub/deep".to_string(), true)));
    assert_eq!(m.get("sub"), Some(("/r/sub".to_string(), true)));
}

#[test]
fn refresh_tree_remove_deletes_entry() {
    let mut m = map_of(&["a.md", "b.md"], &[]);
    m.refresh_remove("/r", "/r/a.md");
    assert!(m.get("a.md").is_none());
    assert!(m.get("b.md").is_some());
}

#[test]
fn refresh_tree_remove_deletes_children() {
    let mut m = map_of(&["sub/a.md", "sub/b.md"], &["sub"]);
    m.refresh_remove("/r", "/r/sub");
    assert!(m.get("sub").is_none());
    assert!(m.get("sub/a.md").is_none());
    assert!(m.get("sub/b.md").is_none());
}

#[test]
fn refresh_tree_move_file() {
    let mut m = map_of(&["old.md"], &[]);
    m.refresh_move("/r", "/r/old.md", "/r/new.md", false);
    assert!(m.get("old.md").is_none());
    assert_eq!(m.get("new.md"), Some(("/r/new.md".to_string(), false)));
}

#[test]
fn refresh_tree_move_directory_updates_children() {
    let mut m = map_of(&["old/a.md", "old/b.md"], &["old"]);
    m.refresh_move("/r", "/r/old", "/r/new", true);
    assert!(m.get("old").is_none());
    assert!(m.get("old/a.md").is_none());
    assert!(m.get("old/b.md").is_none());
    assert!(m.get("new").is_some());
    assert_eq!(m.get("new/a.md"), Some(("/r/new/a.md".to_string(), false)));
    assert!(m.get("new/b.md").is_some());
}

#[test]
fn refresh_tree_add_clears_filtered_state() {
    let mut app = App::new("/r".to_string(), map_of(&["a.md"], &[]), 80, 24, 0);
    app.filtered = Some(Vec::new());
    app.on_entry_created("/r/b.md", false, None, &mdtui::syntax::Syntaxes::load(), false);
    assert!(app.filtered.is_none());
    assert!(app.paths.get("b.md").is_some());
}

#[test]
fn children_lists_directories_first_then_names() {
    let m = map_of(&["b.md", "A.md", "sub/x.md", "c.md"], &["sub", "Zdir"]);
    let top = m.children("");
    let ids: Vec<&str> = top.iter().map(|t| t.0.as_str()).collect();
    assert_eq!(ids, vec!["sub", "Zdir", "A.md", "b.md", "c.md"]);
    assert!(top[0].2);
    assert!(!top[2].2);
    let sub = m.children("sub");
    assert_eq!(sub, vec![("sub/x.md".to_string(), "x.md".to_string(), false)]);
}

#[test]
fn split_id_gives_parent_and_name() {
    assert_eq!(split_id("a/b/c.md"), ("a/b".to_string(), "c.md".to_string()));
    assert_eq!(split_id("top.md"), (String::new(), "top.md".to_string()));
}

#[test]
fn file_search_results_match_names_case_insensitively() {
    let m = map_of(&["Notes.md", "docs/notes-2.md", "other.md"], &["docs"]);
    let r = m.file_search_results("NOTES");
    let ids: Vec<&str> = r.iter().map(|t| t.0.as_str()).collect();
    assert_eq!(ids, vec!["Notes.md", "docs/notes-2.md"]);
}
