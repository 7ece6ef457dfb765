use mdtui::renderer::LinkInfo;
use mdtui::session::{Action, App, FileRead, Key, KeyCode, Overlay};
use mdtui::tree::PathMap;
use mdtui::syntax::Syntaxes;

fn app_with(files: &[&str], dirs: &[&str]) -> App {
    let mut m = PathMap::new();
    for f in files {
        m.insert(f.to_string(), format!("/r/{f}"), false);
    }
    for d in dirs {
        m.insert(d.to_string(), format!("/r/{d}"), true);
    }
    App::new("/r".to_string(), m, 80, 24, 0)
}

fn link(t: &str, u: &str) -> LinkInfo {
    LinkInfo { display_text: t.to_string(), url: u.to_string() }
}

fn key(code: KeyCode) -> Key {
    Key { code, ctrl: false }
}

// ── link picker ─────────────────────────────────────────────

#[test]
fn filtered_link_indices_empty_query_returns_all() {
    let mut app = app_with(&["t.md"], &[]);
    app.document.links = vec![link("Google", "https://google.com"), link("GitHub", "https://github.com")];
    app.link_picker.search_query.clear();
    let indices = app.filtered_link_indices().to_vec();
    assert_eq!(indices, vec![0, 1]);
}

#[test]
fn filtered_link_indices_filters_by_display_text() {
    let mut app = app_with(&["t.md"], &[]);
    app.document.links = vec![
        link("Google", "https://google.com"),
        link("GitHub", "https://github.com"),
        link("Rust", "https://rust-lang.org"),
    ];
    app.link_picker.search_query = "git".to_string();
    let indices = app.filtered_link_indices().to_vec();
    assert_eq!(indices, vec![1]);
}

#[test]
fn filtered_link_indices_filters_by_url() {
    let mut app = app_with(&["t.md"], &[]);
    app.document.links = vec![link("Search", "https://google.com"), link("Code", "https://github.com")];
    app.link_picker.search_query = "google".to_string();
    let indices = app.filtered_link_indices().to_vec();
    assert_eq!(indices, vec![0]);
}

#[test]
fn filtered_link_indices_caches_results() {
    let mut app = app_with(&["t.md"], &[]);
    app.document.links = vec![link("A", "https://a.com")];
    app.link_picker.search_query = "a".to_string();
    let indices1 = app.filtered_link_indices().to_vec();
    let indices2 = app.filtered_link_indices().to_vec();
    assert_eq!(indices1, indices2);
    assert_eq!(app.link_picker.cached_query, "a");
    assert_eq!(app.link_picker.cached_count, 1);
}

#[test]
fn filtered_link_indices_cache_invalidated_on_query_change() {
    let mut app = app_with(&["t.md"], &[]);
    app.document.links = vec![link("Alpha", "https://alpha.com"), link("Beta", "https://beta.com")];
    app.link_picker.search_query = "alpha".to_string();
    let idx1 = app.filtered_link_indices().to_vec();
    assert_eq!(idx1, vec![0]);
    app.link_picker.search_query = "beta".to_string();
    let idx2 = app.filtered_link_indices().to_vec();
    assert_eq!(idx2, vec![1]);
}

#[test]
fn filtered_link_indices_case_insensitive() {
    let mut app = app_with(&["t.md"], &[]);
    app.document.links = vec![link("GitHub", "https://github.com")];
    app.link_picker.search_query = "GITHUB".to_string();
    let indices = app.filtered_link_indices().to_vec();
    assert_eq!(indices, vec![0]);
}

#[test]
fn link_picker_enter_opens_selected_link() {
    let mut app = app_with(&["t.md"], &[]);
    app.document.links = vec![link("Alpha", "https://alpha.com"), link("Beta", "https://beta.com")];
    app.overlay = Overlay::LinkPicker;
    app.handle_link_picker_key(key(KeyCode::Down));
    let a = app.handle_link_picker_key(key(KeyCode::Enter));
    match a {
        Action::OpenLink(u) => assert_eq!(u, "https://beta.com"),
        _ => panic!("expected a link to open"),
    }
}

// ── file finder ─────────────────────────────────────────────

#[test]
fn open_file_finder_shows_all_files() {
    let mut app = app_with(&["c.md", "a.md", "b.md"], &[]);
    app.open_file_finder();
    assert!(matches!(app.overlay, Overlay::FileFinder));
    assert_eq!(app.file_finder.results.len(), 3);
    assert_eq!(app.file_finder.selected, 0);
    assert!(app.file_finder.query.is_empty());
    assert_eq!(app.file_finder.results[0].0, "a.md");
    assert_eq!(app.file_finder.results[1].0, "b.md");
    assert_eq!(app.file_finder.results[2].0, "c.md");
}

#[test]
fn open_file_finder_excludes_directories() {
    let mut app = app_with(&["a.md", "subdir/b.md"], &["subdir"]);
    app.open_file_finder();
    assert_eq!(app.file_finder.results.len(), 2);
    for (rel, _) in &app.file_finder.results {
        assert!(rel.ends_with(".md"));
    }
}

#[test]
fn update_file_finder_filters_by_query() {
    let mut app = app_with(&["alpha.md", "beta.md", "gamma.md"], &[]);
    app.open_file_finder();
    app.file_finder.query = "alpha".to_string();
    app.update_file_finder_results();
    assert_eq!(app.file_finder.results.len(), 1);
    assert_eq!(app.file_finder.results[0].0, "alpha.md");
}

#[test]
fn update_file_finder_empty_query_shows_all() {
    let mut app = app_with(&["a.md", "b.md"], &[]);
    app.open_file_finder();
    app.file_finder.query.clear();
    app.update_file_finder_results();
    assert_eq!(app.file_finder.results.len(), 2);
}

#[test]
fn file_finder_key_down_wraps_around() {
    let mut app = app_with(&["a.md", "b.md"], &[]);
    app.open_file_finder();
    assert_eq!(app.file_finder.selected, 0);
    app.handle_file_finder_key(key(KeyCode::Down));
    assert_eq!(app.file_finder.selected, 1);
    app.handle_file_finder_key(key(KeyCode::Down));
    assert_eq!(app.file_finder.selected, 0);
}

#[test]
fn file_finder_key_up_wraps_around() {
    let mut app = app_with(&["a.md", "b.md"], &[]);
    app.open_file_finder();
    assert_eq!(app.file_finder.selected, 0);
    app.handle_file_finder_key(key(KeyCode::Up));
    assert_eq!(app.file_finder.selected, 1);
}

#[test]
fn file_finder_char_adds_to_query_and_resets_selection() {
    let mut app = app_with(&["a.md", "b.md"], &[]);
    app.open_file_finder();
    app.file_finder.selected = 1;
    app.handle_file_finder_key(key(KeyCode::Char('a')));
    assert_eq!(app.file_finder.query, "a");
    assert_eq!(app.file_finder.selected, 0);
}

#[test]
fn file_finder_backspace_pops_char() {
    let mut app = app_with(&["a.md"], &[]);
    app.open_file_finder();
    app.file_finder.query = "ab".to_string();
    app.handle_file_finder_key(key(KeyCode::Backspace));
    assert_eq!(app.file_finder.query, "a");
    assert_eq!(app.file_finder.selected, 0);
}

#[test]
fn file_finder_esc_clears_query_first() {
    let mut app = app_with(&["a.md"], &[]);
    app.open_file_finder();
    app.file_finder.query = "test".to_string();
    app.handle_file_finder_key(key(KeyCode::Esc));
    assert!(app.file_finder.query.is_empty());
    assert!(matches!(app.overlay, Overlay::FileFinder));
    app.handle_file_finder_key(key(KeyCode::Esc));
    assert!(matches!(app.overlay, Overlay::Off));
}

#[test]
fn file_finder_enter_opens_file() {
    let ss = Syntaxes::load();
    let mut app = app_with(&["a.md"], &[]);
    app.open_file_finder();
    let a = app.handle_file_finder_key(key(KeyCode::Enter));
    assert!(matches!(app.overlay, Overlay::Off));
    match a {
        Action::OpenFile(p) => {
            assert_eq!(p, "/r/a.md");
            app.open_read(p, FileRead::Text("# Hello".to_string()), &ss, false);
        },
        _ => panic!("expected a file to open"),
    }
    assert!(app.document.current_file.is_some());
}
