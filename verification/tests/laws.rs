use mdtui::document::DocumentState;
use mdtui::highlight::highlight_span;
use mdtui::renderer::{deduplicate_links, LinkInfo};
use mdtui::screens::welcome_lines;
use mdtui::session::{App, FileRead, Key, KeyCode, Overlay};
use mdtui::style::{Span, Style};
use mdtui::tree::PathMap;
use mdtui::wrap::wrap_spans;
use mdtui::syntax::Syntaxes;
use unicode_width::UnicodeWidthStr;

fn plain() -> Style {
    Style { fg: None, bg: None, add_modifier: 0, sub_modifier: 0 }
}

fn raw(s: &str) -> Span {
    Span { content: s.to_string(), style: plain() }
}

#[test]
fn wrapped_lines_stay_within_width() {
    let text = "the quick brown fox jumps over the lazy dog and keeps running far away";
    for width in 3..30 {
        for line in wrap_spans(&vec![raw(text)], width) {
            let w: usize = line.iter().map(|s| UnicodeWidthStr::width(s.content.as_str())).sum();
            assert!(w <= width, "width {width}: line of {w} columns");
        }
    }
}

#[test]
fn highlighting_keeps_the_text() {
    let span = raw("Foo bar FOO baz foo");
    let parts = highlight_span(&span, &"foo".chars().collect(), Style { bg: Some(mdtui::style::Color::Yellow), ..plain() });
    let joined: String = parts.iter().map(|s| s.content.as_str()).collect();
    assert_eq!(joined, "Foo bar FOO baz foo");
    assert_eq!(parts.len(), 5);
}

#[test]
fn deduplicating_twice_is_deduplicating_once() {
    let l = |t: &str, u: &str| LinkInfo { display_text: t.to_string(), url: u.to_string() };
    let once = deduplicate_links(vec![l("a", "x"), l("b", "y"), l("c", "x"), l("d", "y"), l("e", "z")]);
    let urls: Vec<&str> = once.iter().map(|k| k.url.as_str()).collect();
    assert_eq!(urls, vec!["x", "y", "z"]);
    let texts: Vec<String> = once.iter().map(|k| k.display_text.clone()).collect();
    let twice = deduplicate_links(once);
    assert_eq!(twice.iter().map(|k| k.display_text.clone()).collect::<Vec<_>>(), texts);
}

#[test]
fn welcome_screen_never_overflows() {
    for rows in 1..60 {
        assert!(welcome_lines(rows).len() <= rows, "{rows} rows");
    }
}

#[test]
fn removing_an_added_file_restores_the_index() {
    let mut m = PathMap::new();
    m.insert("docs".to_string(), "/r/docs".to_string(), true);
    m.insert("docs/a.md".to_string(), "/r/docs/a.md".to_string(), false);
    let before = m.files_sorted();
    m.refresh_add("/r", "/r/docs/b.md", false);
    assert_eq!(m.len(), 3);
    m.refresh_remove("/r", "/r/docs/b.md");
    assert_eq!(m.len(), 2);
    assert_eq!(m.files_sorted(), before);
    assert!(m.get("docs").is_some());
}

#[test]
fn saving_an_unedited_document_gives_its_text_back() {
    let ss = Syntaxes::load();
    for text in ["# Title\n\nbody", "# Title\n\nbody\n", "", "a\n\n"] {
        let mut m = PathMap::new();
        m.insert("t.md".to_string(), "/r/t.md".to_string(), false);
        let mut app = App::new("/r".to_string(), m, 80, 24, 0);
        app.open_read("/r/t.md".to_string(), FileRead::Text(text.to_string()), &ss, false);
        app.enter_editor();
        let lines: Vec<String> = text.lines().map(|l| l.to_string()).collect();
        let (_, saved) = app.begin_save(&lines).unwrap();
        let expected = if text.ends_with('\n') { text.to_string() } else { format!("{text}\n") };
        assert_eq!(saved, expected);
    }
}

fn doc(lines: usize, height: usize) -> DocumentState {
    DocumentState {
        current_file: None,
        file_content: String::new(),
        rendered_lines: (0..lines).map(|i| vec![raw(&format!("l{i}"))]).collect(),
        rendered_lines_lower: (0..lines).map(|i| format!("l{i}")).collect(),
        rendered_blocks: Vec::new(),
        links: Vec::new(),
        heading_line_offsets: Vec::new(),
        block_line_starts: Vec::new(),
        scroll_offset: 0,
        viewport_height: height,
        viewport_width: 80,
    }
}

#[test]
fn scrolling_stays_within_the_document() {
    let mut d = doc(25, 10);
    for _ in 0..40 {
        d.scroll_half_page_down();
        assert!(d.scroll_offset <= d.max_scroll());
    }
    d.scroll_to_line(1000);
    assert_eq!(d.scroll_offset, 15);
    d.scroll_offset = 7;
    d.scroll_down();
    d.scroll_up();
    assert_eq!(d.scroll_offset, 7);
}

#[test]
fn finder_down_then_up_returns() {
    let mut m = PathMap::new();
    for f in ["a.md", "b.md", "c.md"] {
        m.insert(f.to_string(), format!("/r/{f}"), false);
    }
    let mut app = App::new("/r".to_string(), m, 80, 24, 0);
    app.open_file_finder();
    assert!(matches!(app.overlay, Overlay::FileFinder));
    for start in 0..3 {
        app.file_finder.selected = start;
        app.handle_file_finder_key(Key { code: KeyCode::Down, ctrl: false });
        app.handle_file_finder_key(Key { code: KeyCode::Up, ctrl: false });
        assert_eq!(app.file_finder.selected, start);
    }
}
