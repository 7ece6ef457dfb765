use mdtui::blocks::RenderedBlock;
use mdtui::document::DocumentState;
use mdtui::style::{Span, Style};

fn raw(s: &str) -> Span {
    Span { content: s.to_string(), style: Style { fg: None, bg: None, add_modifier: 0, sub_modifier: 0 } }
}

fn make_doc(num_lines: usize, viewport_height: usize) -> DocumentState {
    let rendered_lines: Vec<Vec<Span>> = (0..num_lines).map(|i| vec![raw(&format!("line {i}"))]).collect();
    let rendered_lines_lower = (0..num_lines).map(|i| format!("line {i}")).collect();
    DocumentState {
        current_file: None,
        file_content: String::new(),
        rendered_lines,
        rendered_lines_lower,
        rendered_blocks: Vec::new(),
        links: Vec::new(),
        heading_line_offsets: Vec::new(),
        block_line_starts: Vec::new(),
        scroll_offset: 0,
        viewport_height,
        viewport_width: 80,
    }
}

#[test]
fn scroll_down_empty_document() {
    let mut doc = make_doc(0, 10);
    doc.scroll_down();
    assert_eq!(doc.scroll_offset, 0);
}

#[test]
fn document_scroll_up_at_zero_stays_zero() {
    let mut doc = make_doc(20, 10);
    doc.scroll_up();
    assert_eq!(doc.scroll_offset, 0);
}

#[test]
fn scroll_down_clamps_to_max() {
    let mut doc = make_doc(15, 10);
    for _ in 0..20 {
        doc.scroll_down();
    }
    assert_eq!(doc.scroll_offset, 5);
}

#[test]
fn scroll_half_page_down_at_least_one() {
    let mut doc = make_doc(20, 1);
    doc.scroll_half_page_down();
    assert_eq!(doc.scroll_offset, 1);
}

#[test]
fn scroll_half_page_up_at_least_one() {
    let mut doc = make_doc(20, 1);
    doc.scroll_offset = 5;
    doc.scroll_half_page_up();
    assert_eq!(doc.scroll_offset, 4);
}

#[test]
fn max_scroll_with_fewer_lines_than_viewport() {
    let doc = make_doc(5, 10);
    assert_eq!(doc.max_scroll(), 0);
}

#[test]
fn clamp_scroll_reduces_to_max() {
    let mut doc = make_doc(15, 10);
    doc.scroll_offset = 100;
    doc.clamp_scroll();
    assert_eq!(doc.scroll_offset, 5);
}

#[test]
fn scroll_to_line_positions_with_padding() {
    let mut doc = make_doc(30, 10);
    doc.scroll_to_line(10);
    assert_eq!(doc.scroll_offset, 8);
}

#[test]
fn scroll_to_line_zero_clamps_to_zero() {
    let mut doc = make_doc(30, 10);
    doc.scroll_to_line(0);
    assert_eq!(doc.scroll_offset, 0);
}

fn heading_block(text: &str, level: Option<u8>) -> RenderedBlock {
    RenderedBlock::StyledLine { spans: vec![raw(text)], blockquote_depth: 0, list_marker_width: 0, heading_level: level }
}

#[test]
fn rebuild_heading_index_filters_headings() {
    let mut doc = make_doc(0, 10);
    doc.rendered_blocks =
        vec![heading_block("heading", Some(1)), heading_block("paragraph", None), heading_block("heading2", Some(2))];
    doc.block_line_starts = vec![0, 2, 4];
    doc.rebuild_heading_index();
    assert_eq!(doc.heading_line_offsets, vec![0, 4]);
}

#[test]
fn jump_to_next_heading() {
    let mut doc = make_doc(30, 10);
    doc.heading_line_offsets = vec![5, 15, 25];
    doc.scroll_offset = 0;
    doc.jump_to_next_heading();
    assert_eq!(doc.scroll_offset, 3);
}

#[test]
fn jump_to_next_heading_no_more_headings() {
    let mut doc = make_doc(30, 10);
    doc.heading_line_offsets = vec![5];
    doc.scroll_offset = 10;
    let before = doc.scroll_offset;
    doc.jump_to_next_heading();
    assert_eq!(doc.scroll_offset, before);
}

#[test]
fn jump_to_prev_heading() {
    let mut doc = make_doc(30, 10);
    doc.heading_line_offsets = vec![5, 15, 25];
    doc.scroll_offset = 15;
    doc.jump_to_prev_heading();
    assert_eq!(doc.scroll_offset, 13);
}

#[test]
fn jump_to_prev_heading_no_earlier() {
    let mut doc = make_doc(30, 10);
    doc.heading_line_offsets = vec![5];
    doc.scroll_offset = 0;
    doc.jump_to_prev_heading();
    assert_eq!(doc.scroll_offset, 0);
}

#[test]
fn clear_resets_all_state() {
    let mut doc = make_doc(10, 5);
    doc.current_file = Some("/tmp/test.md".to_string());
    doc.file_content = "hello".to_string();
    doc.scroll_offset = 5;
    doc.heading_line_offsets = vec![1, 2];

    doc.clear();

    assert!(doc.current_file.is_none());
    assert!(doc.file_content.is_empty());
    assert!(doc.rendered_lines.is_empty());
    assert!(doc.rendered_lines_lower.is_empty());
    assert!(doc.rendered_blocks.is_empty());
    assert!(doc.links.is_empty());
    assert!(doc.heading_line_offsets.is_empty());
    assert!(doc.block_line_starts.is_empty());
    assert_eq!(doc.scroll_offset, 0);
}

#[test]
fn rebuild_lower_cache_lowercases_spans() {
    let mut doc = make_doc(0, 10);
    doc.rendered_lines = vec![vec![raw("Hello"), raw(" WORLD")], vec![raw("FoO")]];
    doc.rebuild_lower_cache();
    assert_eq!(doc.rendered_lines_lower, vec!["hello world", "foo"]);
}

// ── fitting the pane ─────────────────────────────────────────

#[test]
fn fit_viewport_clamps_scroll_to_new_height() {
    let mut doc = make_doc(30, 10);
    doc.scroll_offset = 20;
    doc.fit_viewport(80, 15);
    assert_eq!(doc.viewport_height, 15);
    assert_eq!(doc.scroll_offset, 15);
}

#[test]
fn fit_viewport_rewraps_open_document_on_width_change() {
    let mut doc = make_doc(0, 10);
    doc.current_file = Some("/r/a.md".to_string());
    doc.rendered_blocks = vec![heading_block("aaaa bbbb cccc", Some(1))];
    doc.viewport_width = 80;
    doc.fit_viewport(5, 10);
    assert_eq!(doc.viewport_width, 5);
    assert_eq!(doc.rendered_lines.len(), 3);
    assert_eq!(doc.rendered_lines_lower, vec!["aaaa", "bbbb", "cccc"]);
    assert_eq!(doc.block_line_starts, vec![0]);
    assert_eq!(doc.heading_line_offsets, vec![0]);
}

#[test]
fn fit_viewport_keeps_lines_without_open_file() {
    let mut doc = make_doc(3, 10);
    doc.fit_viewport(5, 10);
    assert_eq!(doc.viewport_width, 80);
    assert_eq!(doc.rendered_lines.len(), 3);
}

#[test]
fn scrollbar_only_when_longer_than_pane() {
    let mut doc = make_doc(30, 10);
    doc.scroll_offset = 7;
    assert_eq!(doc.scrollbar(), Some((20, 7)));
    let short = make_doc(5, 10);
    assert_eq!(short.scrollbar(), None);
}
