//! The application's state and its reactions to keys: modes, focus,
//! overlays, the command line, search, the link picker, the file finder and
//! file operations.
//!
//! Work that the library cannot do itself (moving the tree widget's
//! selection, touching the filesystem, running the text editor widget,
//! opening a browser) is returned as an [`Action`] for the caller to perform.

use crate::document::{
    next_search_match, perform_document_search, prev_search_match, DocumentState, SearchState,
};
use crate::modes::{AppMode, Focus};
use crate::renderer::LinkInfo;
use crate::text::{
    trim, trim_string, chars_of, contains_seq, contains_vec, copy_string, lit, lowercase_str, push_char, push_str, sat_sub, str_eq,
    str_lowercase,
};
use crate::blocks::{block_view, blocks_view, lemma_block_starts_len, rewrap_blocks, RenderedBlock};
use crate::paths::{file_name_chars, file_name_spec, has_md_extension, has_md_extension_spec};
use crate::renderer::{deduplicate_links, render_markdown_blocks};
use crate::tree::{
    add_spec, move_spec, parent_str, path_parent, path_starts_with, path_starts_with_str, rel_spec, relative_path_str,
    remove_spec, PathMap, PathMapView,
};
use crate::syntax::Syntaxes;
use vstd::prelude::*;

verus! {

/// Keys that the application distinguishes.
#[derive(Clone, Copy, Debug, PartialEq, Eq, Structural)]
pub enum KeyCode {
    Char(char),
    Enter,
    Esc,
    Tab,
    Backspace,
    Up,
    Down,
    Left,
    Right,
    Other,
}

/// A key press: its code and whether Control was held.
#[derive(Clone, Copy, Debug, PartialEq, Eq, Structural)]
pub struct Key {
    pub code: KeyCode,
    pub ctrl: bool,
}

/// A file operation waiting for input or confirmation.
pub enum FileOp {
    CreateFile { parent_dir: String },
    CreateDir { parent_dir: String },
    Rename { target: String, is_dir: bool },
    Delete { target: String, is_dir: bool, name: String },
    Move { source: String, is_dir: bool },
}

/// The kinds of file operation.
#[derive(Clone, Copy, Debug, PartialEq, Eq, Structural)]
pub enum FileOpKind {
    CreateFile,
    CreateDir,
    Rename,
    Delete,
    Move,
}

/// The overlay shown above the panes, if any.
pub enum Overlay {
    Off,
    Help,
    LinkPicker,
    FileOp(FileOp),
    FileFinder,
}

/// How the editor and its live preview share the screen.
#[derive(Clone, Copy, Debug, PartialEq, Eq, Structural)]
pub enum SplitOrientation {
    Horizontal,
    Vertical,
}

/// A move of the file tree's selection.
#[derive(Clone, Copy, Debug, PartialEq, Eq, Structural)]
pub enum TreeMove {
    Down,
    Up,
    Left,
    Right,
    First,
    Last,
}

/// Work for the caller after a key.
pub enum Action {
    /// Nothing to do.
    Nothing,
    /// Move the tree's selection, this many steps.
    Tree(TreeMove, usize),
    /// Open the tree's selected entry (a file) or toggle it (a directory).
    OpenSelected,
    /// Start a file operation on the tree's selected entry.
    StartFileOp(FileOpKind),
    /// Carry out a confirmed file operation with the typed input.
    ConfirmFileOp(FileOp, String),
    /// Open this file.
    OpenFile(String),
    /// Open this link in the browser.
    OpenLink(String),
    /// Open the editor on the current document.
    OpenEditor,
    /// Hand this key to the editor.
    EditorInput(Key),
    /// Close the editor.
    CloseEditor,
    /// Save the editor's text, closing the editor afterwards if asked.
    SaveEditor { then_exit: bool },
    /// Reload the editor's text from disk.
    ReloadEditor,
    /// Render the live preview again.
    RefreshLivePreview,
}

/// Link picker state.
pub struct LinkPickerState {
    pub selected: usize,
    pub search_query: String,
    pub cached_indices: Vec<usize>,
    pub cached_query: String,
    pub cached_count: usize,
}

/// File finder state.
pub struct FileFinderState {
    pub query: String,
    pub selected: usize,
    pub results: Vec<(String, String)>,
}

/// Editor state (the text itself is held by the caller's editor widget).
pub struct EditorState {
    pub open: bool,
    pub is_dirty: bool,
    pub external_change_detected: bool,
}

/// Live preview state.
pub struct LivePreviewState {
    pub enabled: bool,
    pub orientation: SplitOrientation,
    /// Time of the last edit not yet rendered.
    pub debounce: Option<u64>,
    pub scroll_offset: usize,
    pub viewport_width: usize,
    /// The preview's lines at its width.
    pub rendered_lines: Vec<Vec<crate::style::Span>>,
    /// The preview's blocks.
    pub rendered_blocks: Vec<RenderedBlock>,
    /// First line of each block.
    pub block_line_starts: Vec<usize>,
}

/// Milliseconds within which a second key composes with the first.
pub const DOUBLE_KEY_TIMEOUT_MS: u64 = 500;

/// Blink interval of the input cursor, in milliseconds.
pub const CURSOR_BLINK_MS: u64 = 530;

/// Default largest file shown (5 MB).
pub const DEFAULT_MAX_FILE_SIZE: u64 = 5000000;

/// The application's state.
pub struct App {
    pub search: SearchState,
    pub editor: EditorState,
    /// The file tree's index.
    pub paths: PathMap,
    /// The file search's results (id, file name), while it filters the tree.
    pub filtered: Option<Vec<(String, String)>>,
    pub document: DocumentState,
    pub link_picker: LinkPickerState,
    pub file_finder: FileFinderState,
    pub cursor_visible: bool,
    pub cursor_last_toggle: u64,
    pub mode: AppMode,
    pub focus: Focus,
    pub should_quit: bool,
    pub status_message: String,
    /// A key waiting for its second half, and when it was pressed.
    pub pending_key: Option<(char, u64)>,
    pub command_buffer: String,
    pub overlay: Overlay,
    pub file_op_input: String,
    pub show_file_tree: bool,
    pub root_path: String,
    pub max_file_size: u64,
    /// The document came from standard input (no file tree).
    pub stdin_mode: bool,
    pub live_preview: LivePreviewState,
}

/// What a key does in Normal mode (outside the editor).
#[derive(Clone, Copy, Debug, PartialEq, Eq, Structural)]
pub enum NormalCmd {
    Nothing,
    StartOp(FileOpKind),
    Down,
    Up,
    Open,
    ToggleFocus,
    TreeLeft,
    TreeRight,
    Last,
    PendG,
    PendSpace,
    HalfDown,
    HalfUp,
    Command,
    Search,
    NextMatch,
    PrevMatch,
    ClearSearch,
    Edit,
    Links,
    Help,
    Quit,
    NextHeading,
    PrevHeading,
    PendF,
}

/// The Normal-mode key map (outside the editor).
pub open spec fn normal_cmd(focus: Focus, key: Key) -> NormalCmd {
    let fl = focus == Focus::FileList;
    let pv = focus == Focus::Preview;
    match key.code {
        KeyCode::Char('a') => if fl { NormalCmd::StartOp(FileOpKind::CreateFile) } else { NormalCmd::Nothing },
        KeyCode::Char('A') => if fl { NormalCmd::StartOp(FileOpKind::CreateDir) } else { NormalCmd::Nothing },
        KeyCode::Char('d') => if !key.ctrl && fl {
            NormalCmd::StartOp(FileOpKind::Delete)
        } else if key.ctrl && pv {
            NormalCmd::HalfDown
        } else {
            NormalCmd::Nothing
        },
        KeyCode::Char('r') => if fl { NormalCmd::StartOp(FileOpKind::Rename) } else { NormalCmd::Nothing },
        KeyCode::Char('m') => if fl { NormalCmd::StartOp(FileOpKind::Move) } else { NormalCmd::Nothing },
        KeyCode::Char('j') | KeyCode::Down => NormalCmd::Down,
        KeyCode::Char('k') | KeyCode::Up => NormalCmd::Up,
        KeyCode::Enter => NormalCmd::Open,
        KeyCode::Tab => NormalCmd::ToggleFocus,
        KeyCode::Char('h') | KeyCode::Left | KeyCode::Backspace => if fl { NormalCmd::TreeLeft } else { NormalCmd::Nothing },
        KeyCode::Char('l') | KeyCode::Right => if fl { NormalCmd::TreeRight } else { NormalCmd::Nothing },
        KeyCode::Char('G') => NormalCmd::Last,
        KeyCode::Char('g') => NormalCmd::PendG,
        KeyCode::Char(' ') => NormalCmd::PendSpace,
        KeyCode::Char('u') => if key.ctrl && pv { NormalCmd::HalfUp } else { NormalCmd::Nothing },
        KeyCode::Char(':') => NormalCmd::Command,
        KeyCode::Char('/') => NormalCmd::Search,
        KeyCode::Char('n') => NormalCmd::NextMatch,
        KeyCode::Char('N') => NormalCmd::PrevMatch,
        KeyCode::Esc => NormalCmd::ClearSearch,
        KeyCode::Char('i') | KeyCode::Char('e') => if pv { NormalCmd::Edit } else { NormalCmd::Nothing },
        KeyCode::Char('o') => if pv { NormalCmd::Links } else { NormalCmd::Nothing },
        KeyCode::Char('?') => NormalCmd::Help,
        KeyCode::Char('q') => NormalCmd::Quit,
        KeyCode::Char(']') => if pv { NormalCmd::NextHeading } else { NormalCmd::Nothing },
        KeyCode::Char('[') => if pv { NormalCmd::PrevHeading } else { NormalCmd::Nothing },
        KeyCode::Char('f') => NormalCmd::PendF,
        _ => NormalCmd::Nothing,
    }
}

/// The first key of a pending pair still composes with a second one at
/// `now`: it was pressed less than the timeout ago.
pub open spec fn pending_live(pending: Option<(char, u64)>, now: u64) -> Option<char> {
    match pending {
        Some((c, t)) => if sat_sub(now as nat, t as nat) < DOUBLE_KEY_TIMEOUT_MS { Some(c) } else { None },
        None => None,
    }
}

/// The key is `Char(c)`.
pub open spec fn is_char(key: Key, c: char) -> bool {
    key.code == KeyCode::Char(c)
}

/// The scroll offset after one line down.
pub open spec fn down_offset(d: DocumentState) -> nat {
    if d.rendered_lines@.len() == 0 {
        d.scroll_offset as nat
    } else {
        crate::document::clamped(d, crate::document::sat_add_usize(d.scroll_offset, 1))
    }
}

/// The document after `n` lines down.
pub open spec fn down_n(d: DocumentState, n: nat) -> DocumentState
    decreases n,
{
    if n == 0 {
        d
    } else {
        let e = down_n(d, (n - 1) as nat);
        doc_at(e, down_offset(e))
    }
}

/// The document scrolled to `off`.
pub open spec fn doc_at(d: DocumentState, off: nat) -> DocumentState {
    DocumentState { scroll_offset: off as usize, ..d }
}

/// The effect of moving to the next (`forward`) or previous search match.
pub open spec fn match_move_post(a: App, b: App, forward: bool) -> bool {
    let n = a.search.matches@.len();
    if n == 0 {
        b == a
    } else {
        let c = if forward {
            if a.search.current + 1 < n { (a.search.current + 1) as usize } else { 0usize }
        } else {
            if a.search.current > 0 { (a.search.current - 1) as usize } else { (n - 1) as usize }
        };
        if c < n {
            &&& b == (App {
                search: SearchState { current: c, ..a.search },
                document: doc_at(
                    a.document,
                    crate::document::clamped(
                        a.document,
                        sat_sub(a.search.matches@[c as int] as nat, crate::document::SCROLL_PADDING as nat),
                    ),
                ),
                status_message: b.status_message,
                ..a
            })
            &&& b.status_message@ == crate::document::match_status(a.search.query@, (c + 1) as nat, n)
        } else {
            b == (App { search: SearchState { current: c, ..a.search }, ..a })
        }
    }
}

/// Opening the file finder: every file listed, sorted by id, with an empty
/// query and the first entry selected; not for a document read from
/// standard input, where only the status says so.
pub open spec fn finder_opened(a: App, b: App) -> bool {
    if a.stdin_mode {
        status_only(a, b, "Not available (stdin)"@)
    } else {
        &&& b == (App { file_finder: b.file_finder, overlay: Overlay::FileFinder, ..a })
        &&& b.file_finder.query@.len() == 0
        &&& b.file_finder.selected == 0
        &&& crate::tree::finder_list(a.paths.view(), Seq::empty(), b.file_finder.results@)
    }
}

/// What a key does in Normal mode outside the editor (see [`normal_cmd`]),
/// after a pending `g`, Space or `f` has been taken into account: `g g`
/// goes to the top, Space `e` shows or hides the file tree, `f f` opens
/// the file finder.
pub open spec fn viewer_key_post(a: App, b: App, key: Key, now: u64, r: Action) -> bool {
    let pc = pending_live(a.pending_key, now);
    let a1 = App { pending_key: None, ..a };
    let fl = a.focus == Focus::FileList;
    let d = a.document;
    if pc == Some('g') && is_char(key, 'g') {
        if fl {
            r == Action::Tree(TreeMove::First, 1) && b == a1
        } else {
            r is Nothing && b == (App { document: doc_at(d, 0), ..a1 })
        }
    } else if pc == Some(' ') && is_char(key, 'e') {
        r is Nothing && b == (App {
            show_file_tree: !a.show_file_tree,
            focus: if !a.show_file_tree { Focus::FileList } else { Focus::Preview },
            ..a1
        })
    } else if pc == Some('f') && is_char(key, 'f') {
        r is Nothing && finder_opened(a1, b)
    } else {
        match normal_cmd(a.focus, key) {
            NormalCmd::Nothing => r is Nothing && b == a1,
            NormalCmd::StartOp(k) => r == Action::StartFileOp(k) && b == a1,
            NormalCmd::Down => if fl {
                r == Action::Tree(TreeMove::Down, 1) && b == a1
            } else {
                r is Nothing && b == (App { document: doc_at(d, down_offset(d)), ..a1 })
            },
            NormalCmd::Up => if fl {
                r == Action::Tree(TreeMove::Up, 1) && b == a1
            } else {
                r is Nothing && b == (App { document: doc_at(d, sat_sub(d.scroll_offset as nat, 1)), ..a1 })
            },
            NormalCmd::Open => (if fl { r is OpenSelected } else { r is Nothing }) && b == a1,
            NormalCmd::ToggleFocus => r is Nothing && b == (App {
                focus: if fl || !a1.show_file_tree { Focus::Preview } else { Focus::FileList },
                ..a1
            }),
            NormalCmd::TreeLeft => r == Action::Tree(TreeMove::Left, 1) && b == a1,
            NormalCmd::TreeRight => r == Action::Tree(TreeMove::Right, 1) && b == a1,
            NormalCmd::Last => if fl {
                r == Action::Tree(TreeMove::Last, 1) && b == a1
            } else {
                r is Nothing && b == (App { document: doc_at(d, crate::document::max_scroll_spec(d)), ..a1 })
            },
            NormalCmd::PendG => r is Nothing && b == (App { pending_key: Some(('g', now)), ..a }),
            NormalCmd::PendSpace => r is Nothing && b == (App { pending_key: Some((' ', now)), ..a }),
            NormalCmd::HalfDown => r is Nothing && b == (App {
                document: doc_at(
                    d,
                    crate::document::clamped(
                        d,
                        crate::document::sat_add_usize(d.scroll_offset, crate::document::half_page(d) as usize),
                    ),
                ),
                ..a1
            }),
            NormalCmd::HalfUp => r is Nothing && b == (App {
                document: doc_at(d, sat_sub(d.scroll_offset as nat, crate::document::half_page(d))),
                ..a1
            }),
            NormalCmd::Command => r is Nothing && b == (App {
                mode: AppMode::Command,
                command_buffer: b.command_buffer,
                ..a1
            }) && b.command_buffer@.len() == 0,
            NormalCmd::Search => r is Nothing && b == (App { mode: AppMode::Search, search: b.search, ..a1 })
                && b.search.active && b.search.query@.len() == 0 && b.search.matches@.len() == 0 && b.search.current == 0,
            NormalCmd::NextMatch => r is Nothing && match_move_post(a1, b, true),
            NormalCmd::PrevMatch => r is Nothing && match_move_post(a1, b, false),
            NormalCmd::ClearSearch => r is Nothing && b == (App {
                search: b.search,
                filtered: None,
                status_message: b.status_message,
                ..a1
            }) && !b.search.active && b.search.query@.len() == 0 && b.search.matches@.len() == 0 && b.search.current == 0
                && b.status_message@.len() == 0,
            NormalCmd::Edit => b == (App { editor: b.editor, mode: b.mode, status_message: b.status_message, ..a1 })
                && if d.current_file is None {
                r is Nothing && b.editor == a.editor && b.mode == a.mode && b.status_message@ == "No file open"@
            } else {
                r is OpenEditor && b.editor == (EditorState { open: true, is_dirty: false, external_change_detected: false })
                    && b.mode == AppMode::Insert && b.status_message@ == "-- INSERT --"@
            },
            NormalCmd::Links => r is Nothing && if d.links@.len() == 0 {
                b == (App { status_message: b.status_message, ..a1 }) && b.status_message@ == "No links in document"@
            } else {
                b == (App { overlay: Overlay::LinkPicker, link_picker: b.link_picker, ..a1 }) && b.link_picker == (
                LinkPickerState { selected: 0, search_query: b.link_picker.search_query, ..a.link_picker })
                    && b.link_picker.search_query@.len() == 0
            },
            NormalCmd::Help => r is Nothing && b == (App {
                overlay: if a.overlay is Help { Overlay::Off } else { Overlay::Help },
                ..a1
            }),
            NormalCmd::Quit => r is Nothing && b == (App { should_quit: true, ..a1 }),
            NormalCmd::NextHeading => r is Nothing && b == (App { document: b.document, ..a1 }) && if d.scroll_offset
                + crate::document::SCROLL_PADDING <= usize::MAX {
                crate::document::next_heading_post(d, b.document)
            } else {
                b.document == d
            },
            NormalCmd::PrevHeading => r is Nothing && b == (App { document: b.document, ..a1 }) && if d.scroll_offset
                + crate::document::SCROLL_PADDING <= usize::MAX {
                crate::document::prev_heading_post(d, b.document)
            } else {
                b.document == d
            },
            NormalCmd::PendF => r is Nothing && b == (App { pending_key: Some(('f', now)), ..a }),
        }
    }
}

/// What reading a file gave.
pub enum FileRead {
    /// The file is larger than the size limit.
    TooLarge,
    /// Reading failed, with the error's text.
    Failed(String),
    /// The file is not UTF-8 text.
    Binary,
    /// The file's text.
    Text(String),
}

/// A rectangle of the screen, in cells.
#[derive(Clone, Copy, Debug, PartialEq, Eq, Structural)]
pub struct Area {
    pub x: u16,
    pub y: u16,
    pub width: u16,
    pub height: u16,
}

/// The cell at (`col`, `row`) lies in the area (`Rect::contains`).
pub open spec fn area_contains(a: Area, col: u16, row: u16) -> bool {
    a.x <= col && (col as int) < a.x + a.width && a.y <= row && (row as int) < a.y + a.height
}

/// Mouse events the application distinguishes.
#[derive(Clone, Copy, Debug, PartialEq, Eq, Structural)]
pub enum MouseKind {
    ScrollDown,
    ScrollUp,
    LeftDown,
    Other,
}

/// What starting a file operation does (see [`App::start_file_op`]).
pub open spec fn file_op_started(a: App, b: App, kind: FileOpKind, selected: Option<(String, bool)>, now: u64) -> bool {
    &&& ((kind == FileOpKind::CreateFile || kind == FileOpKind::CreateDir || selected is Some) ==> {
            &&& b == (App {
                overlay: b.overlay,
                file_op_input: b.file_op_input,
                cursor_visible: true,
                cursor_last_toggle: now,
                ..a
            })
            &&& b.file_op_input@ == if kind == FileOpKind::Rename {
                name_or_empty(selected_path(selected))
            } else {
                Seq::<char>::empty()
            }
        })
    &&& (!(kind == FileOpKind::CreateFile || kind == FileOpKind::CreateDir || selected is Some) ==> b == a)
    &&& (kind == FileOpKind::CreateFile ==> (b.overlay matches Overlay::FileOp(FileOp::CreateFile { parent_dir })
            && parent_dir@ == new_entry_dir(match selected { Some((p, d)) => Some((p@, d)), None => None }, a.root_path@)))
    &&& (kind == FileOpKind::CreateDir ==> (b.overlay matches Overlay::FileOp(FileOp::CreateDir { parent_dir })
            && parent_dir@ == new_entry_dir(match selected { Some((p, d)) => Some((p@, d)), None => None }, a.root_path@)))
    &&& (kind == FileOpKind::Delete && selected is Some ==> (b.overlay matches Overlay::FileOp(FileOp::Delete { target, is_dir, name })
            && target@ == selected_path(selected) && is_dir == selected_is_dir(selected) && name@ == name_or_empty(selected_path(selected))))
    &&& (kind == FileOpKind::Rename && selected is Some ==> (b.overlay matches Overlay::FileOp(FileOp::Rename { target, is_dir })
            && target@ == selected_path(selected) && is_dir == selected_is_dir(selected)))
    &&& (kind == FileOpKind::Move && selected is Some ==> (b.overlay matches Overlay::FileOp(FileOp::Move { source, is_dir })
            && source@ == selected_path(selected) && is_dir == selected_is_dir(selected)))
}

/// The path of a selection (empty without one).
pub open spec fn selected_path(s: Option<(String, bool)>) -> Seq<char> {
    match s {
        Some((p, _)) => p@,
        None => Seq::empty(),
    }
}

/// Whether a selection is a directory.
pub open spec fn selected_is_dir(s: Option<(String, bool)>) -> bool {
    match s {
        Some((_, d)) => d,
        None => false,
    }
}

/// The file name of a path, or nothing.
pub open spec fn name_or_empty(p: Seq<char>) -> Seq<char> {
    match file_name_spec(p) {
        Some(n) => n,
        None => Seq::empty(),
    }
}

/// The viewport width as a layout width: unknown while zero.
pub open spec fn layout_width(w: usize) -> Option<usize> {
    if w > 0 {
        Some(w)
    } else {
        None
    }
}

/// `bv` are the blocks of the markdown text `content`: the renderer's
/// blocks, code highlighted, or with colors off the plain lines of the text.
pub open spec fn blocks_of_text(bv: Seq<crate::blocks::BlockView>, content: Seq<char>, no_color: bool) -> bool {
    let text = crate::markdown::expand_tabs_spec(content);
    let rendered = crate::renderer::render_spec(crate::markdown::md_events(text));
    &&& (no_color ==> bv == crate::renderer::plain_blocks(text))
    &&& (!no_color ==> bv.len() == rendered.0.len() && forall|i: int|
        0 <= i < bv.len() ==> crate::renderer::finished_as(rendered.0[i], #[trigger] bv[i]))
}

/// The document shows `content`: its blocks are the renderer's blocks of
/// the text (its plain lines with colors off), its lines are those blocks
/// laid out at the viewport's width, with the first line of each block
/// recorded, its links are the text's links without repeats, its search
/// cache holds the lower-cased text of each line, and its heading index is
/// rebuilt.
pub open spec fn shows_text(d: DocumentState, content: Seq<char>, no_color: bool) -> bool {
    let text = crate::markdown::expand_tabs_spec(content);
    let rendered = crate::renderer::render_spec(crate::markdown::md_events(text));
    let bv = blocks_view(d.rendered_blocks@);
    &&& d.file_content@ == content
    &&& blocks_of_text(bv, content, no_color)
    &&& crate::wrap::lines_view(d.rendered_lines@) == crate::blocks::blocks_lines(bv, layout_width(d.viewport_width))
    &&& crate::blocks::nats(d.block_line_starts@) == crate::blocks::block_starts(bv, layout_width(d.viewport_width))
    &&& d.rendered_lines_lower@.len() == d.rendered_lines@.len()
    &&& forall|i: int| 0 <= i < d.rendered_lines_lower@.len() ==> #[trigger] d.rendered_lines_lower@[i]@
        == crate::document::lower_line(d.rendered_lines@[i])
    &&& crate::renderer::links_view(d.links@) == crate::renderer::dedup_links_spec(rendered.1)
    &&& d.heading_line_offsets@ == crate::document::heading_starts(bv, d.block_line_starts@)
}

/// The file search's filter for `query`: none for an empty query,
/// otherwise the files whose name contains it (ignoring case), as (id, file
/// name) sorted by id.
pub open spec fn file_filter(m: PathMapView, query: Seq<char>, filtered: Option<Vec<(String, String)>>) -> bool {
    &&& query.len() == 0 ==> filtered is None
    &&& query.len() > 0 ==> (filtered matches Some(v) && crate::tree::sorted_seqs(crate::tree::pair_ids(v@))
        && crate::assoc::assoc(crate::tree::pair_views(v@)) == crate::tree::search_map(m, query))
}

/// The application after leaving the editor: editor closed and clean,
/// Normal mode, preview back at the top.
pub open spec fn editor_closed(a: App) -> App {
    App {
        editor: EditorState { open: false, is_dirty: false, external_change_detected: false },
        mode: AppMode::Normal,
        document: DocumentState { scroll_offset: 0, ..a.document },
        ..a
    }
}

/// `b` is `a` with only its status changed, to `msg`.
pub open spec fn status_only(a: App, b: App, msg: Seq<char>) -> bool {
    b == (App { status_message: b.status_message, ..a }) && b.status_message@ == msg
}

/// `b` is `a` with the live preview turned over: on asks for a render and
/// says so, off just says so.
pub open spec fn preview_toggled(a: App, b: App, r: Action) -> bool {
    &&& b == (App { live_preview: LivePreviewState { enabled: !a.live_preview.enabled, ..a.live_preview }, status_message: b.status_message, ..a })
    &&& b.live_preview.enabled ==> r is RefreshLivePreview && b.status_message@ == "Live preview ON"@
    &&& !b.live_preview.enabled ==> r is Nothing && b.status_message@ == "Live preview OFF"@
}

/// A command that only the editor runs: it is handed out in the editor
/// (nothing else changes); outside it only the status says so.
pub open spec fn editor_only(a: App, b: App, r: Action, done: Action) -> bool {
    if a.editor.open {
        r == done && b == a
    } else {
        r is Nothing && status_only(a, b, "Not in editor"@)
    }
}

/// What running the command `cmd` does: `q`/`quit` quits (or closes a
/// clean editor, refusing a dirty one), `q!` quits or closes the editor
/// dropping its changes, `w`/`write`, `wq`/`x` save (and close), `e`/`edit`
/// reloads the editor's text, `preview` turns the live preview over;
/// outside the editor the editor commands only say so, and any other
/// command is reported as unknown.
pub open spec fn command_post(a: App, b: App, cmd: Seq<char>, r: Action) -> bool {
    if cmd == "q"@ || cmd == "quit"@ {
        if a.editor.open {
            if a.editor.is_dirty {
                r is Nothing && status_only(a, b, "Unsaved changes! :q! to force quit"@)
            } else {
                r is CloseEditor && b == editor_closed(a)
            }
        } else {
            r is Nothing && b == (App { should_quit: true, ..a })
        }
    } else if cmd == "q!"@ {
        if a.editor.open {
            r is CloseEditor && b == editor_closed(a)
        } else {
            r is Nothing && b == (App { should_quit: true, ..a })
        }
    } else if cmd == "w"@ || cmd == "write"@ {
        editor_only(a, b, r, Action::SaveEditor { then_exit: false })
    } else if cmd == "wq"@ || cmd == "x"@ {
        editor_only(a, b, r, Action::SaveEditor { then_exit: true })
    } else if cmd == "e"@ || cmd == "edit"@ {
        editor_only(a, b, r, Action::ReloadEditor)
    } else if cmd == "preview"@ {
        preview_toggled(a, b, r)
    } else {
        r is Nothing && status_only(a, b, "Unknown command: :"@ + cmd)
    }
}

/// In Normal mode outside the editor, `k` moves up one step: with the
/// preview focused the document scrolls up one line (staying at the top
/// when already there) and nothing else changes; with the file list
/// focused the tree's selection moves up one entry. It acts exactly as
/// the Up arrow does.
pub proof fn law_k_moves_up(a: App, b: App, ctrl: bool, now: u64, r: Action, b2: App, r2: Action)
    requires
        viewer_key_post(a, b, Key { code: KeyCode::Char('k'), ctrl }, now, r),
        viewer_key_post(a, b2, Key { code: KeyCode::Up, ctrl }, now, r2),
    ensures
        a.focus == Focus::Preview ==> r is Nothing && b.document.scroll_offset == (if a.document.scroll_offset > 0 {
            a.document.scroll_offset - 1
        } else {
            0
        }) && b == (App { document: b.document, pending_key: None, ..a }) && b.document == (DocumentState {
            scroll_offset: b.document.scroll_offset,
            ..a.document
        }),
        a.focus == Focus::FileList ==> r == Action::Tree(TreeMove::Up, 1) && b == (App { pending_key: None, ..a }),
        b == b2 && r == r2,
{
}

/// In Normal mode outside the editor, `j` moves down one step: with the
/// file list focused the tree's selection moves down one entry; with the
/// preview focused the document scrolls down one line while it is not yet
/// at its end, and nothing else changes. It acts exactly as the Down arrow
/// does.
pub proof fn law_j_moves_down(a: App, b: App, ctrl: bool, now: u64, r: Action, b2: App, r2: Action)
    requires
        viewer_key_post(a, b, Key { code: KeyCode::Char('j'), ctrl }, now, r),
        viewer_key_post(a, b2, Key { code: KeyCode::Down, ctrl }, now, r2),
    ensures
        a.focus == Focus::Preview ==> r is Nothing && b == (App { document: b.document, pending_key: None, ..a })
            && b.document == (DocumentState { scroll_offset: b.document.scroll_offset, ..a.document }),
        a.focus == Focus::Preview && a.document.rendered_lines@.len() > 0 && a.document.scroll_offset
            < crate::document::max_scroll_spec(a.document) ==> b.document.scroll_offset == a.document.scroll_offset + 1,
        a.focus == Focus::FileList ==> r == Action::Tree(TreeMove::Down, 1) && b == (App { pending_key: None, ..a }),
        b == b2 && r == r2,
{
    let d = a.document;
    if a.focus == Focus::Preview && d.rendered_lines@.len() > 0 && d.scroll_offset < crate::document::max_scroll_spec(d) {
        assert(d.rendered_lines@.len() == d.rendered_lines.len());
        assert(crate::document::sat_add_usize(d.scroll_offset, 1) == d.scroll_offset + 1);
        assert(down_offset(d) == d.scroll_offset + 1);
    }
}

/// Starting to create a file or a directory with a directory selected in
/// the tree puts the new entry inside that directory; with a file
/// selected, beside the file (in its parent directory); with nothing
/// selected, in the root.
pub proof fn law_new_entry_goes_in_selected_dir(
    a: App,
    b: App,
    kind: FileOpKind,
    selected: Option<(String, bool)>,
    now: u64,
)
    requires
        file_op_started(a, b, kind, selected, now),
        kind == FileOpKind::CreateFile || kind == FileOpKind::CreateDir,
    ensures
        ({
            let dir = match b.overlay {
                Overlay::FileOp(FileOp::CreateFile { parent_dir }) => parent_dir@,
                Overlay::FileOp(FileOp::CreateDir { parent_dir }) => parent_dir@,
                _ => Seq::empty(),
            };
            &&& (selected matches Some((p, true)) ==> dir == p@)
            &&& (selected matches Some((p, false)) ==> dir == match path_parent(p@) {
                Some(q) => q,
                None => a.root_path@,
            })
            &&& (selected is None ==> dir == a.root_path@)
        }),
        kind == FileOpKind::CreateFile ==> b.overlay matches Overlay::FileOp(FileOp::CreateFile { .. }),
        kind == FileOpKind::CreateDir ==> b.overlay matches Overlay::FileOp(FileOp::CreateDir { .. }),
{
}

/// In the editor, `:wq` and `:x` save and then close the editor, while
/// `:w` and `:write` save and keep it open; the two differ only in that.
/// None of them changes anything else before the save is carried out.
pub proof fn law_write_commands(a: App, b: App, cmd: Seq<char>, r: Action)
    requires
        command_post(a, b, cmd, r),
        a.editor.open,
    ensures
        (cmd == seq!['w', 'q'] || cmd == seq!['x']) ==> r == (Action::SaveEditor { then_exit: true }) && b == a,
        (cmd == seq!['w'] || cmd == seq!['w', 'r', 'i', 't', 'e']) ==> r == (Action::SaveEditor { then_exit: false })
            && b == a,
{
    reveal_strlit("q");
    reveal_strlit("quit");
    reveal_strlit("q!");
    reveal_strlit("w");
    reveal_strlit("write");
    reveal_strlit("wq");
    reveal_strlit("x");
    reveal_strlit("e");
    reveal_strlit("edit");
    reveal_strlit("preview");
    assert("q"@ =~= seq!['q']);
    assert("quit"@ =~= seq!['q', 'u', 'i', 't']);
    assert("q!"@ =~= seq!['q', '!']);
    assert("w"@ =~= seq!['w']);
    assert("write"@ =~= seq!['w', 'r', 'i', 't', 'e']);
    assert("wq"@ =~= seq!['w', 'q']);
    assert("x"@ =~= seq!['x']);
    assert("e"@ =~= seq!['e']);
    assert("edit"@ =~= seq!['e', 'd', 'i', 't']);
    assert("preview"@ =~= seq!['p', 'r', 'e', 'v', 'i', 'e', 'w']);
    if cmd == seq!['w', 'q'] || cmd == seq!['x'] || cmd == seq!['w'] || cmd == seq!['w', 'r', 'i', 't', 'e'] {
        assert(cmd[0] == 'w' || cmd[0] == 'x');
        assert(cmd != "q"@ && cmd != "quit"@ && cmd != "q!"@) by {
            assert("q"@[0] == 'q' && "quit"@[0] == 'q' && "q!"@[0] == 'q');
        }
        if cmd == seq!['w', 'q'] || cmd == seq!['x'] {
            assert(cmd != "w"@ && cmd != "write"@) by {
                if cmd == seq!['w', 'q'] {
                    assert(cmd.len() == 2 && "w"@.len() == 1 && "write"@.len() == 5);
                } else {
                    assert(cmd[0] == 'x' && "w"@[0] == 'w' && "write"@[0] == 'w');
                }
            }
        }
    }
}

/// Typing into or erasing from the search query while the file list has
/// the focus refilters the tree for the new query: an empty query shows
/// every entry (no filter); any other query the entries whose name
/// contains it, ignoring case.
pub proof fn law_search_edit_refilters(a: App, b: App, key: Key, r: Action)
    requires
        search_key_post(a, b, key, r),
        a.focus == Focus::FileList,
        key.code is Char || key.code == KeyCode::Backspace,
    ensures
        b.search.query@ == match key.code {
            KeyCode::Char(c) => a.search.query@.push(c),
            _ => if a.search.query@.len() > 0 { a.search.query@.drop_last() } else { a.search.query@ },
        },
        b.search.query@.len() == 0 ==> b.filtered is None,
        b.search.query@.len() > 0 ==> (b.filtered matches Some(v) && crate::assoc::assoc(crate::tree::pair_views(v@))
            == crate::tree::search_map(a.paths.view(), b.search.query@)),
{
}

/// What confirming the open file-operation dialog does: the dialog closes
/// and, unless the input is empty (which only a deletion allows), the
/// operation is handed out with its input.
pub open spec fn confirm_post(a: App, b: App, r: Action) -> bool {
    &&& (a.overlay matches Overlay::FileOp(op) ==> {
        &&& b == (App { overlay: Overlay::Off, file_op_input: b.file_op_input, ..a })
        &&& b.file_op_input@.len() == 0
        &&& if a.file_op_input@.len() == 0 && !(op is Delete) {
            r is Nothing
        } else {
            r == Action::ConfirmFileOp(op, a.file_op_input)
        }
    })
    &&& (!(a.overlay is FileOp) ==> r is Nothing && b == a)
}

/// What a key does in Normal mode inside the editor: Space `p` and Space
/// `s` (composed within the timeout) toggle the live preview and its split,
/// `i` inserts, `:` starts a command, Esc leaves a clean editor, and other
/// keys go to the editor.
pub open spec fn editor_normal_key_post(a: App, b: App, key: Key, now: u64, r: Action) -> bool {
    &&& (b.pending_key == if pending_live(a.pending_key, now) == Some(' ') && (is_char(key, 'p') || is_char(key, 's')) {
        None
    } else if is_char(key, ' ') {
        Some((' ', now))
    } else {
        None
    })
    &&& (b.document.rendered_lines == a.document.rendered_lines)
    &&& (b.focus == a.focus)
    &&& (b.overlay == a.overlay)
    &&& (pending_live(a.pending_key, now) == Some(' ') && is_char(key, 'p') ==> b.live_preview.enabled
        == !a.live_preview.enabled && (b.live_preview.enabled ==> r is RefreshLivePreview))
    &&& (pending_live(a.pending_key, now) == Some(' ') && is_char(key, 's') ==> r is Nothing
        && b.live_preview.orientation != a.live_preview.orientation)
    &&& (!(pending_live(a.pending_key, now) == Some(' ') && (is_char(key, 'p') || is_char(key, 's'))) ==> match key.code {
        KeyCode::Char('i') => r is Nothing && b.mode == AppMode::Insert && b.status_message@
            == "-- INSERT --"@,
        KeyCode::Char(':') => r is Nothing && b.mode == AppMode::Command && b.command_buffer@.len()
            == 0,
        KeyCode::Esc => if a.editor.is_dirty {
            r is Nothing && b.editor == a.editor && b.status_message@
                == "Unsaved changes! :w to save, :q! to discard"@
        } else {
            r is CloseEditor && !b.editor.open && b.mode == AppMode::Normal
        },
        KeyCode::Char(' ') => r is Nothing && b.mode == a.mode,
        _ => r == Action::EditorInput(key) && b.mode == a.mode && b.editor
            == a.editor,
    })
}

/// What a key does in the file-operation dialog.
pub open spec fn file_op_key_post(a: App, b: App, key: Key, r: Action) -> bool {
    &&& (key.code == KeyCode::Esc ==> r is Nothing && b.overlay is Off && b.file_op_input@.len() == 0)
    &&& (a.overlay is FileOp && key.code == KeyCode::Enter ==> b.overlay is Off && confirm_post(a, b, r))
    &&& ((a.overlay matches Overlay::FileOp(op) && !(op is Delete)) ==> match key.code {
        KeyCode::Char(c) => r is Nothing && b == (App { file_op_input: b.file_op_input, ..a })
            && b.file_op_input@ == a.file_op_input@.push(c),
        KeyCode::Backspace => r is Nothing && b == (App { file_op_input: b.file_op_input, ..a })
            && b.file_op_input@ == (if a.file_op_input@.len() > 0 {
            a.file_op_input@.drop_last()
        } else {
            a.file_op_input@
        }),
        _ => true,
    })
    &&& ((a.overlay matches Overlay::FileOp(op) && op is Delete) && key.code != KeyCode::Esc && key.code
        != KeyCode::Enter ==> r is Nothing && b == a)
    &&& ((a.overlay matches Overlay::FileOp(op) && !(op is Delete)) && key.code != KeyCode::Esc && key.code
        != KeyCode::Enter && key.code != KeyCode::Backspace && !(key.code is Char) ==> r is Nothing && b == a)
}

/// What a key does in the link picker.
pub open spec fn link_picker_key_post(a: App, b: App, key: Key, r: Action) -> bool {
    &&& (b == (App {
        link_picker: b.link_picker,
        overlay: b.overlay,
        status_message: b.status_message,
        ..a
    }))
    &&& (match key.code {
        KeyCode::Char(c) => b.link_picker.search_query@ == a.link_picker.search_query@.push(c)
            && b.link_picker.selected == 0 && r is Nothing,
        KeyCode::Backspace => b.link_picker.search_query@ == (if a.link_picker.search_query@.len() > 0 {
            a.link_picker.search_query@.drop_last()
        } else {
            a.link_picker.search_query@
        }) && b.link_picker.selected == 0 && r is Nothing,
        KeyCode::Esc => r is Nothing && if a.link_picker.search_query@.len() == 0 {
            b.overlay is Off
        } else {
            b.link_picker.search_query@.len() == 0 && b.link_picker.selected == 0
        },
        KeyCode::Down => r is Nothing && b.link_picker.selected == wrap_next(
            a.link_picker.selected,
            b.link_picker.cached_indices@.len() as usize,
        ),
        KeyCode::Up => r is Nothing && b.link_picker.selected == wrap_prev(
            a.link_picker.selected,
            b.link_picker.cached_indices@.len() as usize,
        ),
        KeyCode::Enter => {
            let idx = b.link_picker.cached_indices@;
            let sel = a.link_picker.selected;
            if sel < idx.len() && idx[sel as int] < a.document.links@.len() {
                &&& (r matches Action::OpenLink(u) && u@ == a.document.links@[idx[sel as int] as int].url@)
                &&& b.overlay is Off
                &&& b.link_picker.search_query@.len() == 0
                &&& b.status_message@ == "Opening: "@ + a.document.links@[idx[sel as int] as int].url@
            } else {
                r is Nothing
            }
        },
        _ => r is Nothing,
    })
}

/// What a key does in the file finder: arrows move the selection
/// (wrapping), Enter opens the selected file, typing or erasing refines the
/// query and recomputes the list, Esc clears a query (listing every file
/// again) or closes the finder.
pub open spec fn file_finder_key_post(a: App, b: App, key: Key, r: Action) -> bool {
    let m = a.paths.view();
    &&& (b == (App { file_finder: b.file_finder, overlay: b.overlay, ..a }))
    &&& (match key.code {
        KeyCode::Down => r is Nothing && b.overlay == a.overlay && b.file_finder == (FileFinderState {
            selected: wrap_next(a.file_finder.selected, a.file_finder.results@.len() as usize),
            ..a.file_finder
        }),
        KeyCode::Up => r is Nothing && b.overlay == a.overlay && b.file_finder == (FileFinderState {
            selected: wrap_prev(a.file_finder.selected, a.file_finder.results@.len() as usize),
            ..a.file_finder
        }),
        KeyCode::Enter => b.file_finder == a.file_finder && if a.file_finder.selected < a.file_finder.results@.len() {
            &&& (r matches Action::OpenFile(p) && p@ == a.file_finder.results@[a.file_finder.selected as int].1@)
            &&& b.overlay is Off
        } else {
            r is Nothing && b.overlay == a.overlay
        },
        KeyCode::Char(c) => {
            &&& r is Nothing
            &&& b.overlay == a.overlay
            &&& b.file_finder.query@ == a.file_finder.query@.push(c)
            &&& b.file_finder.selected == 0
            &&& crate::tree::finder_list(m, b.file_finder.query@, b.file_finder.results@)
        },
        KeyCode::Backspace => {
            &&& r is Nothing
            &&& b.overlay == a.overlay
            &&& b.file_finder.query@ == (if a.file_finder.query@.len() > 0 {
                a.file_finder.query@.drop_last()
            } else {
                a.file_finder.query@
            })
            &&& b.file_finder.selected == 0
            &&& crate::tree::finder_list(m, b.file_finder.query@, b.file_finder.results@)
        },
        KeyCode::Esc => r is Nothing && if a.file_finder.query@.len() == 0 {
            b.overlay is Off && b.file_finder == a.file_finder
        } else {
            &&& b.overlay == a.overlay
            &&& b.file_finder.query@.len() == 0
            &&& b.file_finder.selected == 0
            &&& crate::tree::finder_list(m, Seq::empty(), b.file_finder.results@)
        },
        _ => r is Nothing && b == a,
    })
}

/// What a key does in Insert mode.
pub open spec fn insert_key_post(a: App, b: App, key: Key, r: Action) -> bool {
    &&& (key.code == KeyCode::Esc ==> r is Nothing && b == (App {
        mode: AppMode::Normal,
        status_message: b.status_message,
        ..a
    }) && b.status_message@.len() == 0)
    &&& (key.code != KeyCode::Esc ==> r == Action::EditorInput(key) && b == a)
}

/// What a key does in Command mode.
pub open spec fn command_key_post(a: App, b: App, key: Key, r: Action) -> bool {
    &&& (b.focus == a.focus)
    &&& (b.overlay == a.overlay)
    &&& (b.paths == a.paths)
    &&& (match key.code {
        KeyCode::Esc => {
            &&& r is Nothing
            &&& b == (App {
                mode: AppMode::Normal,
                command_buffer: b.command_buffer,
                status_message: b.status_message,
                ..a
            })
            &&& b.command_buffer@.len() == 0
            &&& b.status_message@.len() == 0
        },
        KeyCode::Enter => b.command_buffer@.len() == 0 && command_post(
            (App { mode: AppMode::Normal, command_buffer: b.command_buffer, ..a }),
            b,
            trim(a.command_buffer@),
            r,
        ),
        KeyCode::Char(c) => r is Nothing && b == (App { command_buffer: b.command_buffer, ..a })
            && b.command_buffer@ == a.command_buffer@.push(c),
        KeyCode::Backspace => r is Nothing && b.command_buffer@ == (if a.command_buffer@.len() > 0 {
            a.command_buffer@.drop_last()
        } else {
            a.command_buffer@
        }) && (b.command_buffer@.len() == 0 ==> b.mode == AppMode::Normal
            && b.status_message@.len() == 0) && (b.command_buffer@.len() > 0 ==> b.mode
            == a.mode),
        _ => r is Nothing && b == a,
    })
}

/// What a key does in Search mode.
pub open spec fn search_key_post(a: App, b: App, key: Key, r: Action) -> bool {
    &&& (r is Nothing)
    &&& (match key.code {
        KeyCode::Esc => {
            &&& b == (App {
                search: b.search,
                filtered: None,
                status_message: b.status_message,
                mode: AppMode::Normal,
                ..a
            })
            &&& b.search == (SearchState {
                active: false,
                query: b.search.query,
                matches: b.search.matches,
                current: 0,
            })
            &&& b.search.query@.len() == 0
            &&& b.search.matches@.len() == 0
            &&& b.status_message@.len() == 0
        },
        KeyCode::Enter => if a.focus == Focus::Preview {
            &&& b == (App {
                search: b.search,
                document: b.document,
                status_message: b.status_message,
                mode: AppMode::Normal,
                ..a
            })
            &&& crate::document::search_post(
                (SearchState { active: false, ..a.search }),
                a.document,
                a.status_message@,
                b.search,
                b.document,
                b.status_message@,
            )
        } else {
            b == (App {
                search: (SearchState { active: false, ..a.search }),
                mode: AppMode::Normal,
                ..a
            })
        },
        KeyCode::Char(_) | KeyCode::Backspace => {
            let q = match key.code {
                KeyCode::Char(c) => a.search.query@.push(c),
                _ => if a.search.query@.len() > 0 {
                    a.search.query@.drop_last()
                } else {
                    a.search.query@
                },
            };
            &&& b.search.query@ == q
            &&& b.search == (SearchState { query: b.search.query, ..a.search })
            &&& if a.focus == Focus::FileList {
                &&& b == (App { search: b.search, filtered: b.filtered, ..a })
                &&& file_filter(a.paths.view(), q, b.filtered)
            } else {
                b == (App { search: b.search, ..a })
            }
        },
        _ => b == a,
    })
}

/// The directory a new entry goes in: the selected directory, the selected
/// file's directory (the root when it has none), or the root.
pub open spec fn new_entry_dir(selected: Option<(Seq<char>, bool)>, root: Seq<char>) -> Seq<char> {
    match selected {
        Some((p, true)) => p,
        Some((p, false)) => match path_parent(p) {
            Some(q) => q,
            None => root,
        },
        None => root,
    }
}

/// The indices of the links whose text or url, lower-cased, contains the
/// lower-cased query; all of them for an empty query.
pub open spec fn link_filter(links: Seq<LinkInfo>, query: Seq<char>) -> Seq<usize>
    decreases links.len(),
{
    if links.len() == 0 {
        Seq::empty()
    } else {
        let prev = link_filter(links.drop_last(), query);
        let l = links.last();
        if query.len() == 0 || contains_seq(str_lowercase(l.display_text@), str_lowercase(query)) || contains_seq(
            str_lowercase(l.url@),
            str_lowercase(query),
        ) {
            prev.push((links.len() - 1) as usize)
        } else {
            prev
        }
    }
}

/// The next position in a list of `len` entries, wrapping to the first.
pub open spec fn wrap_next(sel: usize, len: usize) -> usize {
    if len > 0 {
        ((sel + 1) % (len as int)) as usize
    } else {
        sel
    }
}

/// The previous position in a list of `len` entries, wrapping to the last.
pub open spec fn wrap_prev(sel: usize, len: usize) -> usize {
    if len == 0 {
        sel
    } else if sel == 0 {
        (len - 1) as usize
    } else {
        (sel - 1) as usize
    }
}

/// Next position, wrapping.
pub fn next_wrapping(sel: usize, len: usize) -> (r: usize)
    ensures
        r == wrap_next(sel, len),
{
    if len > 0 {
        if sel < usize::MAX {
            (sel + 1) % len
        } else {
            assert(((sel as int) + 1) % (len as int) == (((sel as int) % (len as int)) + 1) % (len as int)) by (nonlinear_arith)
                requires
                    len > 0,
            ;
            (sel % len + 1) % len
        }
    } else {
        sel
    }
}

/// Previous position, wrapping.
pub fn prev_wrapping(sel: usize, len: usize) -> (r: usize)
    ensures
        r == wrap_prev(sel, len),
{
    if len == 0 {
        sel
    } else if sel == 0 {
        len - 1
    } else {
        sel - 1
    }
}

/// In a list that wraps around, going to the next entry and back to the
/// previous one returns to the same entry.
pub proof fn law_wrap_next_prev(sel: usize, len: usize)
    requires
        sel < len,
    ensures
        wrap_prev(wrap_next(sel, len), len) == sel,
{
    if sel + 1 < len {
        assert((sel + 1) % (len as int) == sel + 1) by (nonlinear_arith)
            requires
                sel + 1 < len,
        ;
    } else {
        assert((sel + 1) % (len as int) == 0) by (nonlinear_arith)
            requires
                sel + 1 == len,
                len > 0,
        ;
    }
}

/// Whether `l`'s text or url, lower-cased, contains `ql`.
fn link_matches(l: &LinkInfo, ql: &Vec<char>) -> (r: bool)
    ensures
        r == (contains_seq(str_lowercase(l.display_text@), ql@) || contains_seq(str_lowercase(l.url@), ql@)),
{
    let t = lowercase_str(l.display_text.as_str());
    let tv = chars_of(t.as_str());
    if contains_vec(&tv, ql) {
        return true;
    }
    let u = lowercase_str(l.url.as_str());
    let uv = chars_of(u.as_str());
    contains_vec(&uv, ql)
}

/// The indices of the links matching a query.
pub fn filter_links(links: &Vec<LinkInfo>, query: &str) -> (r: Vec<usize>)
    ensures
        r@ == link_filter(links@, query@),
{
    let ql = lowercase_str(query);
    let qv = chars_of(ql.as_str());
    let empty = query.is_empty();
    let mut out: Vec<usize> = Vec::new();
    let mut i: usize = 0;
    while i < links.len()
        invariant
            i <= links@.len(),
            qv@ == str_lowercase(query@),
            empty == (query@.len() == 0),
            out@ == link_filter(links@.take(i as int), query@),
        decreases links.len() - i,
    {
        assert(links@.take(i + 1).drop_last() =~= links@.take(i as int));
        assert(links@.take(i + 1).last() == links@[i as int]);
        if empty || link_matches(&links[i], &qv) {
            out.push(i);
        }
        i = i + 1;
    }
    assert(links@.take(links.len() as int) =~= links@);
    out
}

/// Whether two string values have the same text.
fn same_text(a: &String, b: &String) -> (r: bool)
    ensures
        r == (a@ == b@),
{
    str_eq(a.as_str(), b.as_str())
}

/// A copy of a list of indices.
fn copy_indices(v: &Vec<usize>) -> (r: Vec<usize>)
    ensures
        r@ == v@,
{
    let mut r: Vec<usize> = Vec::new();
    let mut i: usize = 0;
    while i < v.len()
        invariant
            i <= v.len(),
            r@ == v@.take(i as int),
        decreases v.len() - i,
    {
        r.push(v[i]);
        i = i + 1;
        assert(r@ =~= v@.take(i as int));
    }
    assert(v@.take(v.len() as int) =~= v@);
    r
}

impl App {
    /// The link picker's list: indices of the links matching its query.
    /// The list is kept and recomputed only when the query or the number of
    /// links changed since it was computed.
    pub fn filtered_link_indices(&mut self) -> (r: Vec<usize>)
        ensures
            *final(self) == (App { link_picker: final(self).link_picker, ..*old(self) }),
            final(self).link_picker.selected == old(self).link_picker.selected,
            final(self).link_picker.search_query == old(self).link_picker.search_query,
            final(self).link_picker.cached_query@ == old(self).link_picker.search_query@,
            final(self).link_picker.cached_count == old(self).document.links@.len(),
            r@ == final(self).link_picker.cached_indices@,
            (old(self).link_picker.search_query@ != old(self).link_picker.cached_query@
                || old(self).document.links@.len() != old(self).link_picker.cached_count) ==> r@ == link_filter(
                old(self).document.links@,
                old(self).link_picker.search_query@,
            ),
            (old(self).link_picker.search_query@ == old(self).link_picker.cached_query@
                && old(self).document.links@.len() == old(self).link_picker.cached_count) ==> r@
                == old(self).link_picker.cached_indices@,
    {
        if !same_text(&self.link_picker.search_query, &self.link_picker.cached_query)
            || self.document.links.len() != self.link_picker.cached_count {
            self.link_picker.cached_query = copy_string(&self.link_picker.search_query);
            self.link_picker.cached_count = self.document.links.len();
            self.link_picker.cached_indices = filter_links(&self.document.links, self.link_picker.search_query.as_str());
        }
        copy_indices(&self.link_picker.cached_indices)
    }

    /// Key handling in the link picker: arrows move (wrapping), Enter opens
    /// the selected link, typing filters, Esc clears the filter or closes.
    #[verifier::rlimit(40)]
    #[verifier::spinoff_prover]
    pub fn handle_link_picker_key(&mut self, key: Key) -> (r: Action)
        ensures
            link_picker_key_post(*old(self), *final(self), key, r),
    {
        match key.code {
            KeyCode::Down => {
                let len = self.filtered_link_indices().len();
                self.link_picker.selected = next_wrapping(self.link_picker.selected, len);
                Action::Nothing
            },
            KeyCode::Up => {
                let len = self.filtered_link_indices().len();
                self.link_picker.selected = prev_wrapping(self.link_picker.selected, len);
                Action::Nothing
            },
            KeyCode::Enter => {
                let sel = self.link_picker.selected;
                let idx = self.filtered_link_indices();
                if sel < idx.len() && idx[sel] < self.document.links.len() {
                    let url = copy_string(&self.document.links[idx[sel]].url);
                    self.overlay = Overlay::Off;
                    self.link_picker.search_query = String::new();
                    let mut msg = lit("Opening: ");
                    push_str(&mut msg, url.as_str());
                    self.status_message = msg;
                    Action::OpenLink(url)
                } else {
                    Action::Nothing
                }
            },
            KeyCode::Backspace => {
                let mut q = chars_of(self.link_picker.search_query.as_str());
                if q.len() > 0 {
                    q.pop();
                }
                self.link_picker.search_query = crate::text::string_from_chars(&q);
                self.link_picker.selected = 0;
                Action::Nothing
            },
            KeyCode::Esc => {
                if self.link_picker.search_query.as_str().is_empty() {
                    self.overlay = Overlay::Off;
                } else {
                    self.link_picker.search_query = String::new();
                    self.link_picker.selected = 0;
                }
                Action::Nothing
            },
            KeyCode::Char(c) => {
                push_char(&mut self.link_picker.search_query, c);
                self.link_picker.selected = 0;
                Action::Nothing
            },
            _ => Action::Nothing,
        }
    }

    /// Opens the file finder with every file, sorted (not with a document
    /// read from standard input).
    pub fn open_file_finder(&mut self)
        requires
            old(self).paths.wf(),
        ensures
            finder_opened(*old(self), *final(self)),
    {
        if self.stdin_mode {
            self.status_message = lit("Not available (stdin)");
            return;
        }
        self.file_finder.query = String::new();
        self.file_finder.selected = 0;
        self.file_finder.results = self.paths.files_sorted();
        self.overlay = Overlay::FileFinder;
    }

    /// Recomputes the finder's list for its query.
    pub fn update_file_finder_results(&mut self)
        requires
            old(self).paths.wf(),
        ensures
            *final(self) == (App { file_finder: final(self).file_finder, ..*old(self) }),
            final(self).file_finder.query == old(self).file_finder.query,
            final(self).file_finder.selected == old(self).file_finder.selected,
            crate::tree::finder_list(old(self).paths.view(), old(self).file_finder.query@, final(self).file_finder.results@),
    {
        self.file_finder.results = self.paths.finder_results(self.file_finder.query.as_str());
    }

    /// Key handling in the file finder: arrows move (wrapping), Enter opens
    /// the selected file, typing refines the list, Esc clears the query or
    /// closes.
    pub fn handle_file_finder_key(&mut self, key: Key) -> (r: Action)
        requires
            old(self).paths.wf(),
        ensures
            file_finder_key_post(*old(self), *final(self), key, r),
    {
        match key.code {
            KeyCode::Down => {
                self.file_finder.selected = next_wrapping(self.file_finder.selected, self.file_finder.results.len());
                Action::Nothing
            },
            KeyCode::Up => {
                self.file_finder.selected = prev_wrapping(self.file_finder.selected, self.file_finder.results.len());
                Action::Nothing
            },
            KeyCode::Enter => {
                if self.file_finder.selected < self.file_finder.results.len() {
                    let p = copy_string(&self.file_finder.results[self.file_finder.selected].1);
                    self.overlay = Overlay::Off;
                    Action::OpenFile(p)
                } else {
                    Action::Nothing
                }
            },
            KeyCode::Backspace => {
                let mut q = chars_of(self.file_finder.query.as_str());
                if q.len() > 0 {
                    q.pop();
                }
                self.file_finder.query = crate::text::string_from_chars(&q);
                self.update_file_finder_results();
                self.file_finder.selected = 0;
                Action::Nothing
            },
            KeyCode::Esc => {
                if self.file_finder.query.as_str().is_empty() {
                    self.overlay = Overlay::Off;
                } else {
                    self.file_finder.query = String::new();
                    self.update_file_finder_results();
                    self.file_finder.selected = 0;
                }
                Action::Nothing
            },
            KeyCode::Char(c) => {
                push_char(&mut self.file_finder.query, c);
                self.update_file_finder_results();
                self.file_finder.selected = 0;
                Action::Nothing
            },
            _ => Action::Nothing,
        }
    }

    /// Rebuilds the file search's results: none for an empty query,
    /// otherwise the files whose name matches, sorted by id.
    pub fn update_file_search_filter(&mut self)
        requires
            old(self).paths.wf(),
        ensures
            *final(self) == (App { filtered: final(self).filtered, ..*old(self) }),
            file_filter(old(self).paths.view(), old(self).search.query@, final(self).filtered),
    {
        if self.search.query.as_str().is_empty() {
            self.filtered = None;
        } else {
            self.filtered = Some(self.paths.file_search_results(self.search.query.as_str()));
        }
    }

    /// Ends any search: no query, no matches, no filter, no status.
    pub fn clear_search(&mut self)
        ensures
            *final(self) == (App {
                search: final(self).search,
                filtered: None,
                status_message: final(self).status_message,
                ..*old(self)
            }),
            !final(self).search.active,
            final(self).search.query@.len() == 0,
            final(self).search.matches@.len() == 0,
            final(self).search.current == 0,
            final(self).status_message@.len() == 0,
    {
        self.search.active = false;
        self.search.query = String::new();
        self.search.matches = Vec::new();
        self.search.current = 0;
        self.filtered = None;
        self.status_message = String::new();
    }

    /// Key handling while typing a search: Esc cancels it, Enter runs it on
    /// the document (when the preview has focus), typing edits the query and
    /// refilters the file list (when it has focus).
    pub fn handle_search_key(&mut self, key: Key) -> (r: Action)
        requires
            old(self).paths.wf(),
        ensures
            search_key_post(*old(self), *final(self), key, r),
    {
        match key.code {
            KeyCode::Esc => {
                self.clear_search();
                self.mode = AppMode::Normal;
            },
            KeyCode::Enter => {
                self.search.active = false;
                if self.focus == Focus::Preview {
                    perform_document_search(&mut self.search, &mut self.document, &mut self.status_message);
                }
                self.mode = AppMode::Normal;
            },
            KeyCode::Backspace => {
                let mut q = chars_of(self.search.query.as_str());
                if q.len() > 0 {
                    q.pop();
                }
                self.search.query = crate::text::string_from_chars(&q);
                if self.focus == Focus::FileList {
                    self.update_file_search_filter();
                }
            },
            KeyCode::Char(c) => {
                push_char(&mut self.search.query, c);
                if self.focus == Focus::FileList {
                    self.update_file_search_filter();
                }
            },
            _ => {},
        }
        Action::Nothing
    }

    /// Leaves the editor: back to Normal mode at the top of the preview.
    pub fn exit_editor(&mut self) -> (r: Action)
        ensures
            r is CloseEditor,
            *final(self) == (App {
                editor: EditorState { open: false, is_dirty: false, external_change_detected: false },
                mode: AppMode::Normal,
                document: DocumentState { scroll_offset: 0, ..old(self).document },
                ..*old(self)
            }),
    {
        self.editor.open = false;
        self.editor.is_dirty = false;
        self.editor.external_change_detected = false;
        self.mode = AppMode::Normal;
        self.document.scroll_offset = 0;
        Action::CloseEditor
    }

    /// Opens the editor on the current document, in Insert mode.
    pub fn enter_editor(&mut self) -> (r: Action)
        ensures
            *final(self) == (App {
                editor: final(self).editor,
                mode: final(self).mode,
                status_message: final(self).status_message,
                ..*old(self)
            }),
            old(self).document.current_file is None ==> r is Nothing && final(self).editor == old(self).editor
                && final(self).mode == old(self).mode && final(self).status_message@ == "No file open"@,
            old(self).document.current_file is Some ==> r is OpenEditor && final(self).editor == (EditorState {
                open: true,
                is_dirty: false,
                external_change_detected: false,
            }) && final(self).mode == AppMode::Insert && final(self).status_message@ == "-- INSERT --"@,
    {
        if self.document.current_file.is_none() {
            self.status_message = lit("No file open");
            return Action::Nothing;
        }
        self.editor.open = true;
        self.editor.is_dirty = false;
        self.editor.external_change_detected = false;
        self.mode = AppMode::Insert;
        self.status_message = lit("-- INSERT --");
        Action::OpenEditor
    }

    /// Records an edit reported by the editor: the text is now unsaved, and
    /// the live preview (if on) is due for a refresh.
    pub fn note_edit(&mut self, modified: bool, now: u64)
        ensures
            *final(self) == (App { editor: final(self).editor, live_preview: final(self).live_preview, ..*old(self) }),
            final(self).editor.is_dirty == (old(self).editor.is_dirty || modified),
            final(self).editor.open == old(self).editor.open,
            final(self).editor.external_change_detected == old(self).editor.external_change_detected,
            final(self).live_preview.debounce == if modified && old(self).live_preview.enabled {
                Some(now)
            } else {
                old(self).live_preview.debounce
            },
            final(self).live_preview.enabled == old(self).live_preview.enabled,
            final(self).live_preview.orientation == old(self).live_preview.orientation,
            final(self).live_preview.scroll_offset == old(self).live_preview.scroll_offset,
            final(self).live_preview.viewport_width == old(self).live_preview.viewport_width,
    {
        if modified {
            self.editor.is_dirty = true;
            if self.live_preview.enabled {
                self.live_preview.debounce = Some(now);
            }
        }
    }

    /// Turns the live preview on (asking for a render) or off.
    pub fn toggle_live_preview(&mut self) -> (r: Action)
        ensures
            preview_toggled(*old(self), *final(self), r),
    {
        self.live_preview.enabled = !self.live_preview.enabled;
        if self.live_preview.enabled {
            self.status_message = lit("Live preview ON");
            Action::RefreshLivePreview
        } else {
            self.status_message = lit("Live preview OFF");
            Action::Nothing
        }
    }

    /// Swaps the split between the editor and its preview.
    pub fn toggle_split_orientation(&mut self)
        ensures
            *final(self) == (App { live_preview: final(self).live_preview, status_message: final(self).status_message, ..*old(self) }),
            final(self).live_preview == (LivePreviewState {
                orientation: if old(self).live_preview.orientation == SplitOrientation::Horizontal {
                    SplitOrientation::Vertical
                } else {
                    SplitOrientation::Horizontal
                },
                ..old(self).live_preview
            }),
            final(self).status_message@ == if old(self).live_preview.orientation == SplitOrientation::Horizontal {
                "Preview split: vertical"@
            } else {
                "Preview split: horizontal"@
            },
    {
        match self.live_preview.orientation {
            SplitOrientation::Horizontal => {
                self.status_message = lit("Preview split: vertical");
                self.live_preview.orientation = SplitOrientation::Vertical;
            },
            SplitOrientation::Vertical => {
                self.status_message = lit("Preview split: horizontal");
                self.live_preview.orientation = SplitOrientation::Horizontal;
            },
        }
    }

    /// Switches focus between the file list and the preview while the
    /// file tree is shown; with the tree hidden the focus stays on the
    /// preview.
    pub fn toggle_focus(&mut self)
        ensures
            *final(self) == (App {
                focus: if !old(self).show_file_tree {
                    Focus::Preview
                } else if old(self).focus == Focus::FileList {
                    Focus::Preview
                } else {
                    Focus::FileList
                },
                ..*old(self)
            }),
    {
        if !self.show_file_tree {
            self.focus = Focus::Preview;
            return;
        }
        self.focus = match self.focus {
            Focus::FileList => Focus::Preview,
            Focus::Preview => Focus::FileList,
        };
    }

    /// Shows or hides the file tree, focusing the pane that remains.
    pub fn toggle_file_tree(&mut self)
        ensures
            *final(self) == (App {
                show_file_tree: !old(self).show_file_tree,
                focus: if !old(self).show_file_tree { Focus::FileList } else { Focus::Preview },
                ..*old(self)
            }),
    {
        self.show_file_tree = !self.show_file_tree;
        if self.show_file_tree {
            self.focus = Focus::FileList;
        } else {
            self.focus = Focus::Preview;
        }
    }

    /// Toggles the cursor's blink once its interval has passed, advancing
    /// by whole intervals so that it does not drift.
    pub fn tick_cursor(&mut self, now: u64)
        ensures
            sat_sub(now as nat, old(self).cursor_last_toggle as nat) >= CURSOR_BLINK_MS && old(self).cursor_last_toggle
                + CURSOR_BLINK_MS <= u64::MAX ==> *final(self) == (App {
                cursor_visible: !old(self).cursor_visible,
                cursor_last_toggle: (old(self).cursor_last_toggle + CURSOR_BLINK_MS) as u64,
                ..*old(self)
            }),
            !(sat_sub(now as nat, old(self).cursor_last_toggle as nat) >= CURSOR_BLINK_MS && old(self).cursor_last_toggle
                + CURSOR_BLINK_MS <= u64::MAX) ==> *final(self) == *old(self),
    {
        let elapsed = crate::watcher::sat_sub_u64(now, self.cursor_last_toggle);
        if elapsed >= CURSOR_BLINK_MS && self.cursor_last_toggle <= u64::MAX - CURSOR_BLINK_MS {
            self.cursor_visible = !self.cursor_visible;
            self.cursor_last_toggle = self.cursor_last_toggle + CURSOR_BLINK_MS;
        }
    }

    fn pending_char(&self, now: u64) -> (r: Option<char>)
        ensures
            r == pending_live(self.pending_key, now),
    {
        match self.pending_key {
            Some((c, t)) => if crate::watcher::sat_sub_u64(now, t) < DOUBLE_KEY_TIMEOUT_MS {
                Some(c)
            } else {
                None
            },
            None => None,
        }
    }

    /// Key handling in Normal mode with the editor open: Space then `p`
    /// toggles the live preview, Space then `s` its split; `i` inserts, `:`
    /// opens the command line, Esc leaves the editor (not with unsaved
    /// changes); any other key goes to the editor.
    pub fn handle_editor_normal_key(&mut self, key: Key, now: u64) -> (r: Action)
        ensures
            editor_normal_key_post(*old(self), *final(self), key, now, r),
    {
        let pc = self.pending_char(now);
        self.pending_key = None;
        if pc == Some(' ') {
            if key.code == KeyCode::Char('p') {
                return self.toggle_live_preview();
            }
            if key.code == KeyCode::Char('s') {
                self.toggle_split_orientation();
                return Action::Nothing;
            }
        }
        match key.code {
            KeyCode::Char('i') => {
                self.mode = AppMode::Insert;
                self.status_message = lit("-- INSERT --");
                Action::Nothing
            },
            KeyCode::Char(':') => {
                self.mode = AppMode::Command;
                self.command_buffer = String::new();
                Action::Nothing
            },
            KeyCode::Esc => {
                if self.editor.is_dirty {
                    self.status_message = lit("Unsaved changes! :w to save, :q! to discard");
                    Action::Nothing
                } else {
                    self.exit_editor()
                }
            },
            KeyCode::Char(' ') => {
                self.pending_key = Some((' ', now));
                Action::Nothing
            },
            _ => Action::EditorInput(key),
        }
    }

    /// Key handling in Insert mode: Esc returns to Normal mode (staying in
    /// the editor); every other key goes to the editor.
    pub fn handle_insert_key(&mut self, key: Key) -> (r: Action)
        ensures
            insert_key_post(*old(self), *final(self), key, r),
    {
        if key.code == KeyCode::Esc {
            self.mode = AppMode::Normal;
            self.status_message = String::new();
            return Action::Nothing;
        }
        Action::EditorInput(key)
    }

    /// Runs a command typed after `:`.
    pub fn execute_command(&mut self, cmd: &str) -> (r: Action)
        ensures
            command_post(*old(self), *final(self), cmd@, r),
    {
        proof {
            reveal_strlit("q");
            reveal_strlit("quit");
            reveal_strlit("q!");
            reveal_strlit("w");
            reveal_strlit("write");
            reveal_strlit("wq");
            reveal_strlit("x");
            reveal_strlit("e");
            reveal_strlit("edit");
            reveal_strlit("preview");
            assert("q"@ =~= seq!['q']);
            assert("quit"@ =~= seq!['q', 'u', 'i', 't']);
            assert("q!"@ =~= seq!['q', '!']);
            assert("w"@ =~= seq!['w']);
            assert("write"@ =~= seq!['w', 'r', 'i', 't', 'e']);
            assert("wq"@ =~= seq!['w', 'q']);
            assert("x"@ =~= seq!['x']);
            assert("e"@ =~= seq!['e']);
            assert("edit"@ =~= seq!['e', 'd', 'i', 't']);
            assert("preview"@ =~= seq!['p', 'r', 'e', 'v', 'i', 'e', 'w']);
            assert("q"@[0] != "w"@[0] && "q"@[0] != "x"@[0] && "q"@[0] != "e"@[0] && "w"@[0] != "x"@[0] && "w"@[0] != "e"@[0]
                && "x"@[0] != "e"@[0]);
            assert("q!"@[1] != "wq"@[1]);
            assert("quit"@[0] != "edit"@[0]);
        }
        let in_editor = self.editor.open;
        if crate::text::str_eq(cmd, "q") || crate::text::str_eq(cmd, "quit") {
            if in_editor {
                if self.editor.is_dirty {
                    self.status_message = lit("Unsaved changes! :q! to force quit");
                    Action::Nothing
                } else {
                    self.exit_editor()
                }
            } else {
                self.should_quit = true;
                Action::Nothing
            }
        } else if crate::text::str_eq(cmd, "q!") {
            if in_editor {
                self.exit_editor()
            } else {
                self.should_quit = true;
                Action::Nothing
            }
        } else if crate::text::str_eq(cmd, "w") || crate::text::str_eq(cmd, "write") {
            if in_editor {
                Action::SaveEditor { then_exit: false }
            } else {
                self.status_message = lit("Not in editor");
                Action::Nothing
            }
        } else if crate::text::str_eq(cmd, "wq") || crate::text::str_eq(cmd, "x") {
            if in_editor {
                Action::SaveEditor { then_exit: true }
            } else {
                self.status_message = lit("Not in editor");
                Action::Nothing
            }
        } else if crate::text::str_eq(cmd, "e") || crate::text::str_eq(cmd, "edit") {
            if in_editor {
                Action::ReloadEditor
            } else {
                self.status_message = lit("Not in editor");
                Action::Nothing
            }
        } else if crate::text::str_eq(cmd, "preview") {
            self.toggle_live_preview()
        } else {
            let mut msg = lit("Unknown command: :");
            push_str(&mut msg, cmd);
            self.status_message = msg;
            Action::Nothing
        }
    }

    /// Key handling on the command line: Esc or erasing the last character
    /// leaves it, Enter runs the trimmed command, typing edits it.
    pub fn handle_command_key(&mut self, key: Key) -> (r: Action)
        ensures
            command_key_post(*old(self), *final(self), key, r),
    {
        match key.code {
            KeyCode::Esc => {
                self.mode = AppMode::Normal;
                self.command_buffer = String::new();
                self.status_message = String::new();
                Action::Nothing
            },
            KeyCode::Enter => {
                let cmd = trim_string(&self.command_buffer);
                self.mode = AppMode::Normal;
                self.command_buffer = String::new();
                let r = self.execute_command(cmd.as_str());
                r
            },
            KeyCode::Backspace => {
                let mut q = chars_of(self.command_buffer.as_str());
                if q.len() > 0 {
                    q.pop();
                }
                self.command_buffer = crate::text::string_from_chars(&q);
                if self.command_buffer.as_str().is_empty() {
                    self.mode = AppMode::Normal;
                    self.status_message = String::new();
                }
                Action::Nothing
            },
            KeyCode::Char(c) => {
                push_char(&mut self.command_buffer, c);
                Action::Nothing
            },
            _ => Action::Nothing,
        }
    }

    /// Key handling in Normal mode: in the editor as in
    /// [`App::handle_editor_normal_key`], otherwise by the key map
    /// [`normal_cmd`], with `g g` (top), Space `e` (file tree) and `f f`
    /// (file finder) composed from a first key pressed less than half a
    /// second before.
    #[verifier::rlimit(60)]
    #[verifier::spinoff_prover]
    pub fn handle_normal_key(&mut self, key: Key, now: u64) -> (r: Action)
        requires
            old(self).paths.wf(),
        ensures
            !old(self).editor.open ==> viewer_key_post(*old(self), *final(self), key, now, r),
            old(self).editor.open ==> editor_normal_key_post(*old(self), *final(self), key, now, r),
    {
        if self.editor.open {
            return self.handle_editor_normal_key(key, now);
        }
        let pc = self.pending_char(now);
        self.pending_key = None;
        if pc == Some('g') && key.code == KeyCode::Char('g') {
            if self.focus == Focus::Preview {
                self.document.scroll_to_top();
                return Action::Nothing;
            }
            return Action::Tree(TreeMove::First, 1);
        }
        if pc == Some(' ') && key.code == KeyCode::Char('e') {
            self.toggle_file_tree();
            return Action::Nothing;
        }
        if pc == Some('f') && key.code == KeyCode::Char('f') {
            self.open_file_finder();
            return Action::Nothing;
        }
        let fl = self.focus == Focus::FileList;
        let pv = self.focus == Focus::Preview;
        match key.code {
            KeyCode::Char('a') => if fl { Action::StartFileOp(FileOpKind::CreateFile) } else { Action::Nothing },
            KeyCode::Char('A') => if fl { Action::StartFileOp(FileOpKind::CreateDir) } else { Action::Nothing },
            KeyCode::Char('d') => {
                if !key.ctrl && fl {
                    Action::StartFileOp(FileOpKind::Delete)
                } else {
                    if key.ctrl && pv {
                        self.document.scroll_half_page_down();
                    }
                    Action::Nothing
                }
            },
            KeyCode::Char('r') => if fl { Action::StartFileOp(FileOpKind::Rename) } else { Action::Nothing },
            KeyCode::Char('m') => if fl { Action::StartFileOp(FileOpKind::Move) } else { Action::Nothing },
            KeyCode::Char('j') | KeyCode::Down => {
                if fl {
                    Action::Tree(TreeMove::Down, 1)
                } else {
                    self.document.scroll_down();
                    Action::Nothing
                }
            },
            KeyCode::Char('k') | KeyCode::Up => {
                if fl {
                    Action::Tree(TreeMove::Up, 1)
                } else {
                    self.document.scroll_up();
                    Action::Nothing
                }
            },
            KeyCode::Enter => if fl { Action::OpenSelected } else { Action::Nothing },
            KeyCode::Tab => {
                self.toggle_focus();
                Action::Nothing
            },
            KeyCode::Char('h') | KeyCode::Left | KeyCode::Backspace => {
                if fl { Action::Tree(TreeMove::Left, 1) } else { Action::Nothing }
            },
            KeyCode::Char('l') | KeyCode::Right => if fl { Action::Tree(TreeMove::Right, 1) } else { Action::Nothing },
            KeyCode::Char('G') => {
                if fl {
                    Action::Tree(TreeMove::Last, 1)
                } else {
                    self.document.scroll_to_bottom();
                    Action::Nothing
                }
            },
            KeyCode::Char('g') => {
                self.pending_key = Some(('g', now));
                Action::Nothing
            },
            KeyCode::Char(' ') => {
                self.pending_key = Some((' ', now));
                Action::Nothing
            },
            KeyCode::Char('u') => {
                if key.ctrl && pv {
                    self.document.scroll_half_page_up();
                }
                Action::Nothing
            },
            KeyCode::Char(':') => {
                self.mode = AppMode::Command;
                self.command_buffer = String::new();
                Action::Nothing
            },
            KeyCode::Char('/') => {
                self.search.active = true;
                self.search.query = String::new();
                self.search.matches = Vec::new();
                self.search.current = 0;
                self.mode = AppMode::Search;
                Action::Nothing
            },
            KeyCode::Char('n') => {
                next_search_match(&mut self.search, &mut self.document, &mut self.status_message);
                Action::Nothing
            },
            KeyCode::Char('N') => {
                prev_search_match(&mut self.search, &mut self.document, &mut self.status_message);
                Action::Nothing
            },
            KeyCode::Esc => {
                self.clear_search();
                Action::Nothing
            },
            KeyCode::Char('i') | KeyCode::Char('e') => if pv { self.enter_editor() } else { Action::Nothing },
            KeyCode::Char('o') => {
                if pv {
                    if self.document.links.len() == 0 {
                        self.status_message = lit("No links in document");
                    } else {
                        self.overlay = Overlay::LinkPicker;
                        self.link_picker.selected = 0;
                        self.link_picker.search_query = String::new();
                    }
                }
                Action::Nothing
            },
            KeyCode::Char('?') => {
                self.overlay = match self.overlay {
                    Overlay::Help => Overlay::Off,
                    _ => Overlay::Help,
                };
                Action::Nothing
            },
            KeyCode::Char('q') => {
                self.should_quit = true;
                Action::Nothing
            },
            KeyCode::Char(']') => {
                if pv && self.document.scroll_offset <= usize::MAX - crate::document::SCROLL_PADDING {
                    self.document.jump_to_next_heading();
                }
                Action::Nothing
            },
            KeyCode::Char('[') => {
                if pv && self.document.scroll_offset <= usize::MAX - crate::document::SCROLL_PADDING {
                    self.document.jump_to_prev_heading();
                }
                Action::Nothing
            },
            KeyCode::Char('f') => {
                self.pending_key = Some(('f', now));
                Action::Nothing
            },
            _ => Action::Nothing,
        }
    }

    /// Closes the file-operation dialog and forgets its input.
    pub fn cancel_file_op(&mut self)
        ensures
            *final(self) == (App { overlay: Overlay::Off, file_op_input: final(self).file_op_input, ..*old(self) }),
            final(self).file_op_input@.len() == 0,
    {
        self.overlay = Overlay::Off;
        self.file_op_input = String::new();
    }

    /// Confirms the open file-operation dialog: the dialog closes and,
    /// unless the input is empty (which only a deletion allows), the
    /// operation is handed out with its input.
    pub fn confirm_file_op(&mut self) -> (r: Action)
        ensures
            confirm_post(*old(self), *final(self), r),
    {
        let mut ov = Overlay::Off;
        std::mem::swap(&mut ov, &mut self.overlay);
        match ov {
            Overlay::FileOp(op) => {
                let mut input = String::new();
                std::mem::swap(&mut input, &mut self.file_op_input);
                let needs_input = match op {
                    FileOp::Delete { .. } => false,
                    _ => true,
                };
                if needs_input && input.as_str().is_empty() {
                    Action::Nothing
                } else {
                    Action::ConfirmFileOp(op, input)
                }
            },
            other => {
                self.overlay = other;
                Action::Nothing
            },
        }
    }

    /// Key handling in the file-operation dialog: a deletion takes only
    /// Enter or Esc; the others also take typed input.
    pub fn handle_file_op_key(&mut self, key: Key) -> (r: Action)
        ensures
            file_op_key_post(*old(self), *final(self), key, r),
    {
        let is_delete = match &self.overlay {
            Overlay::FileOp(FileOp::Delete { .. }) => true,
            _ => false,
        };
        if is_delete {
            match key.code {
                KeyCode::Enter => self.confirm_file_op(),
                KeyCode::Esc => {
                    self.cancel_file_op();
                    Action::Nothing
                },
                _ => Action::Nothing,
            }
        } else {
            match key.code {
                KeyCode::Esc => {
                    self.cancel_file_op();
                    Action::Nothing
                },
                KeyCode::Enter => self.confirm_file_op(),
                KeyCode::Backspace => {
                    let mut q = chars_of(self.file_op_input.as_str());
                    if q.len() > 0 {
                        q.pop();
                    }
                    self.file_op_input = crate::text::string_from_chars(&q);
                    Action::Nothing
                },
                KeyCode::Char(c) => {
                    push_char(&mut self.file_op_input, c);
                    Action::Nothing
                },
                _ => Action::Nothing,
            }
        }
    }

    /// Opens a file-operation dialog for the tree's selected entry
    /// (`selected`: its absolute path and whether it is a directory).
    /// Creation works without a selection (in the root); deletion, renaming
    /// and moving need one. Renaming starts from the entry's name.
    pub fn start_file_op(&mut self, kind: FileOpKind, selected: Option<(String, bool)>, now: u64)
        ensures
            file_op_started(*old(self), *final(self), kind, selected, now),
    {
        match kind {
            FileOpKind::CreateFile | FileOpKind::CreateDir => {
                let parent = match selected {
                    Some((p, true)) => p,
                    Some((p, false)) => match parent_str(p.as_str()) {
                        Some(q) => q,
                        None => copy_string(&self.root_path),
                    },
                    None => copy_string(&self.root_path),
                };
                self.file_op_input = String::new();
                self.overlay = if kind == FileOpKind::CreateFile {
                    Overlay::FileOp(FileOp::CreateFile { parent_dir: parent })
                } else {
                    Overlay::FileOp(FileOp::CreateDir { parent_dir: parent })
                };
                self.cursor_visible = true;
                self.cursor_last_toggle = now;
            },
            _ => {
                if let Some((p, d)) = selected {
                    let name = match file_name_chars(p.as_str()) {
                        Some(n) => crate::text::string_from_chars(&n),
                        None => String::new(),
                    };
                    if kind == FileOpKind::Delete {
                        self.file_op_input = String::new();
                        self.overlay = Overlay::FileOp(FileOp::Delete { target: p, is_dir: d, name });
                    } else if kind == FileOpKind::Rename {
                        self.file_op_input = name;
                        self.overlay = Overlay::FileOp(FileOp::Rename { target: p, is_dir: d });
                    } else {
                        self.file_op_input = String::new();
                        self.overlay = Overlay::FileOp(FileOp::Move { source: p, is_dir: d });
                    }
                    self.cursor_visible = true;
                    self.cursor_last_toggle = now;
                }
            },
        }
    }

    /// Key handling for every mode and overlay. Ctrl+C quits from
    /// anywhere; in Normal mode an open overlay takes the key first.
    #[verifier::rlimit(30)]
    pub fn handle_event(&mut self, key: Key, now: u64) -> (r: Action)
        requires
            old(self).paths.wf(),
        ensures
            key.ctrl && key.code == KeyCode::Char('c') ==> r is Nothing && *final(self) == (App { should_quit: true, ..*old(self) }),
            !(key.ctrl && key.code == KeyCode::Char('c')) && old(self).mode == AppMode::Normal && old(self).overlay is Off
                && !old(self).editor.open ==> viewer_key_post(*old(self), *final(self), key, now, r),
            !(key.ctrl && key.code == KeyCode::Char('c')) && old(self).mode == AppMode::Normal && old(self).overlay is Help
                ==> r is Nothing && *final(self) == if key.code == KeyCode::Esc || key.code == KeyCode::Char('?') {
                App { overlay: Overlay::Off, ..*old(self) }
            } else {
                *old(self)
            },
            !(key.ctrl && key.code == KeyCode::Char('c')) && old(self).mode == AppMode::Normal && old(self).overlay is Off
                && old(self).editor.open ==> editor_normal_key_post(*old(self), *final(self), key, now, r),
            !(key.ctrl && key.code == KeyCode::Char('c')) && old(self).mode == AppMode::Normal && old(self).overlay is FileOp
                ==> file_op_key_post(*old(self), *final(self), key, r),
            !(key.ctrl && key.code == KeyCode::Char('c')) && old(self).mode == AppMode::Normal && old(self).overlay is LinkPicker
                ==> link_picker_key_post(*old(self), *final(self), key, r),
            !(key.ctrl && key.code == KeyCode::Char('c')) && old(self).mode == AppMode::Normal && old(self).overlay is FileFinder
                ==> file_finder_key_post(*old(self), *final(self), key, r),
            !(key.ctrl && key.code == KeyCode::Char('c')) && old(self).mode == AppMode::Insert ==> insert_key_post(
                *old(self),
                *final(self),
                key,
                r,
            ),
            !(key.ctrl && key.code == KeyCode::Char('c')) && old(self).mode == AppMode::Command ==> command_key_post(
                *old(self),
                *final(self),
                key,
                r,
            ),
            !(key.ctrl && key.code == KeyCode::Char('c')) && old(self).mode == AppMode::Search ==> search_key_post(
                *old(self),
                *final(self),
                key,
                r,
            ),
    {
        if key.ctrl && key.code == KeyCode::Char('c') {
            self.should_quit = true;
            return Action::Nothing;
        }
        match self.mode {
            AppMode::Normal => {
                let which: u8 = match self.overlay {
                    Overlay::FileOp(_) => 1,
                    Overlay::LinkPicker => 2,
                    Overlay::FileFinder => 3,
                    Overlay::Help => 4,
                    Overlay::Off => 0,
                };
                if which == 1 {
                    self.handle_file_op_key(key)
                } else if which == 2 {
                    self.handle_link_picker_key(key)
                } else if which == 3 {
                    self.handle_file_finder_key(key)
                } else if which == 4 {
                    if key.code == KeyCode::Esc || key.code == KeyCode::Char('?') {
                        self.overlay = Overlay::Off;
                    }
                    Action::Nothing
                } else {
                    self.handle_normal_key(key, now)
                }
            },
            AppMode::Insert => self.handle_insert_key(key),
            AppMode::Command => self.handle_command_key(key),
            AppMode::Search => self.handle_search_key(key),
        }
    }

    /// Mouse handling: the wheel scrolls the pane under the pointer three
    /// lines (the file list by moving its selection); a left click focuses
    /// the pane under the pointer.
    pub fn handle_mouse(&mut self, kind: MouseKind, col: u16, row: u16, preview: Option<Area>, file_list: Option<Area>) -> (r: Action)
        ensures
            ({
                let in_pv = (preview matches Some(a) && area_contains(a, col, row));
                let in_fl = (file_list matches Some(a) && area_contains(a, col, row));
                match kind {
                    MouseKind::ScrollDown => if in_pv {
                        r is Nothing && *final(self) == (App { document: down_n(old(self).document, 3), ..*old(self) })
                    } else if in_fl {
                        r == Action::Tree(TreeMove::Down, 3) && *final(self) == *old(self)
                    } else {
                        r is Nothing && *final(self) == *old(self)
                    },
                    MouseKind::ScrollUp => if in_pv {
                        r is Nothing && *final(self) == (App {
                            document: doc_at(old(self).document, sat_sub(old(self).document.scroll_offset as nat, 3)),
                            ..*old(self)
                        })
                    } else if in_fl {
                        r == Action::Tree(TreeMove::Up, 3) && *final(self) == *old(self)
                    } else {
                        r is Nothing && *final(self) == *old(self)
                    },
                    MouseKind::LeftDown => r is Nothing && *final(self) == (App {
                        focus: if in_pv { Focus::Preview } else if in_fl { Focus::FileList } else { old(self).focus },
                        ..*old(self)
                    }),
                    MouseKind::Other => r is Nothing && *final(self) == *old(self),
                }
            }),
    {
        let in_pv = match preview {
            Some(a) => a.x <= col && (col as u32) < (a.x as u32) + (a.width as u32) && a.y <= row && (row as u32) < (a.y as u32)
                + (a.height as u32),
            None => false,
        };
        let in_fl = match file_list {
            Some(a) => a.x <= col && (col as u32) < (a.x as u32) + (a.width as u32) && a.y <= row && (row as u32) < (a.y as u32)
                + (a.height as u32),
            None => false,
        };
        match kind {
            MouseKind::ScrollDown => {
                if in_pv {
                    let ghost d0 = self.document;
                    proof {
                        reveal_with_fuel(down_n, 4);
                    }
                    self.document.scroll_down();
                    assert(self.document == down_n(d0, 1));
                    self.document.scroll_down();
                    assert(self.document == down_n(d0, 2));
                    self.document.scroll_down();
                    assert(self.document == down_n(d0, 3));
                    Action::Nothing
                } else if in_fl {
                    Action::Tree(TreeMove::Down, 3)
                } else {
                    Action::Nothing
                }
            },
            MouseKind::ScrollUp => {
                if in_pv {
                    let ghost d0 = self.document;
                    self.document.scroll_up();
                    self.document.scroll_up();
                    self.document.scroll_up();
                    assert(self.document == doc_at(d0, sat_sub(d0.scroll_offset as nat, 3)));
                    Action::Nothing
                } else if in_fl {
                    Action::Tree(TreeMove::Up, 3)
                } else {
                    Action::Nothing
                }
            },
            MouseKind::LeftDown => {
                if in_pv {
                    self.focus = Focus::Preview;
                } else if in_fl {
                    self.focus = Focus::FileList;
                }
                Action::Nothing
            },
            MouseKind::Other => Action::Nothing,
        }
    }

    /// Shows a document's text: renders it (links deduplicated), lays it out
    /// at the viewport's width (unwrapped when the width is unknown), and
    /// rebuilds the search cache and the heading index. The scroll position
    /// is kept.
    pub fn show_content(&mut self, content: String, ss: &Syntaxes, no_color: bool)
        ensures
            *final(self) == (App { document: final(self).document, ..*old(self) }),
            shows_text(final(self).document, content@, no_color),
            final(self).document.file_content == content,
            final(self).document.scroll_offset == old(self).document.scroll_offset,
            final(self).document.current_file == old(self).document.current_file,
            final(self).document.viewport_width == old(self).document.viewport_width,
            final(self).document.viewport_height == old(self).document.viewport_height,
    {
        let (blocks, links) = render_markdown_blocks(content.as_str(), ss, no_color);
        let links = deduplicate_links(links);
        let width = if self.document.viewport_width > 0 { Some(self.document.viewport_width) } else { None };
        let (lines, starts) = rewrap_blocks(&blocks, width);
        proof {
            lemma_block_starts_len(blocks_view(blocks@), width);
            assert(blocks_view(blocks@) == blocks@.map_values(|b: RenderedBlock| block_view(b)));
        }
        self.document.rendered_lines = lines;
        self.document.rebuild_lower_cache();
        self.document.block_line_starts = starts;
        self.document.rendered_blocks = blocks;
        self.document.links = links;
        self.document.file_content = content;
        self.document.rebuild_heading_index();
    }

    /// Opens a file whose text was read: shows it from the top, clears the
    /// status and focuses the preview when the tree is hidden.
    pub fn open_document(&mut self, path: String, content: String, ss: &Syntaxes, no_color: bool)
        ensures
            final(self).document.current_file matches Some(p) && p@ == path@,
            final(self).document.file_content == content,
            shows_text(final(self).document, content@, no_color),
            final(self).document.viewport_width == old(self).document.viewport_width,
            final(self).document.viewport_height == old(self).document.viewport_height,
            final(self).document.scroll_offset == 0,
            final(self).status_message@.len() == 0,
            final(self).focus == if old(self).show_file_tree { old(self).focus } else { Focus::Preview },
            *final(self) == (App {
                document: final(self).document,
                status_message: final(self).status_message,
                focus: final(self).focus,
                ..*old(self)
            }),
    {
        self.show_content(content, ss, no_color);
        self.document.current_file = Some(path);
        self.document.scroll_offset = 0;
        self.status_message = String::new();
        if !self.show_file_tree {
            self.focus = Focus::Preview;
        }
    }

    /// Opens a file from what reading it gave: a file over the size limit,
    /// an unreadable or a binary file only sets the status.
    pub fn open_read(&mut self, path: String, read: FileRead, ss: &Syntaxes, no_color: bool)
        ensures
            final(self).paths == old(self).paths,
            final(self).mode == old(self).mode,
            final(self).filtered == old(self).filtered,
            final(self).editor == old(self).editor,
            read is TooLarge ==> *final(self) == (App { status_message: final(self).status_message, ..*old(self) })
                && final(self).status_message@ == "File too large (>"@ + crate::renderer::decimal((old(self).max_file_size
                / 1000000) as nat) + "MB)"@,
            read matches FileRead::Failed(e) ==> *final(self) == (App { status_message: final(self).status_message, ..*old(self) })
                && final(self).status_message@ == "Error: "@ + e@,
            read is Binary ==> *final(self) == (App { status_message: final(self).status_message, ..*old(self) })
                && final(self).status_message@ == "Binary file, cannot preview"@,
            read matches FileRead::Text(t) ==> shows_text(final(self).document, t@, no_color),
            read matches FileRead::Text(t) ==> final(self).document.file_content == t && (final(self).document.current_file matches Some(
                p,
            ) && p@ == path@) && final(self).document.scroll_offset == 0 && final(self).status_message@.len() == 0,
            read is Text ==> *final(self) == (App {
                document: final(self).document,
                status_message: final(self).status_message,
                focus: final(self).focus,
                ..*old(self)
            }),
            read is Text ==> final(self).focus == if old(self).show_file_tree { old(self).focus } else { Focus::Preview },
            read is Text ==> final(self).document.viewport_width == old(self).document.viewport_width
                && final(self).document.viewport_height == old(self).document.viewport_height,
    {
        match read {
            FileRead::TooLarge => {
                let mb = self.max_file_size / 1000000;
                let mut msg = lit("File too large (>");
                let d = crate::renderer::decimal_string(mb);
                push_str(&mut msg, d.as_str());
                push_str(&mut msg, "MB)");
                self.status_message = msg;
            },
            FileRead::Failed(e) => {
                let mut msg = lit("Error: ");
                push_str(&mut msg, e.as_str());
                self.status_message = msg;
            },
            FileRead::Binary => {
                self.status_message = lit("Binary file, cannot preview");
            },
            FileRead::Text(t) => {
                self.open_document(path, t, ss, no_color);
            },
        }
    }

    /// Whether `path` is the open document.
    pub fn is_current(&self, path: &str) -> (r: bool)
        ensures
            r == (self.document.current_file matches Some(p) && p@ == path@),
    {
        match &self.document.current_file {
            Some(p) => str_eq(p.as_str(), path),
            None => false,
        }
    }

    /// A fresh application rooted at `root`, with the file tree's index, in
    /// a viewport of the given size: Normal mode, file list focused, no
    /// document, no overlay.
    pub fn new(root: String, paths: PathMap, viewport_width: usize, viewport_height: usize, now: u64) -> (r: Self)
        requires
            paths.wf(),
        ensures
            r.paths == paths,
            r.paths.wf(),
            r.search.wf(r.document),
            r.root_path == root,
            r.mode == AppMode::Normal,
            r.focus == Focus::FileList,
            r.overlay is Off,
            !r.should_quit,
            !r.editor.open,
            r.pending_key is None,
            r.document.current_file is None,
            r.document.scroll_offset == 0,
            r.document.viewport_width == viewport_width,
            r.document.viewport_height == viewport_height,
            r.max_file_size == DEFAULT_MAX_FILE_SIZE,
            !r.show_file_tree,
            r.status_message@.len() == 0,
    {
        App {
            search: SearchState::new(),
            editor: EditorState { open: false, is_dirty: false, external_change_detected: false },
            paths,
            filtered: None,
            document: DocumentState::new(viewport_width, viewport_height),
            link_picker: LinkPickerState {
                selected: 0,
                search_query: String::new(),
                cached_indices: Vec::new(),
                cached_query: String::new(),
                cached_count: 0,
            },
            file_finder: FileFinderState { query: String::new(), selected: 0, results: Vec::new() },
            cursor_visible: true,
            cursor_last_toggle: now,
            mode: AppMode::Normal,
            focus: Focus::FileList,
            should_quit: false,
            status_message: String::new(),
            pending_key: None,
            command_buffer: String::new(),
            overlay: Overlay::Off,
            file_op_input: String::new(),
            show_file_tree: false,
            root_path: root,
            max_file_size: DEFAULT_MAX_FILE_SIZE,
            stdin_mode: false,
            live_preview: LivePreviewState {
                enabled: false,
                orientation: SplitOrientation::Horizontal,
                debounce: None,
                scroll_offset: 0,
                viewport_width: 0,
                rendered_lines: Vec::new(),
                rendered_blocks: Vec::new(),
                block_line_starts: Vec::new(),
            },
        }
    }

    /// Completes a file operation after the filesystem part: on success the
    /// tree's index follows (and the file search filter is dropped), the
    /// open document follows a rename or move and is closed by a deletion,
    /// a new file is opened (`read`: what reading it gave), and the status
    /// tells what happened; on failure the status shows the error. Returns
    /// the id to select in the tree, if any.
    pub fn finish_file_op(&mut self, op: FileOp, result: Result<String, String>, read: FileRead, ss: &Syntaxes, no_color: bool) -> (r: Option<String>)
        requires
            old(self).paths.wf(),
        ensures
            final(self).paths.wf(),
            result matches Err(e) ==> r is None && *final(self) == (App { status_message: final(self).status_message, ..*old(self) })
                && final(self).status_message@ == "Error: "@ + e@,
            result matches Ok(p) ==> match op {
                FileOp::CreateFile { .. } => final(self).paths.view() == add_spec(old(self).paths.view(), old(self).root_path@, p@, false)
                    && (r matches Some(id) && id@ == rel_spec(old(self).root_path@, p@))
                    && final(self).status_message@ == "Created "@ + rel_spec(old(self).root_path@, p@)
                    && final(self).filtered is None
                    && (read matches FileRead::Text(t) ==> (final(self).document.current_file matches Some(c) && c@ == p@)
                        && shows_text(final(self).document, t@, no_color) && final(self).document.scroll_offset == 0),
                FileOp::CreateDir { .. } => final(self).paths.view() == add_spec(old(self).paths.view(), old(self).root_path@, p@, true)
                    && (r matches Some(id) && id@ == rel_spec(old(self).root_path@, p@))
                    && final(self).status_message@ == "Created "@ + rel_spec(old(self).root_path@, p@) + "/"@
                    && final(self).filtered is None && final(self).document == old(self).document,
                FileOp::Delete { target, name, .. } => final(self).paths.view() == remove_spec(old(self).paths.view(), old(self).root_path@, target@)
                    && r is None && final(self).status_message@ == "Deleted "@ + name@
                    && final(self).filtered is None
                    && ((old(self).document.current_file matches Some(c) && c@ == target@) ==> crate::document::cleared(
                        old(self).document,
                        final(self).document,
                    ))
                    && (!(old(self).document.current_file matches Some(c) && c@ == target@) ==> final(self).document == old(self).document),
                FileOp::Rename { target, is_dir } => final(self).paths.view() == move_spec(old(self).paths.view(), old(self).root_path@, target@, p@, is_dir)
                    && (r matches Some(id) && id@ == rel_spec(old(self).root_path@, p@))
                    && final(self).status_message@ == "Renamed to "@ + rel_spec(old(self).root_path@, p@)
                    && final(self).filtered is None
                    && ((old(self).document.current_file matches Some(c) && c@ == target@) ==> (final(self).document.current_file matches Some(n) && n@ == p@))
                    && (!(old(self).document.current_file matches Some(c) && c@ == target@) ==> final(self).document == old(self).document),
                FileOp::Move { source, is_dir } => final(self).paths.view() == move_spec(old(self).paths.view(), old(self).root_path@, source@, p@, is_dir)
                    && (r matches Some(id) && id@ == rel_spec(old(self).root_path@, p@))
                    && final(self).status_message@ == "Moved to "@ + rel_spec(old(self).root_path@, p@)
                    && final(self).filtered is None
                    && ((old(self).document.current_file matches Some(c) && c@ == source@) ==> (final(self).document.current_file matches Some(n) && n@ == p@))
                    && (!(old(self).document.current_file matches Some(c) && c@ == source@) ==> final(self).document == old(self).document),
            },
    {
        match result {
            Err(e) => {
                let mut msg = lit("Error: ");
                push_str(&mut msg, e.as_str());
                self.status_message = msg;
                None
            },
            Ok(path) => {
                let root = copy_string(&self.root_path);
                let rel = relative_path_str(root.as_str(), path.as_str());
                match op {
                    FileOp::CreateFile { .. } => {
                        self.paths.refresh_add(root.as_str(), path.as_str(), false);
                        self.filtered = None;
                        self.open_read(copy_string(&path), read, ss, no_color);
                        let mut msg = lit("Created ");
                        push_str(&mut msg, rel.as_str());
                        self.status_message = msg;
                        Some(rel)
                    },
                    FileOp::CreateDir { .. } => {
                        self.paths.refresh_add(root.as_str(), path.as_str(), true);
                        self.filtered = None;
                        let mut msg = lit("Created ");
                        push_str(&mut msg, rel.as_str());
                        push_str(&mut msg, "/");
                        self.status_message = msg;
                        Some(rel)
                    },
                    FileOp::Delete { target, name, .. } => {
                        if self.is_current(target.as_str()) {
                            self.document.clear();
                        }
                        self.paths.refresh_remove(root.as_str(), target.as_str());
                        self.filtered = None;
                        let mut msg = lit("Deleted ");
                        push_str(&mut msg, name.as_str());
                        self.status_message = msg;
                        None
                    },
                    FileOp::Rename { target, is_dir } => {
                        if self.is_current(target.as_str()) {
                            self.document.current_file = Some(copy_string(&path));
                        }
                        self.paths.refresh_move(root.as_str(), target.as_str(), path.as_str(), is_dir);
                        self.filtered = None;
                        let mut msg = lit("Renamed to ");
                        push_str(&mut msg, rel.as_str());
                        self.status_message = msg;
                        Some(rel)
                    },
                    FileOp::Move { source, is_dir } => {
                        if self.is_current(source.as_str()) {
                            self.document.current_file = Some(copy_string(&path));
                        }
                        self.paths.refresh_move(root.as_str(), source.as_str(), path.as_str(), is_dir);
                        self.filtered = None;
                        let mut msg = lit("Moved to ");
                        push_str(&mut msg, rel.as_str());
                        self.status_message = msg;
                        Some(rel)
                    },
                }
            },
        }
    }
}

} // verus!
