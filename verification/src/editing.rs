//! The editor's round trips with the disk and its live preview: the text to
//! save, what a save or a reload does to the document, and when and how the
//! live preview is rendered again.
//!
//! The editor widget holds the text as lines; the caller hands them in and
//! performs the reads and writes.

use crate::blocks::{blocks_view, block_starts, blocks_lines, nats, rewrap_blocks};
use crate::document::DocumentState;
use crate::modes::{AppMode, Focus};
use crate::renderer::render_markdown_blocks;
use crate::session::{blocks_of_text, shows_text, Action, App, EditorState, LivePreviewState};
use crate::text::{copy_string, lit, push_char, push_str};
use crate::tree::{path_strip_prefix, strip_prefix_str, PathMap};
use crate::wrap::lines_view;
use crate::syntax::Syntaxes;
use vstd::prelude::*;

verus! {

/// Milliseconds the live preview waits after the last edit.
pub const LIVE_PREVIEW_DEBOUNCE_MS: u64 = 150;

/// The characters of each line.
pub open spec fn strings_view(lines: Seq<String>) -> Seq<Seq<char>> {
    lines.map_values(|s: String| s@)
}

/// The lines joined with a newline between each two (`[..].join("\n")`).
pub open spec fn joined(lines: Seq<Seq<char>>) -> Seq<char>
    decreases lines.len(),
{
    if lines.len() == 0 {
        Seq::empty()
    } else if lines.len() == 1 {
        lines[0]
    } else {
        joined(lines.drop_last()) + seq!['\n'] + lines.last()
    }
}

/// The text a save writes: the lines joined by newlines, and one newline
/// at the end.
pub open spec fn saved_text(lines: Seq<Seq<char>>) -> Seq<char> {
    joined(lines).push('\n')
}

/// The width the live preview is laid out at: its own, else the
/// document's, else unwrapped.
pub open spec fn live_width(a: App) -> Option<usize> {
    if a.live_preview.viewport_width > 0 {
        Some(a.live_preview.viewport_width)
    } else if a.document.viewport_width > 0 {
        Some(a.document.viewport_width)
    } else {
        None
    }
}

/// The open file's path shown to the user: relative to the root when it
/// lies under it, empty without an open file.
pub open spec fn display_path(a: App) -> Seq<char> {
    match a.document.current_file {
        Some(p) => match path_strip_prefix(p@, a.root_path@) {
            Some(r) => r,
            None => p@,
        },
        None => Seq::empty(),
    }
}

/// The editor pane's title.
pub open spec fn editor_title_spec(a: App) -> Seq<char> {
    if display_path(a).len() == 0 {
        " Editor "@
    } else {
        " Editor: "@ + display_path(a) + " "@
    }
}

/// The lines joined by newlines.
pub fn join_lines(lines: &Vec<String>) -> (r: String)
    ensures
        r@ == joined(strings_view(lines@)),
{
    let ghost sv = strings_view(lines@);
    let mut out = String::new();
    let mut i: usize = 0;
    while i < lines.len()
        invariant
            i <= lines.len(),
            sv == strings_view(lines@),
            out@ == joined(sv.take(i as int)),
        decreases lines.len() - i,
    {
        proof {
            assert(sv.take(i as int + 1).drop_last() =~= sv.take(i as int));
        }
        if i > 0 {
            push_char(&mut out, '\n');
        }
        push_str(&mut out, lines[i].as_str());
        i = i + 1;
    }
    proof {
        assert(sv.take(lines.len() as int) =~= sv);
    }
    out
}

/// The text a save writes for the editor's lines.
pub fn save_text(lines: &Vec<String>) -> (r: String)
    ensures
        r@ == saved_text(strings_view(lines@)),
{
    let mut t = join_lines(lines);
    push_char(&mut t, '\n');
    t
}

impl App {
    /// The open file's path shown to the user.
    pub fn display_file_path(&self) -> (r: String)
        ensures
            r@ == display_path(*self),
    {
        match &self.document.current_file {
            Some(p) => match strip_prefix_str(p.as_str(), self.root_path.as_str()) {
                Some(rest) => rest,
                None => copy_string(p),
            },
            None => String::new(),
        }
    }

    /// The editor pane's title: ` Editor: <path> `, or ` Editor ` without
    /// a path.
    pub fn editor_title(&self) -> (r: String)
        ensures
            r@ == editor_title_spec(*self),
    {
        let path = self.display_file_path();
        if path.unicode_len() == 0 {
            lit(" Editor ")
        } else {
            let mut t = lit(" Editor: ");
            push_str(&mut t, path.as_str());
            push_str(&mut t, " ");
            t
        }
    }

    /// Where and what to save: the open file and the editor's text with a
    /// final newline. Without an open file, or with the editor closed,
    /// nothing is saved and the status says why.
    pub fn begin_save(&mut self, lines: &Vec<String>) -> (r: Option<(String, String)>)
        ensures
            old(self).document.current_file is None ==> r is None
                && *final(self) == (App { status_message: final(self).status_message, ..*old(self) })
                && final(self).status_message@ == "No file path"@,
            old(self).document.current_file is Some && !old(self).editor.open ==> r is None
                && *final(self) == (App { status_message: final(self).status_message, ..*old(self) })
                && final(self).status_message@ == "Not in editor"@,
            old(self).document.current_file is Some && old(self).editor.open ==> *final(self) == *old(self)
                && (r matches Some((p, t)) && old(self).document.current_file->0@ == p@
                && t@ == saved_text(strings_view(lines@))),
    {
        let path = match &self.document.current_file {
            Some(p) => copy_string(p),
            None => {
                self.status_message = lit("No file path");
                return None;
            },
        };
        if !self.editor.open {
            self.status_message = lit("Not in editor");
            return None;
        }
        Some((path, save_text(lines)))
    }

    /// After writing `content` (`result` tells how the write went): on
    /// success the document shows the saved text, the editor is clean, the
    /// status says `written`, and the editor closes when `then_exit`; on
    /// failure the status shows the error.
    pub fn finish_save(
        &mut self,
        content: String,
        result: Result<(), String>,
        then_exit: bool,
        ss: &Syntaxes,
        no_color: bool,
    ) -> (r: Action)
        ensures
            result matches Err(e) ==> r is Nothing
                && *final(self) == (App { status_message: final(self).status_message, ..*old(self) })
                && final(self).status_message@ == "Error saving: "@ + e@,
            result is Ok ==> shows_text(final(self).document, content@, no_color)
                && final(self).document.current_file == old(self).document.current_file
                && final(self).document.viewport_width == old(self).document.viewport_width
                && final(self).document.viewport_height == old(self).document.viewport_height
                && final(self).editor.is_dirty == false
                && final(self).editor.external_change_detected == false
                && final(self).status_message@ == "written"@,
            result is Ok && !then_exit ==> r is Nothing
                && final(self).document.scroll_offset == old(self).document.scroll_offset
                && final(self).editor.open == old(self).editor.open
                && *final(self) == (App {
                    document: final(self).document,
                    editor: final(self).editor,
                    status_message: final(self).status_message,
                    ..*old(self)
                }),
            result is Ok && then_exit ==> r is CloseEditor
                && final(self).document.scroll_offset == 0
                && !final(self).editor.open
                && *final(self) == (App {
                    document: final(self).document,
                    editor: final(self).editor,
                    status_message: final(self).status_message,
                    mode: AppMode::Normal,
                    ..*old(self)
                }),
    {
        match result {
            Err(e) => {
                let mut msg = lit("Error saving: ");
                push_str(&mut msg, e.as_str());
                self.status_message = msg;
                Action::Nothing
            },
            Ok(()) => {
                self.show_content(content, ss, no_color);
                self.editor.is_dirty = false;
                self.editor.external_change_detected = false;
                self.status_message = lit("written");
                if then_exit {
                    self.exit_editor()
                } else {
                    Action::Nothing
                }
            },
        }
    }

    /// Takes the open file's text from disk into the editor (`read` is what
    /// reading it gave). Returns whether the editor's text is to be
    /// replaced by the document's.
    pub fn reload_editor_from_disk(&mut self, read: Result<String, String>) -> (r: bool)
        ensures
            old(self).document.current_file is None ==> !r
                && *final(self) == (App { status_message: final(self).status_message, ..*old(self) })
                && final(self).status_message@ == "No file path"@,
            old(self).document.current_file is Some ==> match read {
                Err(e) => !r && *final(self) == (App { status_message: final(self).status_message, ..*old(self) })
                    && final(self).status_message@ == "Error reading: "@ + e@,
                Ok(t) => r && *final(self) == (App {
                    editor: (EditorState { is_dirty: false, external_change_detected: false, ..old(self).editor }),
                    document: (DocumentState { file_content: t, ..old(self).document }),
                    status_message: final(self).status_message,
                    ..*old(self)
                }) && final(self).status_message@ == "reloaded"@,
            },
    {
        if self.document.current_file.is_none() {
            self.status_message = lit("No file path");
            return false;
        }
        match read {
            Err(e) => {
                let mut msg = lit("Error reading: ");
                push_str(&mut msg, e.as_str());
                self.status_message = msg;
                false
            },
            Ok(t) => {
                self.editor.is_dirty = false;
                self.editor.external_change_detected = false;
                self.document.file_content = t;
                self.status_message = lit("reloaded");
                true
            },
        }
    }

    /// Whether the live preview is due: an edit is waiting and the debounce
    /// interval has passed since it (`now` in milliseconds).
    pub fn live_preview_due(&self, now: u64) -> (r: bool)
        ensures
            r == (self.live_preview.debounce matches Some(t) && now >= t + LIVE_PREVIEW_DEBOUNCE_MS),
    {
        match self.live_preview.debounce {
            Some(t) => now >= t && now - t >= LIVE_PREVIEW_DEBOUNCE_MS,
            None => false,
        }
    }

    /// Renders the live preview from the editor's lines (joined by
    /// newlines) at its width, and clears the waiting edit. Nothing happens
    /// while the editor is closed.
    pub fn update_live_preview(&mut self, lines: &Vec<String>, ss: &Syntaxes, no_color: bool)
        ensures
            !old(self).editor.open ==> *final(self) == *old(self),
            old(self).editor.open ==> *final(self) == (App { live_preview: final(self).live_preview, ..*old(self) })
                && final(self).live_preview == (LivePreviewState {
                    rendered_lines: final(self).live_preview.rendered_lines,
                    rendered_blocks: final(self).live_preview.rendered_blocks,
                    block_line_starts: final(self).live_preview.block_line_starts,
                    debounce: None,
                    ..old(self).live_preview
                })
                && blocks_of_text(blocks_view(final(self).live_preview.rendered_blocks@), joined(strings_view(lines@)), no_color)
                && lines_view(final(self).live_preview.rendered_lines@) == blocks_lines(
                    blocks_view(final(self).live_preview.rendered_blocks@),
                    live_width(*old(self)),
                )
                && nats(final(self).live_preview.block_line_starts@) == block_starts(
                    blocks_view(final(self).live_preview.rendered_blocks@),
                    live_width(*old(self)),
                ),
    {
        if !self.editor.open {
            return;
        }
        let content = join_lines(lines);
        let (blocks, _links) = render_markdown_blocks(content.as_str(), ss, no_color);
        let width = if self.live_preview.viewport_width > 0 {
            Some(self.live_preview.viewport_width)
        } else if self.document.viewport_width > 0 {
            Some(self.document.viewport_width)
        } else {
            None
        };
        let (rendered, starts) = rewrap_blocks(&blocks, width);
        proof {
            assert(blocks_view(blocks@) == blocks@.map_values(|b: crate::blocks::RenderedBlock| crate::blocks::block_view(b)));
        }
        self.live_preview.rendered_lines = rendered;
        self.live_preview.rendered_blocks = blocks;
        self.live_preview.block_line_starts = starts;
        self.live_preview.debounce = None;
    }

    /// An application showing text read from standard input: no file tree
    /// or root, the preview focused.
    pub fn from_stdin(
        content: String,
        viewport_width: usize,
        viewport_height: usize,
        now: u64,
        ss: &Syntaxes,
        no_color: bool,
    ) -> (r: Self)
        ensures
            r.stdin_mode,
            r.focus == Focus::Preview,
            r.mode == AppMode::Normal,
            r.root_path@.len() == 0,
            r.paths.wf(),
            r.paths.view().len() == 0,
            r.document.current_file is None,
            r.document.scroll_offset == 0,
            r.document.viewport_width == viewport_width,
            r.document.viewport_height == viewport_height,
            shows_text(r.document, content@, no_color),
            !r.editor.open,
            r.status_message@.len() == 0,
    {
        let mut app = App::new(String::new(), PathMap::new(), viewport_width, viewport_height, now);
        app.stdin_mode = true;
        app.focus = Focus::Preview;
        app.show_content(content, ss, no_color);
        app
    }
}

proof fn lemma_split_nonempty(t: Seq<char>)
    ensures
        crate::paths::split_on(t, '\n').len() >= 1,
    decreases t.len(),
{
    if t.len() > 0 {
        lemma_split_nonempty(t.drop_last());
    }
}

proof fn lemma_joined_extend(ls: Seq<Seq<char>>, c: char)
    requires
        ls.len() >= 1,
    ensures
        joined(ls.update(ls.len() - 1, ls.last().push(c))) == joined(ls).push(c),
{
    let u = ls.update(ls.len() - 1, ls.last().push(c));
    if ls.len() == 1 {
        assert(u[0] == ls[0].push(c));
    } else {
        assert(u.drop_last() =~= ls.drop_last());
        assert(u.last() == ls.last().push(c));
    }
}

proof fn lemma_joined_split(t: Seq<char>)
    ensures
        joined(crate::paths::split_on(t, '\n')) == t,
    decreases t.len(),
{
    if t.len() == 0 {
        assert(joined(seq![Seq::<char>::empty()]) == Seq::<char>::empty());
    } else {
        let prev = crate::paths::split_on(t.drop_last(), '\n');
        lemma_joined_split(t.drop_last());
        lemma_split_nonempty(t.drop_last());
        if t.last() == '\n' {
            let ps = prev.push(Seq::<char>::empty());
            assert(ps.drop_last() =~= prev);
            assert(joined(prev) + seq!['\n'] + Seq::<char>::empty() =~= t);
        } else {
            lemma_joined_extend(prev, t.last());
            assert(t.drop_last().push(t.last()) =~= t);
        }
    }
}

/// A text without carriage returns.
pub open spec fn no_cr(t: Seq<char>) -> bool {
    forall|i: int| 0 <= i < t.len() ==> t[i] != '\r'
}

proof fn lemma_split_no_cr(t: Seq<char>)
    requires
        no_cr(t),
    ensures
        forall|k: int| 0 <= k < crate::paths::split_on(t, '\n').len() ==> no_cr(#[trigger] crate::paths::split_on(t, '\n')[k]),
    decreases t.len(),
{
    if t.len() > 0 {
        let init = t.drop_last();
        assert(no_cr(init)) by {
            assert forall|i: int| 0 <= i < init.len() implies init[i] != '\r' by {
                assert(init[i] == t[i]);
            }
        }
        lemma_split_no_cr(init);
        lemma_split_nonempty(init);
        let prev = crate::paths::split_on(init, '\n');
        let ps = crate::paths::split_on(t, '\n');
        assert(t.last() == t[t.len() - 1]);
        assert forall|k: int| 0 <= k < ps.len() implies no_cr(#[trigger] ps[k]) by {
            if t.last() == '\n' {
                if k < prev.len() {
                    assert(ps[k] == prev[k]);
                } else {
                    assert(ps[k] =~= Seq::<char>::empty());
                }
            } else if k < prev.len() - 1 {
                assert(ps[k] == prev[k]);
            } else {
                let x = prev.last().push(t.last());
                assert(ps[k] == x);
                assert(no_cr(prev[prev.len() - 1]));
                assert forall|i: int| 0 <= i < x.len() implies x[i] != '\r' by {
                    if i < x.len() - 1 {
                        assert(x[i] == prev.last()[i]);
                    }
                }
            }
        }
    }
}

/// Saving a document that was not edited writes its text back: the
/// editor holds the text's lines, and the save joins them with newlines
/// and ends with one, so a text without carriage returns comes back
/// whole, given a final newline when it had none.
pub proof fn law_save_unedited_text(t: Seq<char>)
    requires
        no_cr(t),
    ensures
        saved_text(crate::markdown::lines_spec(t)) == if t.len() > 0 && t.last() == '\n' {
            t
        } else {
            t.push('\n')
        },
{
    let ps = crate::paths::split_on(t, '\n');
    lemma_split_nonempty(t);
    lemma_split_no_cr(t);
    lemma_joined_split(t);
    let ended = ps.drop_last().map_values(|p: Seq<char>| crate::markdown::strip_cr(p));
    assert(ended =~= ps.drop_last()) by {
        assert forall|k: int| 0 <= k < ended.len() implies ended[k] == ps.drop_last()[k] by {
            assert(no_cr(ps[k]));
            let p = ps[k];
            if p.len() > 0 {
                assert(p[p.len() - 1] != '\r');
            }
        }
    }
    if t.len() == 0 {
        assert(ps =~= seq![Seq::<char>::empty()]);
        assert(crate::markdown::lines_spec(t) =~= Seq::<Seq<char>>::empty());
    } else if t.last() == '\n' {
        let prev = crate::paths::split_on(t.drop_last(), '\n');
        lemma_joined_split(t.drop_last());
        assert(ps =~= prev.push(Seq::<char>::empty()));
        assert(ps.drop_last() =~= prev);
        assert(crate::markdown::lines_spec(t) == prev);
        assert(t.drop_last().push('\n') =~= t);
    } else {
        let prev = crate::paths::split_on(t.drop_last(), '\n');
        lemma_split_nonempty(t.drop_last());
        assert(ps.last() == prev.last().push(t.last()));
        assert(ps.last().len() > 0);
        assert(ended.push(ps.last()) =~= ps);
    }
}

} // verus!
