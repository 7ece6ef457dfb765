//! How the application follows what the filesystem watcher reports: the open
//! file changing on disk, and entries appearing, disappearing or moving under
//! the root.
//!
//! The caller reads the disk (the open file's new text, whether a renamed
//! entry is a directory) and hands the results in.

use crate::document::clamped;
use crate::paths::{file_name_chars, file_name_spec, has_md_extension, has_md_extension_spec};
use crate::session::{name_or_empty, shows_text, App, EditorState};
use crate::text::{lit, push_chars, push_str, str_eq, string_from_chars};
use crate::tree::{add_spec, move_spec, path_starts_with, path_starts_with_str, remove_spec};
use crate::watcher::FsEvent;
use crate::syntax::Syntaxes;
use vstd::prelude::*;

verus! {

/// The file name of a path ends in `.md` (a path without a file name does not).
pub open spec fn is_md_path(p: Seq<char>) -> bool {
    has_md_extension_spec(name_or_empty(p))
}

/// `path` is the open document.
pub open spec fn is_open(a: App, path: Seq<char>) -> bool {
    a.document.current_file matches Some(c) && c@ == path
}

/// The open file `path` now reads as something other than what is shown.
pub open spec fn text_changed(a: App, path: Seq<char>, disk: Option<String>) -> bool {
    is_open(a, path) && (disk matches Some(t) && t@ != a.document.file_content@)
}

/// The state after the preview took on new text: the document shows it, at
/// the same place as far as the new text reaches, and nothing else changed.
pub open spec fn reloaded(a: App, b: App, content: Seq<char>, no_color: bool) -> bool {
    &&& b == (App { document: b.document, ..a })
    &&& shows_text(b.document, content, no_color)
    &&& b.document.current_file == a.document.current_file
    &&& b.document.viewport_width == a.document.viewport_width
    &&& b.document.viewport_height == a.document.viewport_height
    &&& b.document.scroll_offset == clamped(b.document, a.document.scroll_offset as nat)
}

/// What a change of the file `path` on disk does (`disk` is what reading it
/// gave): nothing unless it is the open file and its text changed; with
/// the editor open, the change is flagged and announced; otherwise the
/// preview shows the new text and says so.
pub open spec fn modified_post(a: App, b: App, path: Seq<char>, disk: Option<String>, no_color: bool) -> bool {
    if !text_changed(a, path, disk) {
        b == a
    } else if a.editor.open {
        &&& b == (App {
            editor: (EditorState { external_change_detected: true, ..a.editor }),
            status_message: b.status_message,
            ..a
        })
        &&& b.status_message@ == "File changed on disk! :e to reload, :w to overwrite"@
    } else {
        &&& reloaded(a, (App { status_message: a.status_message, ..b }), disk->0@, no_color)
        &&& b.status_message@ == "reloaded"@
    }
}

/// What the appearance of `path` does: nothing outside the root, nothing for
/// a file not named `.md`; for the open file (an editor that saves by
/// replacing), what a change of it does; otherwise the entry (and the
/// directories above it) joins the tree, and the search filter is dropped.
pub open spec fn created_post(
    a: App,
    b: App,
    path: Seq<char>,
    is_dir: bool,
    disk: Option<String>,
    no_color: bool,
) -> bool {
    if !path_starts_with(path, a.root_path@) || (!is_dir && !is_md_path(path)) {
        b == a
    } else if is_open(a, path) {
        modified_post(a, b, path, disk, no_color)
    } else {
        &&& b == (App { paths: b.paths, filtered: None, ..a })
        &&& b.paths.view() == add_spec(a.paths.view(), a.root_path@, path, is_dir)
    }
}

/// What the disappearance of `path` does: its entry and those under it leave
/// the tree and the search filter is dropped; the open file's document is
/// closed, with a notice.
pub open spec fn removed_post(a: App, b: App, path: Seq<char>) -> bool {
    &&& b.paths.view() == remove_spec(a.paths.view(), a.root_path@, path)
    &&& b.filtered is None
    &&& if is_open(a, path) {
        &&& b == (App { paths: b.paths, filtered: None, document: b.document, status_message: b.status_message, ..a })
        &&& b.document.current_file is None
        &&& b.document.file_content@.len() == 0
        &&& b.document.rendered_lines@.len() == 0
        &&& b.document.links@.len() == 0
        &&& b.document.scroll_offset == 0
        &&& b.document.viewport_width == a.document.viewport_width
        &&& b.document.viewport_height == a.document.viewport_height
        &&& b.status_message@ == "File deleted"@
    } else {
        b == (App { paths: b.paths, filtered: None, ..a })
    }
}

/// The name shown for a renamed file: its file name, or `?`.
pub open spec fn renamed_name(p: Seq<char>) -> Seq<char> {
    match file_name_spec(p) {
        Some(n) => n,
        None => "?"@,
    }
}

/// How a rename changes the tree: a directory moves with everything under
/// it; a file moves when both names are markdown, leaves when only the old
/// one is, joins when only the new one is, and is ignored otherwise.
pub open spec fn renamed_paths(a: App, b: App, from: Seq<char>, to: Seq<char>, to_is_dir: bool) -> bool {
    let root = a.root_path@;
    let m = a.paths.view();
    if to_is_dir {
        b.paths.view() == move_spec(m, root, from, to, true) && b.filtered is None
    } else if is_md_path(from) && is_md_path(to) {
        b.paths.view() == move_spec(m, root, from, to, false) && b.filtered is None
    } else if is_md_path(from) {
        b.paths.view() == remove_spec(m, root, from) && b.filtered is None
    } else if is_md_path(to) {
        b.paths.view() == add_spec(m, root, to, false) && b.filtered is None
    } else {
        b.paths == a.paths && b.filtered == a.filtered
    }
}

/// What a rename from `from` to `to` does: the tree follows it; when the
/// open file moved, the document follows it and a notice names the new file.
pub open spec fn renamed_post(a: App, b: App, from: Seq<char>, to: Seq<char>, to_is_dir: bool) -> bool {
    &&& renamed_paths(a, b, from, to, to_is_dir)
    &&& if is_open(a, from) {
        &&& b == (App {
            paths: b.paths,
            filtered: b.filtered,
            document: b.document,
            status_message: b.status_message,
            ..a
        })
        &&& b.document == (crate::document::DocumentState { current_file: b.document.current_file, ..a.document })
        &&& (b.document.current_file matches Some(c) && c@ == to)
        &&& b.status_message@ == "File renamed → "@ + renamed_name(to)
    } else {
        b == (App { paths: b.paths, filtered: b.filtered, ..a })
    }
}

/// The file name of `p` as a string, or the empty string.
fn name_string(p: &str) -> (r: String)
    ensures
        r@ == name_or_empty(p@),
{
    match file_name_chars(p) {
        Some(v) => string_from_chars(&v),
        None => String::new(),
    }
}

impl App {
    /// Shows new text of the open file, keeping the scroll position as far
    /// as the new text reaches.
    pub fn reload_preview_content(&mut self, content: String, ss: &Syntaxes, no_color: bool)
        ensures
            reloaded(*old(self), *final(self), content@, no_color),
    {
        self.show_content(content, ss, no_color);
        self.document.clamp_scroll();
    }

    /// Follows a change of the file `path` on disk; `disk` is what reading
    /// it gave (`None` when it could not be read).
    pub fn on_file_modified(&mut self, path: &str, disk: Option<String>, ss: &Syntaxes, no_color: bool)
        ensures
            modified_post(*old(self), *final(self), path@, disk, no_color),
    {
        if !self.is_current(path) {
            return;
        }
        let text = match disk {
            Some(t) => t,
            None => {
                return;
            },
        };
        if str_eq(text.as_str(), self.document.file_content.as_str()) {
            return;
        }
        if self.editor.open {
            self.editor.external_change_detected = true;
            self.status_message = lit("File changed on disk! :e to reload, :w to overwrite");
        } else {
            self.reload_preview_content(text, ss, no_color);
            self.status_message = lit("reloaded");
        }
    }

    /// Follows the appearance of `path` (a directory when `is_dir`); `disk`
    /// is what reading it gave, needed only when it is the open file.
    pub fn on_entry_created(&mut self, path: &str, is_dir: bool, disk: Option<String>, ss: &Syntaxes, no_color: bool)
        requires
            old(self).paths.wf(),
        ensures
            final(self).paths.wf(),
            created_post(*old(self), *final(self), path@, is_dir, disk, no_color),
    {
        if !path_starts_with_str(path, self.root_path.as_str()) {
            return;
        }
        if !is_dir {
            let name = name_string(path);
            if !has_md_extension(name.as_str()) {
                return;
            }
        }
        if self.is_current(path) {
            self.on_file_modified(path, disk, ss, no_color);
            return;
        }
        self.paths.refresh_add(self.root_path.as_str(), path, is_dir);
        self.filtered = None;
    }

    /// Follows the disappearance of `path`.
    pub fn on_entry_removed(&mut self, path: &str)
        requires
            old(self).paths.wf(),
        ensures
            final(self).paths.wf(),
            removed_post(*old(self), *final(self), path@),
    {
        self.paths.refresh_remove(self.root_path.as_str(), path);
        self.filtered = None;
        if self.is_current(path) {
            self.document.clear();
            self.status_message = lit("File deleted");
        }
    }

    /// Follows a rename from `from` to `to`; `to_is_dir` is whether `to` is
    /// a directory on disk.
    pub fn on_entry_renamed(&mut self, from: &str, to: &str, to_is_dir: bool)
        requires
            old(self).paths.wf(),
        ensures
            final(self).paths.wf(),
            renamed_post(*old(self), *final(self), from@, to@, to_is_dir),
    {
        if to_is_dir {
            self.paths.refresh_move(self.root_path.as_str(), from, to, true);
            self.filtered = None;
        } else {
            let to_name = name_string(to);
            let from_name = name_string(from);
            let to_is_md = has_md_extension(to_name.as_str());
            let from_is_md = has_md_extension(from_name.as_str());
            if from_is_md && to_is_md {
                self.paths.refresh_move(self.root_path.as_str(), from, to, false);
                self.filtered = None;
            } else if from_is_md {
                self.paths.refresh_remove(self.root_path.as_str(), from);
                self.filtered = None;
            } else if to_is_md {
                self.paths.refresh_add(self.root_path.as_str(), to, false);
                self.filtered = None;
            }
        }
        if self.is_current(from) {
            self.document.current_file = Some(to.to_string());
            let mut msg = lit("File renamed → ");
            match file_name_chars(to) {
                Some(v) => push_chars(&mut msg, &v),
                None => push_str(&mut msg, "?"),
            }
            self.status_message = msg;
        }
    }

    /// Follows one event of the watcher. `disk` is what reading the event's
    /// path gave (used when it is the open file); `to_is_dir` is whether a
    /// rename's new path is a directory.
    pub fn handle_fs_event(&mut self, event: FsEvent, disk: Option<String>, to_is_dir: bool, ss: &Syntaxes, no_color: bool)
        requires
            old(self).paths.wf(),
        ensures
            final(self).paths.wf(),
            match event {
                FsEvent::FileModified(p) => modified_post(*old(self), *final(self), p@, disk, no_color),
                FsEvent::EntryCreated { path, is_dir } => created_post(*old(self), *final(self), path@, is_dir, disk, no_color),
                FsEvent::EntryRemoved(p) => removed_post(*old(self), *final(self), p@),
                FsEvent::EntryRenamed { from, to } => renamed_post(*old(self), *final(self), from@, to@, to_is_dir),
            },
    {
        match event {
            FsEvent::FileModified(p) => self.on_file_modified(p.as_str(), disk, ss, no_color),
            FsEvent::EntryCreated { path, is_dir } => self.on_entry_created(path.as_str(), is_dir, disk, ss, no_color),
            FsEvent::EntryRemoved(p) => self.on_entry_removed(p.as_str()),
            FsEvent::EntryRenamed { from, to } => self.on_entry_renamed(from.as_str(), to.as_str(), to_is_dir),
        }
    }
}

} // verus!
