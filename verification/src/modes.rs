//! Input modes and pane focus.

use crate::text::lit;
use vstd::prelude::*;

verus! {

/// Current input mode.
#[derive(Debug, Clone, Copy, PartialEq, Eq, Structural)]
pub enum AppMode {
    Normal,
    Insert,
    Command,
    Search,
}

/// The status-bar label of a mode.
pub open spec fn mode_label_spec(m: AppMode) -> Seq<char> {
    match m {
        AppMode::Normal => "NORMAL"@,
        AppMode::Insert => "INSERT"@,
        AppMode::Command => "COMMAND"@,
        AppMode::Search => "SEARCH"@,
    }
}

impl AppMode {
    /// The status-bar label: `NORMAL`, `INSERT`, `COMMAND` or `SEARCH`.
    pub fn label(&self) -> (r: String)
        ensures
            r@ == mode_label_spec(*self),
    {
        match self {
            AppMode::Normal => lit("NORMAL"),
            AppMode::Insert => lit("INSERT"),
            AppMode::Command => lit("COMMAND"),
            AppMode::Search => lit("SEARCH"),
        }
    }
}

/// Which pane has focus.
#[derive(Debug, Clone, Copy, PartialEq, Eq, Structural)]
pub enum Focus {
    FileList,
    Preview,
}

} // verus!
