//! Verified core of a terminal markdown viewer: markdown rendering to styled
//! lines, width-aware wrapping, document scrolling and search, file-tree
//! bookkeeping, filesystem-event coalescing and the key-driven state machine.

pub mod assoc;
pub mod blocks;
pub mod document;
pub mod editing;
pub mod file_ops;
pub mod fs_events;
pub mod highlight;
pub mod markdown;
pub mod modes;
pub mod order;
pub mod overlays;
pub mod paths;
pub mod preview;
pub mod renderer;
pub mod scan;
pub mod screens;
pub mod session;
pub mod style;
pub mod syntax;
pub mod text;
pub mod theme;
pub mod tree;
pub mod watcher;
pub mod wrap;

use vstd::prelude::*;

verus! {

} // verus!
