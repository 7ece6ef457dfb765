# mdtui

`mdt` is a terminal markdown viewer and editor: a file tree, a rendered
preview, a vim-style editor and a live split preview.

The crate is split in two.

- `src/` is the library, written in Verus. Every function there carries a
  contract that Verus proves: markdown rendering to styled blocks and their
  re-wrapping to a width, grapheme-aware word wrapping, search highlighting,
  code highlighting, document scrolling and search, the file tree's path
  map, filesystem-event coalescing, file-operation targets, and the
  key-driven state machine of the application. Calls into `pulldown-cmark`,
  `syntect`, `fuzzy-matcher`, `unicode-width` and `unicode-segmentation`
  go through small trusted wrappers. Their contracts state what the
  crates' sources and documentation show, and where a result would take
  pages to state (the markdown events, display widths, grapheme clusters,
  fuzzy scores, the scopes a syntax gives a line) they name it instead; the
  library's laws (public `law_*` proof functions) are proved over them.
- `app/` is the program around it: argument handling, the terminal
  (`ratatui`, `crossterm`), the editor widget, file-system I/O, locking,
  the watcher thread (`notify`) and opening links. It performs the actions
  that the library returns and hands events back to it.

`tests/` runs the library on concrete inputs.
