[package]
name = "mdtui"
version = "0.3.0"
edition = "2021"
publish = false

[dependencies]
anyhow = "=1.0.104"
clap = { version = "=4.6.7", features = ["derive"] }
crossterm = "=0.29.0"
fs2 = "=0.4.3"
fuzzy-matcher = "=0.3.7"
notify = "=8.2.1"
open = "=5.4.5"
pulldown-cmark = { version = "=0.13.6", default-features = false }
ratatui = "=0.30.2"
ratatui-textarea = "=0.9.4"
syntect = { version = "=5.3.0", default-features = false, features = ["default-syntaxes", "parsing", "regex-fancy"] }
terminal-colorsaurus = "=1.0.3"
tui-tree-widget = "=0.24.1"
unicode-segmentation = "=1.13.3"
unicode-width = "=0.2.0"
