//! Text of the screens the caller draws: the welcome screen, fitted to the
//! height available, and the status bar.

use crate::modes::{mode_label_spec, AppMode};
use crate::renderer::{decimal, decimal_string};
use crate::session::{name_or_empty, App};
use crate::style::{span, spans_view, Color, Span, Style, BOLD};
use crate::text::{lit, push_str, repeat, repeat_str, sat_sub};
use vstd::prelude::*;

verus! {

/// Rows of the logo.
pub const LOGO_HEIGHT: usize = 6;
/// Rows of the subtitle (a blank row and the subtitle).
pub const SUBTITLE_HEIGHT: usize = 2;
/// Blank rows above the key bindings.
pub const GAP_HEIGHT: usize = 2;
/// Rows of the version (a blank row and the version).
pub const VERSION_HEIGHT: usize = 2;
/// Number of key bindings on the welcome screen.
pub const KEYBINDING_COUNT: usize = 7;

/// Which parts of the welcome screen fit, how many key bindings, and how
/// many blank rows come first to center it.
pub struct WelcomeLayout {
    pub top_pad: usize,
    pub show_logo: bool,
    pub show_subtitle: bool,
    pub show_keybindings: bool,
    pub kb_count: usize,
    pub show_version: bool,
}

/// The smaller of two numbers.
pub open spec fn min_nat(a: nat, b: nat) -> nat {
    if a < b {
        a
    } else {
        b
    }
}

/// The welcome screen's layout for `available` rows: the logo needs its
/// rows, the subtitle two more, the key bindings two more and room for
/// three, the version the whole screen; the key bindings take what room
/// is left, and the content is centered.
pub open spec fn welcome_layout_spec(available: nat) -> WelcomeLayout {
    let show_logo = available >= 6;
    let show_subtitle = available >= 8;
    let show_keybindings = available >= 13;
    let show_version = available >= 19;
    let h1: nat = (if show_logo { 6nat } else { 0nat }) + (if show_subtitle { 2nat } else { 0nat });
    let h2: nat = if show_keybindings {
        h1 + 2 + min_nat(7, sat_sub(available, h1 + 2 + (if show_version { 2nat } else { 0nat })))
    } else {
        h1
    };
    let content_h: nat = h2 + (if show_version { 2nat } else { 0nat });
    let top_pad: nat = sat_sub(available, content_h) / 2;
    let space_for_kb: nat = sat_sub(
        sat_sub(
            sat_sub(sat_sub(sat_sub(available, top_pad), if show_logo { 6nat } else { 0nat }), if show_subtitle {
                2nat
            } else {
                0nat
            }),
            2,
        ),
        if show_version { 2nat } else { 0nat },
    );
    WelcomeLayout {
        top_pad: top_pad as usize,
        show_logo,
        show_subtitle,
        show_keybindings,
        kb_count: min_nat(7, space_for_kb) as usize,
        show_version,
    }
}

/// Lays out the welcome screen for `available` rows.
pub fn welcome_layout(available: usize) -> (r: WelcomeLayout)
    ensures
        r == welcome_layout_spec(available as nat),
{
    let show_logo = available >= LOGO_HEIGHT;
    let show_subtitle = available >= LOGO_HEIGHT + SUBTITLE_HEIGHT;
    let show_keybindings = available >= LOGO_HEIGHT + SUBTITLE_HEIGHT + GAP_HEIGHT + 3;
    let show_version = available >= LOGO_HEIGHT + SUBTITLE_HEIGHT + GAP_HEIGHT + KEYBINDING_COUNT + VERSION_HEIGHT;
    let mut content_h: usize = 0;
    if show_logo {
        content_h = content_h + LOGO_HEIGHT;
    }
    if show_subtitle {
        content_h = content_h + SUBTITLE_HEIGHT;
    }
    if show_keybindings {
        content_h = content_h + GAP_HEIGHT;
        let reserve = content_h + if show_version { VERSION_HEIGHT } else { 0 };
        let remaining = available.saturating_sub(reserve);
        content_h = content_h + if KEYBINDING_COUNT < remaining { KEYBINDING_COUNT } else { remaining };
    }
    if show_version {
        content_h = content_h + VERSION_HEIGHT;
    }
    let top_pad = available.saturating_sub(content_h) / 2;
    let space_for_kb = available.saturating_sub(top_pad).saturating_sub(if show_logo { LOGO_HEIGHT } else { 0 }).saturating_sub(
        if show_subtitle { SUBTITLE_HEIGHT } else { 0 },
    ).saturating_sub(GAP_HEIGHT).saturating_sub(if show_version { VERSION_HEIGHT } else { 0 });
    let kb_count = if KEYBINDING_COUNT < space_for_kb { KEYBINDING_COUNT } else { space_for_kb };
    WelcomeLayout { top_pad, show_logo, show_subtitle, show_keybindings, kb_count, show_version }
}

/// Row `i` of the logo.
pub open spec fn logo_row(i: int) -> Seq<char> {
    if i == 0 {
        "███╗   ███╗██████╗ ████████╗"@
    } else if i == 1 {
        "████╗ ████║██╔══██╗╚══██╔══╝"@
    } else if i == 2 {
        "██╔████╔██║██║  ██║   ██║   "@
    } else if i == 3 {
        "██║╚██╔╝██║██║  ██║   ██║   "@
    } else if i == 4 {
        "██║ ╚═╝ ██║██████╔╝   ██║   "@
    } else {
        "╚═╝     ╚═╝╚═════╝    ╚═╝   "@
    }
}

/// Key binding `i` of the welcome screen: the key and what it does.
pub open spec fn keybinding(i: int) -> (Seq<char>, Seq<char>) {
    if i == 0 {
        ("Spc+e"@, "Open file tree"@)
    } else if i == 1 {
        ("Tab"@, "Toggle focus"@)
    } else if i == 2 {
        ("j/k"@, "Navigate files"@)
    } else if i == 3 {
        ("Enter"@, "Open file"@)
    } else if i == 4 {
        ("/"@, "Search"@)
    } else if i == 5 {
        ("?"@, "Help"@)
    } else {
        (":q"@, "Quit"@)
    }
}

/// `s` right-aligned in `w` columns (`{:>w}`).
pub open spec fn pad_left(s: Seq<char>, w: nat) -> Seq<char> {
    repeat(seq![' '], sat_sub(w, s.len())) + s
}

/// `s` left-aligned in `w` columns (`{:<w}`).
pub open spec fn pad_right(s: Seq<char>, w: nat) -> Seq<char> {
    s + repeat(seq![' '], sat_sub(w, s.len()))
}

/// A style with a foreground color and added modifiers.
pub open spec fn fg(c: Color, m: u16) -> Style {
    Style { fg: Some(c), bg: None, add_modifier: m, sub_modifier: 0 }
}

/// `n` blank rows.
pub open spec fn blank_rows(n: nat) -> Seq<Seq<(Seq<char>, Style)>> {
    Seq::new(n, |i: int| Seq::<(Seq<char>, Style)>::empty())
}

/// The row of key binding `i`.
pub open spec fn keybinding_row(i: int) -> Seq<(Seq<char>, Style)> {
    seq![
        (pad_left(keybinding(i).0, 7), fg(Color::Yellow, 0)),
        ("   "@, fg(Color::White, 0)),
        (pad_right(keybinding(i).1, 15), fg(Color::White, 0)),
    ]
}

/// The rows of the welcome screen for `available` rows: blank rows to
/// center it, the logo, the subtitle, the key bindings that fit, the
/// version, and the short name when the logo does not fit.
pub open spec fn welcome_rows(available: nat) -> Seq<Seq<(Seq<char>, Style)>> {
    let l = welcome_layout_spec(available);
    blank_rows(l.top_pad as nat)
        + (if l.show_logo { Seq::new(6, |i: int| seq![(logo_row(i), fg(Color::Cyan, BOLD))]) } else { Seq::empty() })
        + (if l.show_subtitle {
        blank_rows(1).push(seq![("Terminal Markdown Viewer"@, fg(Color::Gray, 0))])
    } else {
        Seq::empty()
    }) + (if l.show_keybindings {
        blank_rows(2) + Seq::new(l.kb_count as nat, |i: int| keybinding_row(i))
    } else {
        Seq::empty()
    }) + (if l.show_version {
        blank_rows(1).push(seq![("v0.1.0"@, fg(Color::DarkGray, 0))])
    } else {
        Seq::empty()
    }) + (if !l.show_logo { seq![seq![("mdt"@, fg(Color::Cyan, BOLD))]] } else { Seq::empty() })
}

/// The models of rows of spans.
pub open spec fn rows_view(rows: Seq<Vec<Span>>) -> Seq<Seq<(Seq<char>, Style)>> {
    rows.map_values(|r: Vec<Span>| spans_view(r@))
}

fn logo_row_exec(i: usize) -> (r: String)
    ensures
        r@ == logo_row(i as int),
{
    if i == 0 {
        lit("███╗   ███╗██████╗ ████████╗")
    } else if i == 1 {
        lit("████╗ ████║██╔══██╗╚══██╔══╝")
    } else if i == 2 {
        lit("██╔████╔██║██║  ██║   ██║   ")
    } else if i == 3 {
        lit("██║╚██╔╝██║██║  ██║   ██║   ")
    } else if i == 4 {
        lit("██║ ╚═╝ ██║██████╔╝   ██║   ")
    } else {
        lit("╚═╝     ╚═╝╚═════╝    ╚═╝   ")
    }
}

fn keybinding_exec(i: usize) -> (r: (String, String))
    ensures
        r.0@ == keybinding(i as int).0,
        r.1@ == keybinding(i as int).1,
{
    if i == 0 {
        (lit("Spc+e"), lit("Open file tree"))
    } else if i == 1 {
        (lit("Tab"), lit("Toggle focus"))
    } else if i == 2 {
        (lit("j/k"), lit("Navigate files"))
    } else if i == 3 {
        (lit("Enter"), lit("Open file"))
    } else if i == 4 {
        (lit("/"), lit("Search"))
    } else if i == 5 {
        (lit("?"), lit("Help"))
    } else {
        (lit(":q"), lit("Quit"))
    }
}

fn fg_exec(c: Color, m: u16) -> (r: Style)
    ensures
        r == fg(c, m),
{
    Style { fg: Some(c), bg: None, add_modifier: m, sub_modifier: 0 }
}

/// `s` right-aligned in `w` columns.
pub fn pad_left_exec(s: &str, w: usize) -> (r: String)
    ensures
        r@ == pad_left(s@, w as nat),
{
    let n = s.unicode_len();
    let mut r = repeat_str(" ", w.saturating_sub(n));
    push_str(&mut r, s);
    proof {
        reveal_strlit(" ");
        assert(" "@ == seq![' ']);
    }
    r
}

/// `s` left-aligned in `w` columns.
pub fn pad_right_exec(s: &str, w: usize) -> (r: String)
    ensures
        r@ == pad_right(s@, w as nat),
{
    let n = s.unicode_len();
    let mut r = lit(s);
    let pad = repeat_str(" ", w.saturating_sub(n));
    push_str(&mut r, pad.as_str());
    proof {
        reveal_strlit(" ");
        assert(" "@ == seq![' ']);
    }
    r
}

/// Pushes `n` blank rows.
fn push_blank_rows(rows: &mut Vec<Vec<Span>>, n: usize)
    ensures
        rows_view(final(rows)@) == rows_view(old(rows)@) + blank_rows(n as nat),
{
    let ghost start = rows_view(rows@);
    let mut k: usize = 0;
    while k < n
        invariant
            k <= n,
            rows_view(rows@) == start + blank_rows(k as nat),
        decreases n - k,
    {
        let ghost before = rows_view(rows@);
        let empty: Vec<Span> = Vec::new();
        proof {
            assert(spans_view(empty@) =~= Seq::<(Seq<char>, Style)>::empty());
        }
        rows.push(empty);
        proof {
            assert(rows_view(rows@) =~= before.push(Seq::<(Seq<char>, Style)>::empty()));
            assert(blank_rows((k + 1) as nat) =~= blank_rows(k as nat).push(Seq::<(Seq<char>, Style)>::empty()));
        }
        k = k + 1;
    }
}

/// Pushes a row of one span.
fn push_one(rows: &mut Vec<Vec<Span>>, text: String, style: Style)
    ensures
        rows_view(final(rows)@) == rows_view(old(rows)@).push(seq![(text@, style)]),
{
    let ghost before = rows_view(rows@);
    let mut row: Vec<Span> = Vec::new();
    row.push(span(text, style));
    rows.push(row);
    proof {
        assert(spans_view(row@) =~= seq![(text@, style)]);
        assert(rows_view(rows@) =~= before.push(seq![(text@, style)]));
    }
}

/// The rows of the welcome screen for `available` rows.
pub fn welcome_lines(available: usize) -> (r: Vec<Vec<Span>>)
    ensures
        rows_view(r@) == welcome_rows(available as nat),
{
    let l = welcome_layout(available);
    let ghost lv = welcome_layout_spec(available as nat);
    let mut rows: Vec<Vec<Span>> = Vec::new();
    push_blank_rows(&mut rows, l.top_pad);
    let ghost a = rows_view(rows@);
    let ghost logo = Seq::new(6, |i: int| seq![(logo_row(i), fg(Color::Cyan, BOLD))]);
    if l.show_logo {
        let mut i: usize = 0;
        while i < LOGO_HEIGHT
            invariant
                i <= LOGO_HEIGHT,
                logo == Seq::new(6, |i: int| seq![(logo_row(i), fg(Color::Cyan, BOLD))]),
                rows_view(rows@) == a + logo.take(i as int),
            decreases LOGO_HEIGHT - i,
        {
            push_one(&mut rows, logo_row_exec(i), fg_exec(Color::Cyan, BOLD));
            proof {
                assert(logo.take(i + 1) =~= logo.take(i as int).push(logo[i as int]));
            }
            i = i + 1;
        }
        assert(logo.take(6) =~= logo);
    } else {
        assert(a + Seq::<Seq<(Seq<char>, Style)>>::empty() =~= a);
    }
    let ghost b = rows_view(rows@);
    if l.show_subtitle {
        push_blank_rows(&mut rows, 1);
        push_one(&mut rows, lit("Terminal Markdown Viewer"), fg_exec(Color::Gray, 0));
    } else {
        assert(b + Seq::<Seq<(Seq<char>, Style)>>::empty() =~= b);
    }
    let ghost c = rows_view(rows@);
    if l.show_keybindings {
        push_blank_rows(&mut rows, 2);
        let ghost c2 = rows_view(rows@);
        let ghost kb = Seq::new(lv.kb_count as nat, |i: int| keybinding_row(i));
        let mut i: usize = 0;
        while i < l.kb_count
            invariant
                i <= l.kb_count,
                l.kb_count == lv.kb_count,
                kb == Seq::new(lv.kb_count as nat, |i: int| keybinding_row(i)),
                rows_view(rows@) == c2 + kb.take(i as int),
            decreases l.kb_count - i,
        {
            let (key, desc) = keybinding_exec(i);
            let ghost before = rows_view(rows@);
            let mut row: Vec<Span> = Vec::new();
            row.push(span(pad_left_exec(key.as_str(), 7), fg_exec(Color::Yellow, 0)));
            row.push(span(lit("   "), fg_exec(Color::White, 0)));
            row.push(span(pad_right_exec(desc.as_str(), 15), fg_exec(Color::White, 0)));
            rows.push(row);
            proof {
                assert(spans_view(row@) =~= keybinding_row(i as int));
                assert(rows_view(rows@) =~= before.push(keybinding_row(i as int)));
                assert(kb.take(i + 1) =~= kb.take(i as int).push(kb[i as int]));
            }
            i = i + 1;
        }
        assert(kb.take(lv.kb_count as int) =~= kb);
        assert(c2 + kb == c + (blank_rows(2) + kb));
    } else {
        assert(c + Seq::<Seq<(Seq<char>, Style)>>::empty() =~= c);
    }
    let ghost d = rows_view(rows@);
    if l.show_version {
        push_blank_rows(&mut rows, 1);
        push_one(&mut rows, lit("v0.1.0"), fg_exec(Color::DarkGray, 0));
    } else {
        assert(d + Seq::<Seq<(Seq<char>, Style)>>::empty() =~= d);
    }
    let ghost e = rows_view(rows@);
    if !l.show_logo {
        push_one(&mut rows, lit("mdt"), fg_exec(Color::Cyan, BOLD));
    } else {
        assert(e + Seq::<Seq<(Seq<char>, Style)>>::empty() =~= e);
    }
    proof {
        assert(rows_view(rows@) =~= welcome_rows(available as nat));
    }
    rows
}

/// The UTF-8 length of a character.
pub open spec fn char_utf8_len(c: char) -> nat {
    if (c as u32) < 0x80 {
        1
    } else if (c as u32) < 0x800 {
        2
    } else if (c as u32) < 0x10000 {
        3
    } else {
        4
    }
}

/// The UTF-8 length of a text (`str::len`).
pub open spec fn utf8_len(s: Seq<char>) -> nat
    decreases s.len(),
{
    if s.len() == 0 {
        0
    } else {
        utf8_len(s.drop_last()) + char_utf8_len(s.last())
    }
}

/// `n`, or `usize::MAX` when it does not fit.
pub open spec fn cap(n: nat) -> usize {
    if n > usize::MAX {
        usize::MAX
    } else {
        n as usize
    }
}

/// Saturating addition of capped numbers caps the sum.
pub proof fn lemma_cap_add(a: nat, b: nat)
    ensures
        (if cap(a) + cap(b) > usize::MAX { usize::MAX as nat } else { (cap(a) + cap(b)) as nat }) == cap(a + b) as nat,
{
}

/// The UTF-8 length of `s`, at most `usize::MAX`.
pub fn utf8_len_exec(s: &str) -> (r: usize)
    ensures
        r == cap(utf8_len(s@)),
{
    let cs = crate::text::chars_of(s);
    let mut n: usize = 0;
    let mut i: usize = 0;
    while i < cs.len()
        invariant
            i <= cs.len(),
            cs@ == s@,
            n == cap(utf8_len(cs@.take(i as int))),
        decreases cs.len() - i,
    {
        let c = cs[i];
        let k: usize = if (c as u32) < 0x80 {
            1
        } else if (c as u32) < 0x800 {
            2
        } else if (c as u32) < 0x10000 {
            3
        } else {
            4
        };
        proof {
            assert(cs@.take(i + 1).drop_last() =~= cs@.take(i as int));
        }
        n = n.saturating_add(k);
        i = i + 1;
    }
    proof {
        assert(cs@.take(cs.len() as int) =~= cs@);
    }
    n
}

/// The centre of the status bar: the open file's name (with ` [+]` when
/// the editor has unsaved changes) and the status message.
pub open spec fn status_center(a: App) -> Seq<char> {
    let file_info = match a.document.current_file {
        Some(p) => name_or_empty(p@),
        None => Seq::empty(),
    };
    let dirty = if a.editor.is_dirty { " [+]"@ } else { Seq::empty() };
    if a.status_message@.len() > 0 {
        if file_info.len() == 0 {
            a.status_message@
        } else {
            file_info + dirty + " "@ + a.status_message@
        }
    } else if file_info.len() > 0 {
        file_info + dirty
    } else {
        Seq::empty()
    }
}

/// The right of the status bar: the line position, when a file is open
/// and shows lines.
pub open spec fn status_right(a: App) -> Seq<char> {
    if a.document.current_file is Some && a.document.rendered_lines@.len() > 0 {
        "Ln "@ + decimal(crate::document::sat_add_usize(a.document.scroll_offset, 1)) + "/"@ + decimal(a.document.rendered_lines@.len()) + " "@
    } else {
        Seq::empty()
    }
}

/// The status bar for a bar `width` columns wide: in Command and Search
/// mode the line being typed with a block cursor; otherwise the mode in
/// reverse video, the centre, and the line position pushed to the right
/// (by at least one space).
pub open spec fn status_bar_spec(a: App, width: nat) -> Seq<(Seq<char>, Style)> {
    if a.mode == AppMode::Command {
        seq![(":"@ + a.command_buffer@ + "█"@, fg_none())]
    } else if a.mode == AppMode::Search {
        seq![("/"@ + a.search.query@ + "█"@, fg_none())]
    } else {
        let mode = " "@ + mode_label_spec(a.mode) + " "@;
        let center = status_center(a);
        let right = status_right(a);
        let used = cap(utf8_len(mode) + utf8_len(center) + 1 + utf8_len(right));
        let padding: nat = if width > used { (width - used) as nat } else { 1 };
        seq![
            (mode, Style { fg: None, bg: None, add_modifier: crate::style::REVERSED, sub_modifier: 0 }),
            (" "@, fg_none()),
            (center, fg_none()),
            (repeat(seq![' '], padding), fg_none()),
            (right, fg_none()),
        ]
    }
}

/// The empty style.
pub open spec fn fg_none() -> Style {
    Style { fg: None, bg: None, add_modifier: 0, sub_modifier: 0 }
}

impl App {
    /// The status bar's spans for a bar `width` columns wide.
    pub fn status_bar(&self, width: u16) -> (r: Vec<Span>)
        ensures
            spans_view(r@) == status_bar_spec(*self, width as nat),
    {
        let none = Style { fg: None, bg: None, add_modifier: 0, sub_modifier: 0 };
        let mut out: Vec<Span> = Vec::new();
        if self.mode == AppMode::Command {
            let mut t = lit(":");
            push_str(&mut t, self.command_buffer.as_str());
            push_str(&mut t, "█");
            out.push(span(t, none));
            proof {
                assert(spans_view(out@) =~= status_bar_spec(*self, width as nat));
            }
            return out;
        }
        if self.mode == AppMode::Search {
            let mut t = lit("/");
            push_str(&mut t, self.search.query.as_str());
            push_str(&mut t, "█");
            out.push(span(t, none));
            proof {
                assert(spans_view(out@) =~= status_bar_spec(*self, width as nat));
            }
            return out;
        }
        let mut mode = lit(" ");
        let label = self.mode.label();
        push_str(&mut mode, label.as_str());
        push_str(&mut mode, " ");
        let file_info = match &self.document.current_file {
            Some(p) => match crate::paths::file_name_chars(p.as_str()) {
                Some(v) => crate::text::string_from_chars(&v),
                None => String::new(),
            },
            None => String::new(),
        };
        let status_empty = self.status_message.unicode_len() == 0;
        let info_empty = file_info.unicode_len() == 0;
        let mut center = String::new();
        if !status_empty {
            if info_empty {
                push_str(&mut center, self.status_message.as_str());
            } else {
                push_str(&mut center, file_info.as_str());
                if self.editor.is_dirty {
                    push_str(&mut center, " [+]");
                }
                push_str(&mut center, " ");
                push_str(&mut center, self.status_message.as_str());
            }
        } else if !info_empty {
            push_str(&mut center, file_info.as_str());
            if self.editor.is_dirty {
                push_str(&mut center, " [+]");
            }
        }
        proof {
            assert(center@ =~= status_center(*self)) by {
                if !status_empty && !info_empty && !self.editor.is_dirty {
                    assert(file_info@ + Seq::<char>::empty() =~= file_info@);
                }
                if status_empty && !info_empty && !self.editor.is_dirty {
                    assert(Seq::<char>::empty() + file_info@ =~= file_info@ + Seq::<char>::empty());
                }
            }
        }
        let mut right = String::new();
        if self.document.current_file.is_some() && self.document.rendered_lines.len() > 0 {
            push_str(&mut right, "Ln ");
            let a = decimal_string(self.document.scroll_offset.saturating_add(1) as u64);
            push_str(&mut right, a.as_str());
            push_str(&mut right, "/");
            let b = decimal_string(self.document.rendered_lines.len() as u64);
            push_str(&mut right, b.as_str());
            push_str(&mut right, " ");
        }
        let mode_len = utf8_len_exec(mode.as_str());
        let center_len = utf8_len_exec(center.as_str());
        let right_len = utf8_len_exec(right.as_str());
        let used = mode_len.saturating_add(center_len).saturating_add(1).saturating_add(right_len);
        let w = width as usize;
        let padding = if w > used { w - used } else { 1 };
        proof {
            lemma_cap_add(utf8_len(mode@), utf8_len(center@));
            lemma_cap_add(utf8_len(mode@) + utf8_len(center@), 1);
            lemma_cap_add(utf8_len(mode@) + utf8_len(center@) + 1, utf8_len(right@));
            assert(used == cap(utf8_len(mode@) + utf8_len(center@) + 1 + utf8_len(right@)));
        }
        out.push(span(mode, Style { fg: None, bg: None, add_modifier: crate::style::REVERSED, sub_modifier: 0 }));
        out.push(span(lit(" "), none));
        out.push(span(center, none));
        out.push(span(repeat_str(" ", padding), none));
        out.push(span(right, none));
        proof {
            reveal_strlit(" ");
            assert(" "@ == seq![' ']);
            assert(spans_view(out@) =~= status_bar_spec(*self, width as nat));
        }
        out
    }
}

/// The welcome screen degrades gracefully: on a screen of at least one
/// row it never takes more rows than there are.
pub proof fn law_welcome_fits(available: nat)
    requires
        1 <= available <= usize::MAX,
    ensures
        welcome_rows(available).len() <= available,
{
    let l = welcome_layout_spec(available);
    assert(blank_rows(l.top_pad as nat).len() == l.top_pad);
    assert(blank_rows(1).len() == 1);
    assert(blank_rows(2).len() == 2);
}

} // verus!
