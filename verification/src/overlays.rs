//! What the overlays show: the window of a list that keeps the selection in
//! view, entries cut to the popup's width, popup sizes, and the texts of the
//! file-operation dialog.

use crate::renderer::LinkInfo;
use crate::session::{name_or_empty, App, FileOp, Overlay};
use crate::text::{display_width, lit, push_str, str_display_width};
use crate::tree::{path_strip_prefix, strip_prefix_str};
use vstd::prelude::*;

verus! {

/// `UnicodeWidthChar::width` of a character, zero for control characters.
pub uninterp spec fn char_width(c: char) -> nat;

/// `UnicodeWidthChar::width` from `unicode-width`, with `None` (control
/// characters) taken as zero. The width itself is named, not stated; it is
/// at most three columns (the widest entry of the crate's tables).
#[verifier::external_body]
fn char_width_exec(c: char) -> (r: usize)
    ensures
        r == char_width(c),
        r <= 3,
{
    unicode_width::UnicodeWidthChar::width(c).unwrap_or(0)
}

/// The first list row shown in a window of `visible` rows so that the
/// selected row is in view.
pub open spec fn window_start(selected: nat, visible: nat) -> nat {
    if selected >= visible {
        (selected - visible + 1) as nat
    } else {
        0
    }
}

/// The first list row shown in a window of `visible` rows.
pub fn list_window_start(selected: usize, visible: usize) -> (r: usize)
    requires
        visible > 0 || selected < usize::MAX,
    ensures
        r == window_start(selected as nat, visible as nat),
{
    if selected >= visible {
        selected - visible + 1
    } else {
        0
    }
}

/// How many characters of `s` fit in `max` columns, counted from the
/// start, the first character that does not fit ending the count.
pub open spec fn fitting_prefix(s: Seq<char>, max: nat, i: nat, width: nat) -> nat
    decreases s.len() - i,
{
    if i >= s.len() || width + char_width(s[i as int]) > max {
        i
    } else {
        fitting_prefix(s, max, i + 1, width + char_width(s[i as int]))
    }
}

/// An entry as shown in `max` columns: whole when it fits, otherwise as
/// many characters as fit in one column less, and an ellipsis.
pub open spec fn truncated(s: Seq<char>, max: nat) -> Seq<char> {
    if display_width(s) > max {
        s.take(fitting_prefix(s, crate::text::sat_sub(max, 1), 0, 0) as int).push('…')
    } else {
        s
    }
}

/// `s` cut to `max` columns, with an ellipsis when it was cut.
pub fn truncate_to_width(s: &str, max: usize) -> (r: String)
    ensures
        r@ == truncated(s@, max as nat),
{
    if str_display_width(s) <= max {
        return lit(s);
    }
    let cs = crate::text::chars_of(s);
    let limit = max.saturating_sub(1);
    let mut i: usize = 0;
    let mut width: usize = 0;
    while i < cs.len()
        invariant
            cs@ == s@,
            i <= cs.len(),
            width <= limit,
            fitting_prefix(s@, limit as nat, i as nat, width as nat) == fitting_prefix(s@, limit as nat, 0, 0),
        ensures
            i <= cs.len(),
            fitting_prefix(s@, limit as nat, i as nat, width as nat) == i,
            fitting_prefix(s@, limit as nat, i as nat, width as nat) == fitting_prefix(s@, limit as nat, 0, 0),
        decreases cs.len() - i,
    {
        let w = char_width_exec(cs[i]);
        if w > limit - width {
            break;
        }
        width = width + w;
        i = i + 1;
    }
    let mut out = String::new();
    let mut k: usize = 0;
    while k < i
        invariant
            cs@ == s@,
            k <= i <= cs.len(),
            out@ == s@.take(k as int),
        decreases i - k,
    {
        crate::text::push_char(&mut out, cs[k]);
        proof {
            assert(s@.take(k + 1) =~= s@.take(k as int).push(s@[k as int]));
        }
        k = k + 1;
    }
    crate::text::push_char(&mut out, '…');
    out
}

/// The smaller of two numbers.
pub open spec fn min_int(a: int, b: int) -> int {
    if a < b {
        a
    } else {
        b
    }
}

/// The larger of two numbers.
pub open spec fn max_int(a: int, b: int) -> int {
    if a > b {
        a
    } else {
        b
    }
}

/// The height of a list popup: the rows (at least one) and ten more, at
/// most three quarters of the screen (at least ten rows) and the screen
/// less four.
pub open spec fn popup_height_spec(rows: nat, area_height: u16) -> int {
    min_int(
        min_int(max_int(rows as int, 1) + 10, max_int((area_height * 3) / 4, 10)),
        crate::text::sat_sub(area_height as nat, 4) as int,
    )
}

/// The height of a list popup for `rows` entries on a screen of
/// `area_height` rows.
pub fn popup_height(rows: usize, area_height: u16) -> (r: u16)
    requires
        rows < 65526,
        area_height * 3 <= u16::MAX,
    ensures
        r == popup_height_spec(rows as nat, area_height),
{
    let content_rows: u16 = if rows > 1 { rows as u16 } else { 1 };
    let q: u16 = area_height * 3 / 4;
    let max_height: u16 = if q > 10 { q } else { 10 };
    let h: u16 = content_rows + 10;
    let h1 = if h < max_height { h } else { max_height };
    let room = area_height.saturating_sub(4);
    if h1 < room { h1 } else { room }
}

/// The content width of the link popup: the widest link text (twenty
/// without links), at least the query's length and fifteen, at most sixty.
pub open spec fn link_content_width(widths: Seq<nat>, query_len: nat) -> int {
    let widest: int = if widths.len() == 0 { 20 } else { max_of(widths) as int };
    min_int(max_int(widest, (query_len + 15) as int), 60)
}

/// The largest of some numbers (zero for none).
pub open spec fn max_of(s: Seq<nat>) -> nat
    decreases s.len(),
{
    if s.len() == 0 {
        0
    } else {
        let m = max_of(s.drop_last());
        if s.last() > m {
            s.last()
        } else {
            m
        }
    }
}

/// The display widths of the texts of some links.
pub open spec fn link_widths(links: Seq<LinkInfo>) -> Seq<nat> {
    links.map_values(|l: LinkInfo| display_width(l.display_text@))
}

/// The width of the link popup on a screen `area_width` columns wide.
pub fn link_popup_width(links: &Vec<LinkInfo>, query: &str, area_width: u16) -> (r: u16)
    ensures
        r == min_int(link_content_width(link_widths(links@), query@.len()) + 10, crate::text::sat_sub(area_width as nat, 4) as int),
{
    let mut widest: usize = 0;
    let mut i: usize = 0;
    while i < links.len()
        invariant
            i <= links.len(),
            widest == max_of(link_widths(links@).take(i as int)),
        decreases links.len() - i,
    {
        let w = str_display_width(links[i].display_text.as_str());
        proof {
            assert(link_widths(links@).take(i + 1).drop_last() =~= link_widths(links@).take(i as int));
        }
        if w > widest {
            widest = w;
        }
        i = i + 1;
    }
    proof {
        assert(link_widths(links@).take(links.len() as int) =~= link_widths(links@));
    }
    let base: usize = if links.len() == 0 { 20 } else { widest };
    let ql = query.unicode_len();
    let floor = if ql > 60 { 75 } else { ql + 15 };
    let cw: usize = if base > floor { base } else { floor };
    let cw: usize = if cw < 60 { cw } else { 60 };
    let want: u16 = cw as u16 + 10;
    let room = area_width.saturating_sub(4);
    if want < room { want } else { room }
}

/// The texts of the file-operation dialog: title, hint line, whether it
/// takes input, and the input's placeholder.
pub open spec fn dialog_texts(a: App, op: FileOp) -> (Seq<char>, Seq<char>, bool, Seq<char>) {
    match op {
        FileOp::CreateFile { parent_dir } => ("New File"@, "in "@ + dir_display(a, parent_dir@), true, "filename"@),
        FileOp::CreateDir { parent_dir } => ("New Directory"@, "in "@ + dir_display(a, parent_dir@), true, "dirname"@),
        FileOp::Rename { target, .. } => ("Rename"@, "current: "@ + name_or_empty(target@), true, "new name"@),
        FileOp::Delete { name, is_dir, .. } => (
            "Delete"@,
            "Delete "@ + (if is_dir { "directory"@ } else { "file"@ }) + " \""@ + name@ + "\"?"@,
            false,
            Seq::empty(),
        ),
        FileOp::Move { source, .. } => ("Move"@, "moving: "@ + name_or_empty(source@), true, "destination"@),
    }
}

/// A directory as the dialog names it: relative to the root with a slash,
/// `./` for the root itself.
pub open spec fn dir_display(a: App, dir: Seq<char>) -> Seq<char> {
    let rel = match path_strip_prefix(dir, a.root_path@) {
        Some(r) => r,
        None => dir,
    };
    if rel.len() == 0 {
        "./"@
    } else {
        rel + "/"@
    }
}

impl App {
    fn dir_display_exec(&self, dir: &str) -> (r: String)
        ensures
            r@ == dir_display(*self, dir@),
    {
        let rel = match strip_prefix_str(dir, self.root_path.as_str()) {
            Some(r) => r,
            None => lit(dir),
        };
        if rel.unicode_len() == 0 {
            lit("./")
        } else {
            let mut s = rel;
            push_str(&mut s, "/");
            s
        }
    }

    /// The texts of the open file-operation dialog, if one is open.
    pub fn file_op_dialog(&self) -> (r: Option<(String, String, bool, String)>)
        ensures
            match self.overlay {
                Overlay::FileOp(op) => r matches Some((t, h, i, p)) && dialog_texts(*self, op) == (t@, h@, i, p@),
                _ => r is None,
            },
    {
        match &self.overlay {
            Overlay::FileOp(op) => match op {
                FileOp::CreateFile { parent_dir } => {
                    let mut h = lit("in ");
                    let d = self.dir_display_exec(parent_dir.as_str());
                    push_str(&mut h, d.as_str());
                    Some((lit("New File"), h, true, lit("filename")))
                },
                FileOp::CreateDir { parent_dir } => {
                    let mut h = lit("in ");
                    let d = self.dir_display_exec(parent_dir.as_str());
                    push_str(&mut h, d.as_str());
                    Some((lit("New Directory"), h, true, lit("dirname")))
                },
                FileOp::Rename { target, .. } => {
                    let mut h = lit("current: ");
                    match crate::paths::file_name_chars(target.as_str()) {
                        Some(v) => crate::text::push_chars(&mut h, &v),
                        None => {},
                    }
                    proof {
                        assert(h@ =~= "current: "@ + name_or_empty(target@));
                    }
                    Some((lit("Rename"), h, true, lit("new name")))
                },
                FileOp::Delete { name, is_dir, .. } => {
                    let mut h = lit("Delete ");
                    if *is_dir {
                        push_str(&mut h, "directory");
                    } else {
                        push_str(&mut h, "file");
                    }
                    push_str(&mut h, " \"");
                    push_str(&mut h, name.as_str());
                    push_str(&mut h, "\"?");
                    Some((lit("Delete"), h, false, String::new()))
                },
                FileOp::Move { source, .. } => {
                    let mut h = lit("moving: ");
                    match crate::paths::file_name_chars(source.as_str()) {
                        Some(v) => crate::text::push_chars(&mut h, &v),
                        None => {},
                    }
                    proof {
                        assert(h@ =~= "moving: "@ + name_or_empty(source@));
                    }
                    Some((lit("Move"), h, true, lit("destination")))
                },
            },
            _ => None,
        }
    }
}

/// A rectangle of a popup.
pub struct Rect {
    pub x: u16,
    pub y: u16,
    pub width: u16,
    pub height: u16,
}

/// A popup of the given size centered in `area`, cut to fit it.
pub open spec fn centered_spec(width: u16, height: u16, area: Rect) -> Rect {
    let w = if width < area.width { width } else { area.width };
    let h = if height < area.height { height } else { area.height };
    Rect { x: (area.x + (area.width - w) / 2) as u16, y: (area.y + (area.height - h) / 2) as u16, width: w, height: h }
}

/// A popup of the given size centered in `area`, cut to fit it.
pub fn centered_rect(width: u16, height: u16, area: Rect) -> (r: Rect)
    requires
        area.x + area.width <= u16::MAX,
        area.y + area.height <= u16::MAX,
    ensures
        r == centered_spec(width, height, area),
        r.x + r.width <= area.x + area.width,
        r.y + r.height <= area.y + area.height,
{
    let w = if width < area.width { width } else { area.width };
    let h = if height < area.height { height } else { area.height };
    Rect { x: area.x + (area.width - w) / 2, y: area.y + (area.height - h) / 2, width: w, height: h }
}

} // verus!
