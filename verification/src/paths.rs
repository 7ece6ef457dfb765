//! Path names as text: the pieces between `/` separators, the file name, the
//! extension, and the name tests the file tree and the watcher apply.
//!
//! A path is modelled by its characters. `std::path::Path` splits a Unix
//! path at `/`, drops empty pieces and `.` pieces, and reads `..` as the
//! parent directory; its file name is the last piece unless that is `..`;
//! the extension of a file name is what follows its last `.`, unless that `.`
//! is the first character. Those documented rules are stated below as spec
//! functions and implemented here.

use crate::text::{eq_ignore_ascii_case, vec_eq_ignore_ascii_case, chars_of, lit, push_str, ends_with, starts_with};
use vstd::prelude::*;

verus! {

/// The pieces of `s` between occurrences of `sep`, empty ones included
/// (`str::split`).
pub open spec fn split_on(s: Seq<char>, sep: char) -> Seq<Seq<char>>
    decreases s.len(),
{
    if s.len() == 0 {
        seq![Seq::<char>::empty()]
    } else {
        let prev = split_on(s.drop_last(), sep);
        if s.last() == sep {
            prev.push(Seq::<char>::empty())
        } else {
            prev.update(prev.len() - 1, prev.last().push(s.last()))
        }
    }
}

/// A piece that names nothing: empty (a repeated or trailing `/`) or `.`.
pub open spec fn is_skipped_piece(p: Seq<char>) -> bool {
    p.len() == 0 || p == seq!['.']
}

/// The pieces that remain after dropping empty and `.` pieces, in order.
pub open spec fn kept_pieces(ps: Seq<Seq<char>>) -> Seq<Seq<char>>
    decreases ps.len(),
{
    if ps.len() == 0 {
        Seq::empty()
    } else if is_skipped_piece(ps.last()) {
        kept_pieces(ps.drop_last())
    } else {
        kept_pieces(ps.drop_last()).push(ps.last())
    }
}

/// The named components of a path.
pub open spec fn path_pieces(s: Seq<char>) -> Seq<Seq<char>> {
    kept_pieces(split_on(s, '/'))
}

/// `Path::file_name`: the last component, unless there is none or it is `..`.
pub open spec fn file_name_spec(s: Seq<char>) -> Option<Seq<char>> {
    let ps = path_pieces(s);
    if ps.len() == 0 || ps.last() == seq!['.', '.'] {
        None
    } else {
        Some(ps.last())
    }
}

/// `k` is the position of the last `.` in `name`.
pub open spec fn is_last_dot(name: Seq<char>, k: int) -> bool {
    &&& 0 <= k < name.len()
    &&& name[k] == '.'
    &&& forall|j: int| k < j < name.len() ==> name[j] != '.'
}

/// `Path::extension` of a file name: what follows its last `.`, when that
/// `.` exists and is not the first character.
pub open spec fn extension_spec(name: Seq<char>) -> Option<Seq<char>> {
    if exists|k: int| is_last_dot(name, k) && k > 0 {
        let k = choose|k: int| is_last_dot(name, k) && k > 0;
        Some(name.subrange(k + 1, name.len() as int))
    } else {
        None
    }
}

/// The path has a `..` component.
pub open spec fn has_dotdot(s: Seq<char>) -> bool {
    exists|i: int| 0 <= i < split_on(s, '/').len() && #[trigger] split_on(s, '/')[i] == seq!['.', '.']
}

/// The file name of a path ends in `.md`, in any ASCII case.
pub open spec fn has_md_extension_spec(s: Seq<char>) -> bool {
    match file_name_spec(s) {
        None => false,
        Some(name) => match extension_spec(name) {
            None => false,
            Some(e) => eq_ignore_ascii_case(e, seq!['m', 'd']),
        },
    }
}

/// The extension of `name` is `e`, in any ASCII case.
pub open spec fn extension_is(name: Seq<char>, e: Seq<char>) -> bool {
    match extension_spec(name) {
        None => false,
        Some(x) => eq_ignore_ascii_case(x, e),
    }
}

/// A watched path that the watcher drops: one with no file name, a dot-file,
/// an editor backup (`~`) or a vim swap file (`.swp`, `.swx`, any case).
pub open spec fn should_ignore_spec(s: Seq<char>) -> bool {
    match file_name_spec(s) {
        None => true,
        Some(name) => {
            ||| starts_with(name, seq!['.'])
            ||| ends_with(name, seq!['~'])
            ||| extension_is(name, seq!['s', 'w', 'p'])
            ||| extension_is(name, seq!['s', 'w', 'x'])
        },
    }
}

proof fn lemma_split_nonempty(s: Seq<char>, sep: char)
    ensures
        split_on(s, sep).len() >= 1,
    decreases s.len(),
{
    if s.len() > 0 {
        lemma_split_nonempty(s.drop_last(), sep);
    }
}

/// The pieces of `s` between `sep` characters.
pub fn split_chars(s: &Vec<char>, sep: char) -> (r: Vec<Vec<char>>)
    ensures
        r@.map_values(|p: Vec<char>| p@) == split_on(s@, sep),
{
    let mut done: Vec<Vec<char>> = Vec::new();
    let mut cur: Vec<char> = Vec::new();
    let mut i: usize = 0;
    while i < s.len()
        invariant
            i <= s.len(),
            done@.map_values(|p: Vec<char>| p@).push(cur@) == split_on(s@.take(i as int), sep),
        decreases s.len() - i,
    {
        let c = s[i];
        let ghost before = split_on(s@.take(i as int), sep);
        assert(s@.take(i + 1).drop_last() =~= s@.take(i as int));
        if c == sep {
            let mut fresh: Vec<char> = Vec::new();
            std::mem::swap(&mut fresh, &mut cur);
            done.push(fresh);
            assert(done@.map_values(|p: Vec<char>| p@) =~= before);
        } else {
            cur.push(c);
            assert(done@.map_values(|p: Vec<char>| p@).push(cur@) =~= before.update(
                before.len() - 1,
                before.last().push(c),
            ));
        }
        i = i + 1;
    }
    assert(s@.take(s.len() as int) =~= s@);
    done.push(cur);
    done
}

fn is_skipped_piece_exec(p: &Vec<char>) -> (r: bool)
    ensures
        r == is_skipped_piece(p@),
{
    if p.len() == 0 {
        true
    } else if p.len() == 1 && p[0] == '.' {
        assert(p@ =~= seq!['.']);
        true
    } else {
        assert(p@.len() != 1 ==> p@ != seq!['.']);
        false
    }
}

fn is_dotdot_exec(p: &Vec<char>) -> (r: bool)
    ensures
        r == (p@ == seq!['.', '.']),
{
    if p.len() == 2 && p[0] == '.' && p[1] == '.' {
        assert(p@ =~= seq!['.', '.']);
        true
    } else {
        assert(p@.len() != 2 ==> p@ != seq!['.', '.']);
        false
    }
}

/// The named components of the path `s`.
pub fn path_pieces_exec(s: &str) -> (r: Vec<Vec<char>>)
    ensures
        r@.map_values(|p: Vec<char>| p@) == path_pieces(s@),
{
    let cs = chars_of(s);
    let parts = split_chars(&cs, '/');
    let ghost ps = split_on(s@, '/');
    let mut out: Vec<Vec<char>> = Vec::new();
    let mut i: usize = 0;
    while i < parts.len()
        invariant
            i <= parts.len(),
            parts@.map_values(|p: Vec<char>| p@) == ps,
            out@.map_values(|p: Vec<char>| p@) == kept_pieces(ps.take(i as int)),
        decreases parts.len() - i,
    {
        assert(ps.take(i + 1).drop_last() =~= ps.take(i as int));
        assert(parts@[i as int]@ == ps[i as int]);
        if !is_skipped_piece_exec(&parts[i]) {
            out.push(parts[i].clone());
            assert(out@.map_values(|p: Vec<char>| p@) =~= kept_pieces(ps.take(i as int)).push(ps[i as int]));
        }
        i = i + 1;
    }
    assert(ps.take(parts.len() as int) =~= ps);
    out
}

/// The file name of the path `s` (`Path::file_name`), as characters.
pub fn file_name_chars(s: &str) -> (r: Option<Vec<char>>)
    ensures
        match r {
            None => file_name_spec(s@) is None,
            Some(v) => file_name_spec(s@) == Some(v@),
        },
{
    let ps = path_pieces_exec(s);
    if ps.len() == 0 {
        return None;
    }
    let last = ps.len() - 1;
    assert(ps@.map_values(|p: Vec<char>| p@)[last as int] == ps@[last as int]@);
    if is_dotdot_exec(&ps[last]) {
        None
    } else {
        Some(ps[last].clone())
    }
}

/// The position of the last `.` of `name` that is not its first character.
fn extension_start(name: &Vec<char>) -> (r: Option<usize>)
    ensures
        match r {
            None => extension_spec(name@) is None,
            Some(k) => k > 0 && is_last_dot(name@, k as int) && extension_spec(name@) == Some(
                name@.subrange(k + 1, name@.len() as int),
            ),
        },
{
    let mut i: usize = name.len();
    while i > 0
        invariant
            i <= name.len(),
            forall|j: int| i <= j < name.len() ==> name@[j] != '.',
        decreases i,
    {
        if name[i - 1] == '.' {
            let k = i - 1;
            assert(is_last_dot(name@, k as int));
            if k == 0 {
                assert forall|k2: int| is_last_dot(name@, k2) implies k2 == 0 by {
                    if k2 != 0 {
                        assert(name@[0] != '.');
                    }
                }
                return None;
            }
            proof {
                let c = choose|k2: int| is_last_dot(name@, k2) && k2 > 0;
                assert(is_last_dot(name@, c));
                if c < k {
                    assert(name@[k as int] != '.');
                }
                if c > k {
                    assert(name@[c] != '.');
                }
            }
            return Some(k);
        }
        i = i - 1;
    }
    assert forall|k2: int| !is_last_dot(name@, k2) by {
        if 0 <= k2 < name@.len() {
            assert(name@[k2] != '.');
        }
    }
    None
}

/// The extension of a file name (`Path::extension`), as characters.
pub fn extension_chars(name: &Vec<char>) -> (r: Option<Vec<char>>)
    ensures
        match r {
            None => extension_spec(name@) is None,
            Some(v) => extension_spec(name@) == Some(v@),
        },
{
    match extension_start(name) {
        None => None,
        Some(k) => {
            assert(k < name.len());
            let mut out: Vec<char> = Vec::new();
            let mut j: usize = k + 1;
            while j < name.len()
                invariant
                    k + 1 <= j <= name.len(),
                    out@ == name@.subrange(k + 1, j as int),
                decreases name.len() - j,
            {
                out.push(name[j]);
                j = j + 1;
                assert(out@ =~= name@.subrange(k + 1, j as int));
            }
            Some(out)
        },
    }
}

fn extension_is_exec(name: &Vec<char>, e: &str) -> (r: bool)
    ensures
        r == extension_is(name@, e@),
{
    match extension_chars(name) {
        None => false,
        Some(x) => {
            let ev = chars_of(e);
            vec_eq_ignore_ascii_case(&x, &ev)
        },
    }
}

/// Whether the file name of `name` ends in `.md`, in any ASCII case.
pub fn has_md_extension(name: &str) -> (r: bool)
    ensures
        r == has_md_extension_spec(name@),
{
    match file_name_chars(name) {
        None => false,
        Some(f) => {
            let r = extension_is_exec(&f, "md");
            proof {
                reveal_strlit("md");
            }
            r
        },
    }
}

/// Whether a watched path is one the watcher drops: no file name, a
/// dot-file, an editor backup ending in `~`, or a vim swap file.
pub fn should_ignore(path: &str) -> (r: bool)
    ensures
        r == should_ignore_spec(path@),
{
    match file_name_chars(path) {
        None => true,
        Some(name) => {
            let dot = name.len() > 0 && name[0] == '.';
            let tilde = name.len() > 0 && name[name.len() - 1] == '~';
            proof {
                if dot {
                    assert(name@.subrange(0, 1) =~= seq!['.']);
                } else if starts_with(name@, seq!['.']) {
                    assert(name@.subrange(0, 1)[0] == '.');
                }
                if tilde {
                    assert(name@.subrange(name@.len() - 1, name@.len() as int) =~= seq!['~']);
                } else if ends_with(name@, seq!['~']) {
                    assert(name@.subrange(name@.len() - 1, name@.len() as int)[0] == '~');
                }
            }
            let swp = extension_is_exec(&name, "swp");
            let swx = extension_is_exec(&name, "swx");
            proof {
                reveal_strlit("swp");
                reveal_strlit("swx");
            }
            dot || tilde || swp || swx
        },
    }
}

/// Whether the path has a `..` component.
pub fn contains_dotdot(input: &str) -> (r: bool)
    ensures
        r == has_dotdot(input@),
{
    let cs = chars_of(input);
    let parts = split_chars(&cs, '/');
    let ghost ps = split_on(input@, '/');
    let mut i: usize = 0;
    while i < parts.len()
        invariant
            i <= parts.len(),
            parts@.map_values(|p: Vec<char>| p@) == ps,
            ps == split_on(input@, '/'),
            forall|j: int| 0 <= j < i ==> ps[j] != seq!['.', '.'],
        decreases parts.len() - i,
    {
        assert(parts@[i as int]@ == ps[i as int]);
        if is_dotdot_exec(&parts[i]) {
            assert(split_on(input@, '/')[i as int] == seq!['.', '.']);
            return true;
        }
        i = i + 1;
    }
    false
}

/// Refuses a path typed by the user when it has a `..` component: the
/// error names the input.
pub fn reject_dotdot(input: &str) -> (r: Result<(), String>)
    ensures
        r is Ok <==> !has_dotdot(input@),
        r matches Err(msg) ==> msg@ == "path must not contain '..' components: "@ + input@,
{
    if contains_dotdot(input) {
        let mut msg = lit("path must not contain '..' components: ");
        push_str(&mut msg, input);
        Err(msg)
    } else {
        Ok(())
    }
}

} // verus!
