//! Character and string primitives shared by the renderer and the search code.
//!
//! Text is modelled by its view, a `Seq<char>`. Unicode segmentation, display
//! width and lower-casing come from `unicode-segmentation`, `unicode-width` and
//! std; their results are named below and the verified code speaks of those names.

use unicode_segmentation::UnicodeSegmentation;
use unicode_width::UnicodeWidthStr;
use vstd::prelude::*;

verus! {

/// The Unicode `White_Space` property (PropList.txt).
pub open spec fn is_ws_char(c: char) -> bool {
    ||| c == '\t'
    ||| c == '\n'
    ||| c == '\u{0B}'
    ||| c == '\u{0C}'
    ||| c == '\r'
    ||| c == ' '
    ||| c == '\u{85}'
    ||| c == '\u{A0}'
    ||| c == '\u{1680}'
    ||| ('\u{2000}' <= c && c <= '\u{200A}')
    ||| c == '\u{2028}'
    ||| c == '\u{2029}'
    ||| c == '\u{202F}'
    ||| c == '\u{205F}'
    ||| c == '\u{3000}'
}

/// Every character of `s` is white space (true of the empty sequence).
pub open spec fn all_ws(s: Seq<char>) -> bool {
    forall|i: int| 0 <= i < s.len() ==> is_ws_char(#[trigger] s[i])
}

/// `s` with its trailing white space removed (`str::trim_end`).
pub open spec fn trim_end(s: Seq<char>) -> Seq<char>
    decreases s.len(),
{
    if s.len() > 0 && is_ws_char(s.last()) {
        trim_end(s.drop_last())
    } else {
        s
    }
}

/// Concatenation of a sequence of character sequences.
pub open spec fn concat(parts: Seq<Seq<char>>) -> Seq<char>
    decreases parts.len(),
{
    if parts.len() == 0 {
        Seq::empty()
    } else {
        concat(parts.drop_last()) + parts.last()
    }
}

/// `n` copies of `s`, concatenated (`str::repeat`).
pub open spec fn repeat(s: Seq<char>, n: nat) -> Seq<char>
    decreases n,
{
    if n == 0 {
        Seq::empty()
    } else {
        repeat(s, (n - 1) as nat) + s
    }
}

/// The extended grapheme clusters of `s`, as `unicode-segmentation` splits them.
pub uninterp spec fn grapheme_clusters(s: Seq<char>) -> Seq<Seq<char>>;

/// The display width of `s` in terminal columns, as `unicode-width` measures it.
pub uninterp spec fn display_width(s: Seq<char>) -> nat;

/// The lower-case mapping of one character (`char::to_lowercase`).
pub uninterp spec fn char_lowercase(c: char) -> Seq<char>;

/// The lower-case mapping of a string (`str::to_lowercase`).
pub uninterp spec fn str_lowercase(s: Seq<char>) -> Seq<char>;

/// `char::is_whitespace`: true exactly for the characters with the Unicode
/// `White_Space` property.
#[verifier::external_body]
pub(crate) fn char_is_whitespace(c: char) -> (r: bool)
    ensures
        r == is_ws_char(c),
{
    c.is_whitespace()
}

/// `String::push`: appends one character.
#[verifier::external_body]
pub(crate) fn push_char(s: &mut String, c: char)
    ensures
        final(s)@ == old(s)@.push(c),
{
    s.push(c)
}

/// `UnicodeSegmentation::graphemes(s, true)` from `unicode-segmentation`:
/// the extended grapheme clusters of `s`. The clusters are non-empty and,
/// concatenated in order, give back `s` (they are the pieces between the
/// cluster boundaries of UAX #29). Which boundaries are chosen is not stated.
#[verifier::external_body]
pub(crate) fn graphemes_of(s: &str) -> (r: Vec<String>)
    ensures
        r@.map_values(|g: String| g@) == grapheme_clusters(s@),
        concat(r@.map_values(|g: String| g@)) == s@,
        forall|i: int| 0 <= i < r@.len() ==> #[trigger] r@[i]@.len() > 0,
{
    s.graphemes(true).map(|g| g.to_string()).collect()
}

/// `UnicodeWidthStr::width` from `unicode-width`: the display width of `s`
/// in columns. The empty string has width 0; the widths of other strings are
/// not stated here.
#[verifier::external_body]
pub(crate) fn str_display_width(s: &str) -> (r: usize)
    ensures
        r == display_width(s@),
        s@.len() == 0 ==> r == 0,
{
    UnicodeWidthStr::width(s)
}

/// `char::to_lowercase`, collected: the lower-case mapping of `c` (one to
/// three characters). Which characters they are is not stated.
#[verifier::external_body]
pub(crate) fn lowercase_char(c: char) -> (r: Vec<char>)
    ensures
        r@ == char_lowercase(c),
{
    c.to_lowercase().collect()
}

/// `str::to_lowercase`: the lower-case mapping of `s`. Which characters it
/// gives is not stated.
#[verifier::external_body]
pub(crate) fn lowercase_str(s: &str) -> (r: String)
    ensures
        r@ == str_lowercase(s@),
{
    s.to_lowercase()
}

/// The characters of `s`, in order.
pub fn chars_of(s: &str) -> (v: Vec<char>)
    ensures
        v@ == s@,
{
    let mut v: Vec<char> = Vec::new();
    for c in it: s.chars()
        invariant
            v@ == it.seq().take(it.index() as int),
    {
        v.push(c);
    }
    v
}

/// The string whose characters are `v`.
pub fn string_from_chars(v: &Vec<char>) -> (s: String)
    ensures
        s@ == v@,
{
    let mut s = String::new();
    let mut i: usize = 0;
    while i < v.len()
        invariant
            i <= v.len(),
            s@ == v@.take(i as int),
        decreases v.len() - i,
    {
        push_char(&mut s, v[i]);
        i = i + 1;
        assert(s@ =~= v@.take(i as int));
    }
    assert(v@.take(v.len() as int) =~= v@);
    s
}

/// Appends the characters of `v` to `s`.
pub fn push_chars(s: &mut String, v: &Vec<char>)
    ensures
        final(s)@ == old(s)@ + v@,
{
    let mut i: usize = 0;
    while i < v.len()
        invariant
            i <= v.len(),
            s@ == old(s)@ + v@.take(i as int),
        decreases v.len() - i,
    {
        push_char(s, v[i]);
        i = i + 1;
        assert(s@ =~= old(s)@ + v@.take(i as int));
    }
    assert(v@.take(v.len() as int) =~= v@);
}

/// Appends `s2` to `s`.
pub fn push_str(s: &mut String, s2: &str)
    ensures
        final(s)@ == old(s)@ + s2@,
{
    let v = chars_of(s2);
    push_chars(s, &v);
}

/// A copy of `s`.
pub fn copy_string(s: &String) -> (r: String)
    ensures
        r@ == s@,
{
    s.clone()
}

/// `n` copies of `s`, concatenated.
pub fn repeat_str(s: &str, n: usize) -> (r: String)
    ensures
        r@ == repeat(s@, n as nat),
{
    let mut r = String::new();
    let mut i: usize = 0;
    while i < n
        invariant
            i <= n,
            r@ == repeat(s@, i as nat),
        decreases n - i,
    {
        push_str(&mut r, s);
        i = i + 1;
    }
    r
}

/// `s` without its trailing white space.
pub fn trim_end_string(s: &String) -> (r: String)
    ensures
        r@ == trim_end(s@),
{
    let v = chars_of(s.as_str());
    let mut n: usize = v.len();
    assert(v@.take(v.len() as int) =~= v@);
    while n > 0 && char_is_whitespace(v[n - 1])
        invariant
            n <= v.len(),
            trim_end(v@) == trim_end(v@.take(n as int)),
        decreases n,
    {
        assert(v@.take(n as int).drop_last() =~= v@.take(n - 1));
        n = n - 1;
    }
    assert(trim_end(v@.take(n as int)) == v@.take(n as int));
    let mut out: Vec<char> = Vec::new();
    let mut i: usize = 0;
    while i < n
        invariant
            i <= n <= v.len(),
            out@ == v@.take(i as int),
        decreases n - i,
    {
        out.push(v[i]);
        i = i + 1;
        assert(out@ =~= v@.take(i as int));
    }
    string_from_chars(&out)
}

/// Equality of two strings by their characters.
pub fn str_eq(a: &str, b: &str) -> (r: bool)
    ensures
        r == (a@ == b@),
{
    let va = chars_of(a);
    let vb = chars_of(b);
    if va.len() != vb.len() {
        return false;
    }
    let mut i: usize = 0;
    while i < va.len()
        invariant
            va@ == a@,
            vb@ == b@,
            va.len() == vb.len(),
            i <= va.len(),
            forall|j: int| 0 <= j < i ==> va@[j] == vb@[j],
        decreases va.len() - i,
    {
        if va[i] != vb[i] {
            assert(va@[i as int] != vb@[i as int]);
            assert(a@[i as int] != b@[i as int]);
            return false;
        }
        i = i + 1;
    }
    assert(va@ =~= vb@);
    true
}

/// `needle` occurs in `hay` starting at position `i`.
pub open spec fn occurs_at(hay: Seq<char>, needle: Seq<char>, i: int) -> bool {
    0 <= i && i + needle.len() <= hay.len() && hay.subrange(i, i + needle.len()) == needle
}

/// `needle` occurs somewhere in `hay` (`str::contains`).
pub open spec fn contains_seq(hay: Seq<char>, needle: Seq<char>) -> bool {
    exists|i: int| occurs_at(hay, needle, i)
}

/// Whether `needle` occurs in `hay` at position `i` (vectors of characters).
pub fn occurs_at_vec(hay: &Vec<char>, needle: &Vec<char>, i: usize) -> (r: bool)
    ensures
        r == occurs_at(hay@, needle@, i as int),
{
    if i > hay.len() || needle.len() > hay.len() - i {
        return false;
    }
    let mut k: usize = 0;
    while k < needle.len()
        invariant
            i + needle.len() <= hay.len(),
            k <= needle.len(),
            forall|j: int| 0 <= j < k ==> hay@[i + j] == needle@[j],
        decreases needle.len() - k,
    {
        if hay[i + k] != needle[k] {
            assert(hay@.subrange(i as int, i + needle.len())[k as int] != needle@[k as int]);
            return false;
        }
        k = k + 1;
    }
    assert(hay@.subrange(i as int, i + needle.len()) =~= needle@);
    true
}

/// Whether `needle` occurs in `hay` (vectors of characters).
pub fn contains_vec(hay: &Vec<char>, needle: &Vec<char>) -> (r: bool)
    ensures
        r == contains_seq(hay@, needle@),
{
    let mut i: usize = 0;
    while i < hay.len()
        invariant
            i <= hay.len(),
            forall|j: int| 0 <= j < i ==> !occurs_at(hay@, needle@, j),
        decreases hay.len() - i,
    {
        if occurs_at_vec(hay, needle, i) {
            return true;
        }
        i = i + 1;
    }
    if occurs_at_vec(hay, needle, i) {
        return true;
    }
    assert forall|j: int| !occurs_at(hay@, needle@, j) by {
        if 0 <= j && j <= i {
        }
    }
    false
}

/// Whether `needle` occurs in `hay`.
pub fn str_contains(hay: &str, needle: &str) -> (r: bool)
    ensures
        r == contains_seq(hay@, needle@),
{
    let h = chars_of(hay);
    let n = chars_of(needle);
    contains_vec(&h, &n)
}

/// `s` starts with `p`.
pub open spec fn starts_with(s: Seq<char>, p: Seq<char>) -> bool {
    p.len() <= s.len() && s.subrange(0, p.len() as int) == p
}

/// `s` ends with `p`.
pub open spec fn ends_with(s: Seq<char>, p: Seq<char>) -> bool {
    p.len() <= s.len() && s.subrange(s.len() - p.len(), s.len() as int) == p
}

/// The code point of `c` after ASCII lower-casing (`char::to_ascii_lowercase`).
pub open spec fn ascii_lower(c: char) -> u32 {
    if 'A' <= c && c <= 'Z' {
        ((c as u32) + 32) as u32
    } else {
        c as u32
    }
}

/// `a` and `b` are equal up to ASCII case (`eq_ignore_ascii_case`).
pub open spec fn eq_ignore_ascii_case(a: Seq<char>, b: Seq<char>) -> bool {
    a.len() == b.len() && forall|i: int| 0 <= i < a.len() ==> ascii_lower(#[trigger] a[i]) == ascii_lower(b[i])
}

/// The code point of `c` after ASCII lower-casing.
pub fn ascii_lower_char(c: char) -> (r: u32)
    ensures
        r == ascii_lower(c),
{
    let u: u32 = c as u32;
    if 'A' <= c && c <= 'Z' {
        u + 32
    } else {
        u
    }
}

/// Whether `a` and `b` are equal up to ASCII case.
pub fn vec_eq_ignore_ascii_case(a: &Vec<char>, b: &Vec<char>) -> (r: bool)
    ensures
        r == eq_ignore_ascii_case(a@, b@),
{
    if a.len() != b.len() {
        return false;
    }
    let mut i: usize = 0;
    while i < a.len()
        invariant
            a.len() == b.len(),
            i <= a.len(),
            forall|j: int| 0 <= j < i ==> ascii_lower(#[trigger] a@[j]) == ascii_lower(b@[j]),
        decreases a.len() - i,
    {
        if ascii_lower_char(a[i]) != ascii_lower_char(b[i]) {
            return false;
        }
        i = i + 1;
    }
    true
}

/// An owned copy of a string slice (`str::to_string`).
pub fn lit(s: &str) -> (r: String)
    ensures
        r@ == s@,
{
    let mut r = String::new();
    push_str(&mut r, s);
    r
}

/// `a - b`, or zero when `b > a` (`usize::saturating_sub`).
pub open spec fn sat_sub(a: nat, b: nat) -> nat {
    if a >= b {
        (a - b) as nat
    } else {
        0
    }
}

/// `s` with its leading white space removed (`str::trim_start`).
pub open spec fn trim_start(s: Seq<char>) -> Seq<char>
    decreases s.len(),
{
    if s.len() > 0 && is_ws_char(s[0]) {
        trim_start(s.drop_first())
    } else {
        s
    }
}

/// `s` without leading and trailing white space (`str::trim`).
pub open spec fn trim(s: Seq<char>) -> Seq<char> {
    trim_start(trim_end(s))
}

/// `s` without leading and trailing white space.
pub fn trim_string(s: &String) -> (r: String)
    ensures
        r@ == trim(s@),
{
    let e = trim_end_string(s);
    let v = chars_of(e.as_str());
    let mut i: usize = 0;
    assert(v@.skip(0) =~= v@);
    while i < v.len() && char_is_whitespace(v[i])
        invariant
            i <= v.len(),
            v@ == e@,
            trim_start(v@) == trim_start(v@.skip(i as int)),
        decreases v.len() - i,
    {
        assert(v@.skip(i as int).drop_first() =~= v@.skip(i + 1));
        i = i + 1;
    }
    let mut out: Vec<char> = Vec::new();
    let start = i;
    while i < v.len()
        invariant
            start <= i <= v.len(),
            out@ == v@.subrange(start as int, i as int),
        decreases v.len() - i,
    {
        out.push(v[i]);
        i = i + 1;
        assert(out@ =~= v@.subrange(start as int, i as int));
    }
    assert(v@.subrange(start as int, v.len() as int) =~= v@.skip(start as int));
    string_from_chars(&out)
}

} // verus!
