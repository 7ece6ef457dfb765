//! Which entries of a scanned directory the file tree lists, and in which
//! order: hidden entries are skipped, directories are kept and files only
//! when named `.md`; directories come first, then names in lower-case
//! order.
//!
//! The caller reads the directories; it descends into the directories kept
//! here (to a fixed depth) and keeps a directory only when something under
//! it was kept ([`keeps_entry`]).

use crate::order::{lemma_lt_asymmetric, lemma_lt_irreflexive, lemma_lt_transitive, seq_lt, str_lt};
use crate::paths::{has_md_extension, has_md_extension_spec};
use crate::text::{lowercase_str, str_lowercase};
use vstd::prelude::*;

verus! {

/// How deep the file tree's scan descends.
pub const DIR_SCAN_MAX_DEPTH: u32 = 5;

/// Whether a listed entry stays in the tree once its directory was
/// scanned: a file always, a directory only when some entry under it
/// stayed (a directory without markdown files is left out).
pub fn keeps_entry(is_dir: bool, kept_below: bool) -> (r: bool)
    ensures
        r == (!is_dir || kept_below),
{
    !is_dir || kept_below
}

/// One entry of a directory listing: its name and whether it is a
/// directory or a regular file.
pub struct DirEntryInfo {
    pub name: String,
    pub is_dir: bool,
    pub is_file: bool,
}

/// The model of a listing entry.
pub open spec fn entry_view(e: DirEntryInfo) -> (Seq<char>, bool, bool) {
    (e.name@, e.is_dir, e.is_file)
}

/// The tree lists an entry: its name does not start with a dot, and it is
/// a directory, or a file named `.md`.
pub open spec fn listed(e: (Seq<char>, bool, bool)) -> bool {
    !(e.0.len() > 0 && e.0[0] == '.') && (e.1 || (e.2 && has_md_extension_spec(e.0)))
}

/// Name and kind of a listing entry.
pub open spec fn name_kind(e: (Seq<char>, bool, bool)) -> (Seq<char>, bool) {
    (e.0, e.1)
}

/// The entries the tree lists, as names and kinds, in listing order.
pub open spec fn listed_entries(es: Seq<DirEntryInfo>) -> Seq<(Seq<char>, bool)> {
    es.map_values(|e: DirEntryInfo| entry_view(e)).filter(|e: (Seq<char>, bool, bool)| listed(e)).map_values(
        |e: (Seq<char>, bool, bool)| name_kind(e),
    )
}

/// `a` sorts strictly before `b`: a directory before a file, otherwise by
/// lower-cased name.
pub open spec fn entry_lt(a: (Seq<char>, bool), b: (Seq<char>, bool)) -> bool {
    (a.1 && !b.1) || (a.1 == b.1 && seq_lt(str_lowercase(a.0), str_lowercase(b.0)))
}

/// No entry sorts strictly before one ahead of it.
pub open spec fn entries_sorted(s: Seq<(Seq<char>, bool)>) -> bool {
    forall|i: int, j: int| 0 <= i < j < s.len() ==> !entry_lt(#[trigger] s[j], #[trigger] s[i])
}

/// The order of entries is a strict order.
pub proof fn lemma_entry_lt_order(a: (Seq<char>, bool), b: (Seq<char>, bool), c: (Seq<char>, bool))
    ensures
        entry_lt(a, b) ==> !entry_lt(b, a),
        entry_lt(a, b) && entry_lt(b, c) ==> entry_lt(a, c),
{
    if entry_lt(a, b) && a.1 == b.1 {
        lemma_lt_asymmetric(str_lowercase(a.0), str_lowercase(b.0));
    }
    if entry_lt(a, b) && entry_lt(b, c) && a.1 == b.1 && b.1 == c.1 {
        lemma_lt_transitive(str_lowercase(a.0), str_lowercase(b.0), str_lowercase(c.0));
    }
}

/// The listed entries of a directory listing, directories first, then by
/// lower-cased name; entries that compare equal keep their listing order.
pub fn order_entries(entries: Vec<DirEntryInfo>) -> (r: Vec<(String, bool)>)
    ensures
        entries_sorted(r@.map_values(|p: (String, bool)| (p.0@, p.1))),
        r@.map_values(|p: (String, bool)| (p.0@, p.1)).to_multiset() == listed_entries(entries@).to_multiset(),
{
    let ghost ev = entries@.map_values(|e: DirEntryInfo| entry_view(e));
    let ghost lp = |e: (Seq<char>, bool, bool)| listed(e);
    let ghost nk = |e: (Seq<char>, bool, bool)| name_kind(e);
    let mut out: Vec<(String, bool)> = Vec::new();
    let mut lows: Vec<String> = Vec::new();
    let mut i: usize = 0;
    proof {
        assert(ev.take(0).filter(lp) =~= Seq::<(Seq<char>, bool, bool)>::empty());
        assert(ev.take(0).filter(lp).map_values(nk) =~= Seq::<(Seq<char>, bool)>::empty());
        assert(out@.map_values(|p: (String, bool)| (p.0@, p.1)) =~= Seq::<(Seq<char>, bool)>::empty());
        assert(out@.map_values(|p: (String, bool)| (p.0@, p.1)) == ev.take(0).filter(lp).map_values(nk));
    }
    while i < entries.len()
        invariant
            i <= entries.len(),
            ev == entries@.map_values(|e: DirEntryInfo| entry_view(e)),
            lp == (|e: (Seq<char>, bool, bool)| listed(e)),
            nk == (|e: (Seq<char>, bool, bool)| name_kind(e)),
            lows@.len() == out@.len(),
            forall|k: int| 0 <= k < out@.len() ==> #[trigger] lows@[k]@ == str_lowercase(out@[k].0@),
            entries_sorted(out@.map_values(|p: (String, bool)| (p.0@, p.1))),
            out@.map_values(|p: (String, bool)| (p.0@, p.1)).to_multiset() == ev.take(i as int).filter(lp).map_values(nk).to_multiset(),
        decreases entries.len() - i,
    {
        let e = &entries[i];
        let hidden = e.name.unicode_len() > 0 && e.name.as_str().get_char(0) == '.';
        let keep = !hidden && (e.is_dir || (e.is_file && has_md_extension(e.name.as_str())));
        proof {
            assert(ev.take(i + 1) =~= ev.take(i as int).push(ev[i as int]));
            ev.take(i as int).lemma_filter_push(ev[i as int], lp);
            assert(ev[i as int] == entry_view(entries@[i as int]));
            assert(keep == listed(ev[i as int]));
        }
        if keep {
            let low = lowercase_str(e.name.as_str());
            let is_dir = e.is_dir;
            let ghost x = (e.name@, is_dir);
            let ghost ov = out@.map_values(|p: (String, bool)| (p.0@, p.1));
            let mut p: usize = 0;
            while p < out.len() && !(
                (is_dir && !out[p].1) || (is_dir == out[p].1 && str_lt(low.as_str(), lows[p].as_str())))
                invariant
                    p <= out@.len(),
                    lows@.len() == out@.len(),
                    ov == out@.map_values(|p: (String, bool)| (p.0@, p.1)),
                    forall|k: int| 0 <= k < out@.len() ==> #[trigger] lows@[k]@ == str_lowercase(out@[k].0@),
                    low@ == str_lowercase(x.0),
                    x.1 == is_dir,
                    forall|k: int| 0 <= k < p ==> !entry_lt(x, #[trigger] ov[k]),
                decreases out@.len() - p,
            {
                assert(ov[p as int] == (out@[p as int].0@, out@[p as int].1));
                p = p + 1;
            }
            proof {
                if p < out@.len() {
                    assert(ov[p as int] == (out@[p as int].0@, out@[p as int].1));
                    assert(entry_lt(x, ov[p as int]));
                }
            }
            let name = crate::text::copy_string(&e.name);
            let ghost old_out = out@;
            let ghost old_lows = lows@;
            out.insert(p, (name, is_dir));
            lows.insert(p, low);
            proof {
                let nv = out@.map_values(|q: (String, bool)| (q.0@, q.1));
                assert(nv =~= ov.insert(p as int, x));
                assert forall|k: int| 0 <= k < out@.len() implies #[trigger] lows@[k]@ == str_lowercase(out@[k].0@) by {
                    if k < p {
                        assert(out@[k] == old_out[k] && lows@[k] == old_lows[k]);
                    } else if k == p {
                    } else {
                        assert(out@[k] == old_out[k - 1] && lows@[k] == old_lows[k - 1]);
                    }
                }
                assert forall|a: int, b: int| 0 <= a < b < nv.len() implies !entry_lt(#[trigger] nv[b], #[trigger] nv[a]) by {
                    if b < p {
                        assert(nv[a] == ov[a] && nv[b] == ov[b]);
                    } else if b == p {
                        assert(nv[a] == ov[a]);
                        lemma_entry_lt_order(x, ov[a], x);
                    } else if a < p {
                        assert(nv[a] == ov[a] && nv[b] == ov[b - 1]);
                        if p < b - 1 || p == b - 1 {
                            lemma_entry_lt_order(ov[b - 1], ov[p as int], x);
                            lemma_entry_lt_order(ov[b - 1], x, ov[a]);
                            lemma_entry_lt_order(x, ov[p as int], ov[b - 1]);
                        }
                    } else if a == p {
                        assert(nv[b] == ov[b - 1]);
                        lemma_entry_lt_order(ov[b - 1], x, ov[p as int]);
                        lemma_entry_lt_order(x, ov[p as int], ov[b - 1]);
                    } else {
                        assert(nv[a] == ov[a - 1] && nv[b] == ov[b - 1]);
                    }
                }
                assert(ev.take(i + 1).filter(lp) == ev.take(i as int).filter(lp).push(ev[i as int]));
                assert(ev.take(i as int).filter(lp).push(ev[i as int]).map_values(nk) =~= ev.take(i as int).filter(lp).map_values(
                    nk,
                ).push(x));
                vstd::seq_lib::to_multiset_insert(ov, p as int, x);
                vstd::seq_lib::to_multiset_build(ev.take(i as int).filter(lp).map_values(nk), x);
            }
        } else {
            proof {
                assert(ev.take(i + 1).filter(lp) == ev.take(i as int).filter(lp));
            }
        }
        i = i + 1;
    }
    proof {
        assert(ev.take(entries.len() as int) =~= ev);
    }
    out
}

} // verus!
