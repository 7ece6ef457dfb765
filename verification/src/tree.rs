//! The file tree's index: each entry's id (its path relative to the root)
//! maps to its absolute path and whether it is a directory. The lists the
//! file finder and the file search show are drawn from it.

use crate::assoc::{
    assoc, distinct_keys, has_key, keep, lemma_assoc_get, lemma_assoc_insert_at, lemma_assoc_len, lemma_assoc_push, lemma_assoc_remove,
    lemma_assoc_update, lemma_keep,
};
use crate::document::{chars_lower, lower_chars};
use crate::order::{lemma_lt_irreflexive, lemma_lt_total, lemma_lt_transitive, seq_lt, str_lt};
use crate::paths::{file_name_chars, file_name_spec};
use crate::text::{push_char, chars_of, contains_seq, contains_vec, copy_string, lowercase_str, starts_with, str_eq, str_lowercase, string_from_chars};
use fuzzy_matcher::skim::SkimMatcherV2;
use fuzzy_matcher::FuzzyMatcher;
use vstd::prelude::*;

verus! {

/// One entry of the index.
pub struct PathEntry {
    pub rel: String,
    pub abs: String,
    pub is_dir: bool,
}

/// The key and value an entry stands for.
pub open spec fn entry_kv(e: PathEntry) -> (Seq<char>, (Seq<char>, bool)) {
    (e.rel@, (e.abs@, e.is_dir))
}

/// The pairs of a list of entries.
pub open spec fn kvs(es: Seq<PathEntry>) -> Seq<(Seq<char>, (Seq<char>, bool))> {
    es.map_values(|e: PathEntry| entry_kv(e))
}

/// The index: id to (absolute path, is a directory).
pub type PathMapView = Map<Seq<char>, (Seq<char>, bool)>;

/// The file tree's index, one entry per id.
pub struct PathMap {
    entries: Vec<PathEntry>,
}

/// The character sequences sort strictly increasing.
pub open spec fn sorted_seqs(ks: Seq<Seq<char>>) -> bool {
    forall|i: int, j: int| 0 <= i < j < ks.len() ==> seq_lt(ks[i], ks[j])
}

/// A list of (id, value) string pairs as character sequences.
pub open spec fn pair_views(r: Seq<(String, String)>) -> Seq<(Seq<char>, Seq<char>)> {
    r.map_values(|x: (String, String)| (x.0@, x.1@))
}

/// The ids of a list of (id, value) pairs.
pub open spec fn pair_ids(r: Seq<(String, String)>) -> Seq<Seq<char>> {
    r.map_values(|x: (String, String)| x.0@)
}

/// Ids that do not start with `prefix`.
pub open spec fn not_prefixed(prefix: Seq<char>) -> spec_fn(Seq<char>) -> bool {
    |k: Seq<char>| !starts_with(k, prefix)
}

/// The name shown for a file: its file name, or nothing.
pub open spec fn display_name(abs: Seq<char>) -> Seq<char> {
    match file_name_spec(abs) {
        Some(n) => n,
        None => Seq::empty(),
    }
}

/// The files a file search shows: id to file name, for files whose name
/// matches the query.
pub open spec fn search_map(m: PathMapView, query: Seq<char>) -> Map<Seq<char>, Seq<char>> {
    Map::new(
        |k: Seq<char>| m.contains_key(k) && !m[k].1 && name_matches(m[k].0, query),
        |k: Seq<char>| display_name(m[k].0),
    )
}

/// The files the finder shows for a query: id to absolute path, for files
/// whose id matches the query fuzzily.
pub open spec fn fuzzy_map(m: PathMapView, query: Seq<char>) -> Map<Seq<char>, Seq<char>> {
    Map::new(|k: Seq<char>| m.contains_key(k) && !m[k].1 && fuzzy_score(k, query) is Some, |k: Seq<char>| m[k].0)
}

/// The finder's list for `query`: each file once, as (id, absolute path);
/// for an empty query every file sorted by id, otherwise the files that
/// match fuzzily, best score first.
pub open spec fn finder_list(m: PathMapView, query: Seq<char>, r: Seq<(String, String)>) -> bool {
    &&& distinct_keys(pair_views(r))
    &&& query.len() == 0 ==> sorted_seqs(pair_ids(r)) && assoc(pair_views(r)) == file_map(m)
    &&& query.len() > 0 ==> assoc(pair_views(r)) == fuzzy_map(m, query)
    &&& query.len() > 0 ==> forall|i: int, j: int| 0 <= i < j < r.len() ==> fuzzy_score(r[i].0@, query).unwrap()
        >= fuzzy_score(r[j].0@, query).unwrap()
}

/// The files of an index, id to absolute path.
pub open spec fn file_map(m: PathMapView) -> Map<Seq<char>, Seq<char>> {
    Map::new(|k: Seq<char>| m.contains_key(k) && !m[k].1, |k: Seq<char>| m[k].0)
}

/// Inserting a key at its place keeps keys sorted.
proof fn lemma_sorted_insert(o: Seq<Seq<char>>, pos: int, kk: Seq<char>)
    requires
        sorted_seqs(o),
        0 <= pos <= o.len(),
        forall|a: int| 0 <= a < pos ==> seq_lt(o[a], kk),
        pos < o.len() ==> seq_lt(kk, o[pos]),
    ensures
        sorted_seqs(o.insert(pos, kk)),
{
    let n = o.insert(pos, kk);
    assert forall|i: int, j: int| 0 <= i < j < n.len() implies seq_lt(n[i], n[j]) by {
        if j < pos {
            assert(n[i] == o[i] && n[j] == o[j]);
        } else if j == pos {
            assert(n[i] == o[i]);
        } else if i < pos {
            assert(n[i] == o[i] && n[j] == o[j - 1]);
            lemma_lt_transitive(o[i], kk, o[pos]);
            if j - 1 > pos {
                lemma_lt_transitive(o[i], o[pos], o[j - 1]);
            }
        } else if i == pos {
            assert(n[j] == o[j - 1]);
            if j - 1 > pos {
                lemma_lt_transitive(kk, o[pos], o[j - 1]);
            }
        } else {
            assert(n[i] == o[i - 1] && n[j] == o[j - 1]);
        }
    }
}

/// The lower-cased file name of an absolute path contains the lower-cased
/// query.
pub open spec fn name_matches(abs: Seq<char>, query: Seq<char>) -> bool {
    contains_seq(str_lowercase(display_name(abs)), str_lowercase(query))
}

/// The score `SkimMatcherV2` gives `choice` for `pattern`, if it matches.
pub uninterp spec fn fuzzy_score(choice: Seq<char>, pattern: Seq<char>) -> Option<i64>;

/// `FuzzyMatcher::fuzzy_match` of `fuzzy-matcher`'s `SkimMatcherV2` with its
/// default settings: the score of `choice` for `pattern`, or none when it
/// does not match. The scoring is named, not stated.
#[verifier::external_body]
fn fuzzy_match(choice: &str, pattern: &str) -> (r: Option<i64>)
    ensures
        r == fuzzy_score(choice@, pattern@),
{
    SkimMatcherV2::default().fuzzy_match(choice, pattern)
}

impl PathMap {
    /// The index as a map.
    pub closed spec fn view(&self) -> PathMapView {
        assoc(kvs(self.entries@))
    }

    /// One entry per id.
    pub closed spec fn wf(&self) -> bool {
        distinct_keys(kvs(self.entries@))
    }

    /// An empty index.
    pub fn new() -> (r: Self)
        ensures
            r.wf(),
            r.view() == PathMapView::empty(),
    {
        let r = PathMap { entries: Vec::new() };
        assert(kvs(r.entries@) =~= Seq::<(Seq<char>, (Seq<char>, bool))>::empty());
        r
    }

    /// Number of entries.
    pub fn len(&self) -> (r: usize)
        requires
            self.wf(),
        ensures
            r == self.view().dom().len(),
    {
        proof {
            lemma_assoc_len(kvs(self.entries@));
        }
        self.entries.len()
    }

    fn find(&self, rel: &str) -> (r: Option<usize>)
        requires
            self.wf(),
        ensures
            match r {
                None => !self.view().contains_key(rel@),
                Some(i) => i < self.entries@.len() && self.entries@[i as int].rel@ == rel@
                    && self.view().contains_key(rel@)
                    && self.view()[rel@] == (self.entries@[i as int].abs@, self.entries@[i as int].is_dir),
            },
    {
        let ghost s = kvs(self.entries@);
        let mut i: usize = 0;
        while i < self.entries.len()
            invariant
                i <= self.entries@.len(),
                s == kvs(self.entries@),
                distinct_keys(s),
                forall|j: int| 0 <= j < i ==> self.entries@[j].rel@ != rel@,
            decreases self.entries.len() - i,
        {
            if str_eq(self.entries[i].rel.as_str(), rel) {
                proof {
                    lemma_assoc_get(s, rel@);
                    assert(s[i as int].0 == rel@);
                }
                return Some(i);
            }
            i = i + 1;
        }
        proof {
            lemma_assoc_get(s, rel@);
            if has_key(s, rel@) {
                let j = choose|j: int| 0 <= j < s.len() && s[j].0 == rel@;
                assert(self.entries@[j].rel@ == rel@);
            }
        }
        None
    }

    /// The absolute path and kind of `rel`, if indexed.
    pub fn get(&self, rel: &str) -> (r: Option<(String, bool)>)
        requires
            self.wf(),
        ensures
            match r {
                None => !self.view().contains_key(rel@),
                Some((abs, d)) => self.view().contains_key(rel@) && self.view()[rel@] == (abs@, d),
            },
    {
        match self.find(rel) {
            None => None,
            Some(i) => Some((copy_string(&self.entries[i].abs), self.entries[i].is_dir)),
        }
    }

    /// Sets the entry of `rel`.
    pub fn insert(&mut self, rel: String, abs: String, is_dir: bool)
        requires
            old(self).wf(),
        ensures
            final(self).wf(),
            final(self).view() == old(self).view().insert(rel@, (abs@, is_dir)),
    {
        let e = PathEntry { rel, abs, is_dir };
        let ghost s = kvs(self.entries@);
        match self.find(e.rel.as_str()) {
            Some(i) => {
                proof {
                    lemma_assoc_update(s, i as int, (e.abs@, e.is_dir));
                    assert(s[i as int].0 == e.rel@);
                }
                self.entries.set(i, e);
                assert(kvs(self.entries@) =~= s.update(i as int, (s[i as int].0, (e.abs@, e.is_dir))));
            },
            None => {
                proof {
                    lemma_assoc_get(s, e.rel@);
                    lemma_assoc_push(s, e.rel@, (e.abs@, e.is_dir));
                }
                self.entries.push(e);
                assert(kvs(self.entries@) =~= s.push(entry_kv(e)));
            },
        }
    }

    /// Adds an entry for `rel` unless it already has one.
    pub fn insert_if_absent(&mut self, rel: String, abs: String, is_dir: bool)
        requires
            old(self).wf(),
        ensures
            final(self).wf(),
            final(self).view() == if old(self).view().contains_key(rel@) {
                old(self).view()
            } else {
                old(self).view().insert(rel@, (abs@, is_dir))
            },
    {
        if self.find(rel.as_str()).is_none() {
            self.insert(rel, abs, is_dir);
        }
    }

    /// Drops the entry of `rel`, if any.
    pub fn remove(&mut self, rel: &str)
        requires
            old(self).wf(),
        ensures
            final(self).wf(),
            final(self).view() == old(self).view().remove(rel@),
    {
        let ghost s = kvs(self.entries@);
        match self.find(rel) {
            Some(i) => {
                proof {
                    lemma_assoc_remove(s, i as int);
                }
                self.entries.remove(i);
                assert(kvs(self.entries@) =~= s.remove(i as int));
            },
            None => {
                assert(self.view().remove(rel@) =~= self.view());
            },
        }
    }

    /// Drops every entry whose id starts with `prefix`.
    pub fn remove_with_prefix(&mut self, prefix: &str)
        requires
            old(self).wf(),
        ensures
            final(self).wf(),
            final(self).view() == old(self).view().restrict(
                old(self).view().dom().filter(not_prefixed(prefix@)),
            ),
    {
        let ghost s0 = kvs(self.entries@);
        let pv = chars_of(prefix);
        let mut rest: Vec<PathEntry> = Vec::new();
        std::mem::swap(&mut rest, &mut self.entries);
        let ghost mut i: int = 0;
        assert(kvs(rest@) =~= s0.skip(0));
        assert(s0.take(0) =~= Seq::<(Seq<char>, (Seq<char>, bool))>::empty());
        assert(kvs(self.entries@) =~= keep(s0.take(0), not_prefixed(prefix@)));
        while rest.len() > 0
            invariant
                0 <= i <= s0.len(),
                pv@ == prefix@,
                kvs(rest@) == s0.skip(i),
                kvs(self.entries@) == keep(s0.take(i), not_prefixed(prefix@)),
            decreases rest.len(),
        {
            let ghost before = rest@;
            assert(kvs(before).len() == before.len());
            let e = rest.remove(0);
            proof {
                assert(kvs(before)[0] == entry_kv(e));
                assert(s0.skip(i)[0] == entry_kv(e));
                assert(s0.take(i + 1).drop_last() =~= s0.take(i));
                assert(s0.take(i + 1).last() == entry_kv(e));
                assert(kvs(rest@) =~= kvs(before).skip(1));
                assert(s0.skip(i).skip(1) =~= s0.skip(i + 1));
                i = i + 1;
            }
            let rv = chars_of(e.rel.as_str());
            let starts = rv.len() >= pv.len() && prefix_of(&pv, &rv);
            proof {
                assert(starts == starts_with(e.rel@, prefix@));
                assert(not_prefixed(prefix@)(e.rel@) == !starts);
                assert(s0.take(i).drop_last() =~= s0.take(i - 1));
                assert(s0.take(i).last() == entry_kv(e));
                assert(keep(s0.take(i), not_prefixed(prefix@)) == if not_prefixed(prefix@)(e.rel@) {
                    keep(s0.take(i - 1), not_prefixed(prefix@)).push(entry_kv(e))
                } else {
                    keep(s0.take(i - 1), not_prefixed(prefix@))
                });
            }
            if !starts {
                let ghost kept0 = self.entries@;
                self.entries.push(e);
                assert(kvs(self.entries@) =~= kvs(kept0).push(entry_kv(e)));
            }
        }
        proof {
            assert(s0.take(s0.len() as int) =~= s0);
            lemma_keep(s0, not_prefixed(prefix@));
        }
    }

    /// The files of the index (not directories) as (id, absolute path),
    /// sorted by id.
    pub fn files_sorted(&self) -> (r: Vec<(String, String)>)
        requires
            self.wf(),
        ensures
            sorted_seqs(pair_ids(r@)),
            distinct_keys(pair_views(r@)),
            assoc(pair_views(r@)) == file_map(self.view()),
    {
        let ghost s = kvs(self.entries@);
        let mut out: Vec<(String, String)> = Vec::new();
        let mut i: usize = 0;
        proof {
            assert(s.take(0) =~= Seq::<(Seq<char>, (Seq<char>, bool))>::empty());
            assert(pair_views(out@) =~= Seq::<(Seq<char>, Seq<char>)>::empty());
            assert(pair_ids(out@) =~= Seq::<Seq<char>>::empty());
            assert(file_map(assoc(s.take(0))) =~= Map::<Seq<char>, Seq<char>>::empty());
        }
        while i < self.entries.len()
            invariant
                i <= self.entries@.len(),
                s == kvs(self.entries@),
                distinct_keys(s),
                sorted_seqs(pair_ids(out@)),
                distinct_keys(pair_views(out@)),
                assoc(pair_views(out@)) == file_map(assoc(s.take(i as int))),
            decreases self.entries.len() - i,
        {
            let ghost m0 = assoc(s.take(i as int));
            proof {
                assert(s.take(i + 1).drop_last() =~= s.take(i as int));
                assert(s.take(i + 1).last() == s[i as int]);
                assert(distinct_keys(s.take(i as int)));
                lemma_assoc_get(s.take(i as int), s[i as int].0);
                if has_key(s.take(i as int), s[i as int].0) {
                    let j = choose|j: int| 0 <= j < i && s.take(i as int)[j].0 == s[i as int].0;
                    assert(s[j].0 == s[i as int].0);
                }
                assert(!m0.contains_key(s[i as int].0));
            }
            if !self.entries[i].is_dir {
                let k = copy_string(&self.entries[i].rel);
                let v = copy_string(&self.entries[i].abs);
                let ghost before = out@;
                proof {
                    lemma_assoc_get(pair_views(before), k@);
                    assert(!has_key(pair_views(before), k@));
                    assert forall|a: int| 0 <= a < before.len() implies before[a].0@ != k@ by {
                        assert(pair_views(before)[a].0 == before[a].0@);
                    }
                }
                let pos = insert_sorted(&mut out, k, v);
                proof {
                    assert(pair_views(out@) =~= pair_views(before).insert(pos as int, (k@, v@)));
                    lemma_assoc_insert_at(pair_views(before), pos as int, (k@, v@));
                    assert(file_map(assoc(s.take(i + 1))) =~= file_map(m0).insert(k@, v@));
                }
            } else {
                proof {
                    assert(file_map(assoc(s.take(i + 1))) =~= file_map(m0));
                }
            }
            i = i + 1;
        }
        proof {
            assert(s.take(self.entries@.len() as int) =~= s);
        }
        out
    }
}

impl PathMap {
    /// The files whose file name, lower-cased, contains the lower-cased
    /// query, as (id, file name), sorted by id.
    pub fn file_search_results(&self, query: &str) -> (r: Vec<(String, String)>)
        requires
            self.wf(),
        ensures
            sorted_seqs(pair_ids(r@)),
            distinct_keys(pair_views(r@)),
            assoc(pair_views(r@)) == search_map(self.view(), query@),
    {
        let ghost s = kvs(self.entries@);
        let ql = lowercase_str(query);
        let qv = chars_of(ql.as_str());
        let mut out: Vec<(String, String)> = Vec::new();
        let mut i: usize = 0;
        proof {
            assert(s.take(0) =~= Seq::<(Seq<char>, (Seq<char>, bool))>::empty());
            assert(pair_views(out@) =~= Seq::<(Seq<char>, Seq<char>)>::empty());
            assert(pair_ids(out@) =~= Seq::<Seq<char>>::empty());
            assert(search_map(assoc(s.take(0)), query@) =~= Map::<Seq<char>, Seq<char>>::empty());
        }
        while i < self.entries.len()
            invariant
                i <= self.entries@.len(),
                s == kvs(self.entries@),
                qv@ == str_lowercase(query@),
                distinct_keys(s),
                sorted_seqs(pair_ids(out@)),
                distinct_keys(pair_views(out@)),
                assoc(pair_views(out@)) == search_map(assoc(s.take(i as int)), query@),
            decreases self.entries.len() - i,
        {
            let ghost m0 = assoc(s.take(i as int));
            proof {
                assert(s.take(i + 1).drop_last() =~= s.take(i as int));
                assert(s.take(i + 1).last() == s[i as int]);
                assert(distinct_keys(s.take(i as int)));
                lemma_assoc_get(s.take(i as int), s[i as int].0);
                if has_key(s.take(i as int), s[i as int].0) {
                    let j = choose|j: int| 0 <= j < i && s.take(i as int)[j].0 == s[i as int].0;
                    assert(s[j].0 == s[i as int].0);
                }
                assert(!m0.contains_key(s[i as int].0));
            }
            let mut hit = false;
            let mut name = String::new();
            if !self.entries[i].is_dir {
                name = match file_name_chars(self.entries[i].abs.as_str()) {
                    Some(n) => string_from_chars(&n),
                    None => String::new(),
                };
                let nl = lowercase_str(name.as_str());
                let nv = chars_of(nl.as_str());
                hit = contains_vec(&nv, &qv);
                proof {
                    assert(name@ == display_name(s[i as int].1.0));
                    assert(hit == name_matches(s[i as int].1.0, query@));
                }
            }
            if hit {
                let k = copy_string(&self.entries[i].rel);
                let ghost before = out@;
                proof {
                    lemma_assoc_get(pair_views(before), k@);
                    assert forall|a: int| 0 <= a < before.len() implies before[a].0@ != k@ by {
                        assert(pair_views(before)[a].0 == before[a].0@);
                    }
                }
                let ghost nm = name@;
                let pos = insert_sorted(&mut out, k, name);
                proof {
                    assert(pair_views(out@) =~= pair_views(before).insert(pos as int, (k@, nm)));
                    lemma_assoc_insert_at(pair_views(before), pos as int, (k@, nm));
                    assert(search_map(assoc(s.take(i + 1)), query@) =~= search_map(m0, query@).insert(k@, nm));
                }
            } else {
                proof {
                    assert(search_map(assoc(s.take(i + 1)), query@) =~= search_map(m0, query@));
                }
            }
            i = i + 1;
        }
        proof {
            assert(s.take(self.entries@.len() as int) =~= s);
        }
        out
    }

    /// The file finder's list for a query: every file sorted by id when the
    /// query is empty; otherwise the files whose id matches the query
    /// fuzzily, best score first (ties keep the index's order), as (id,
    /// absolute path).
    pub fn finder_results(&self, query: &str) -> (r: Vec<(String, String)>)
        requires
            self.wf(),
        ensures
            finder_list(self.view(), query@, r@),
    {
        if query.is_empty() {
            return self.files_sorted();
        }
        let ghost s = kvs(self.entries@);
        let mut out: Vec<(String, String)> = Vec::new();
        let mut scores: Vec<i64> = Vec::new();
        let mut i: usize = 0;
        proof {
            assert(s.take(0) =~= Seq::<(Seq<char>, (Seq<char>, bool))>::empty());
            assert(pair_views(out@) =~= Seq::<(Seq<char>, Seq<char>)>::empty());
            assert(fuzzy_map(assoc(s.take(0)), query@) =~= Map::<Seq<char>, Seq<char>>::empty());
        }
        while i < self.entries.len()
            invariant
                i <= self.entries@.len(),
                s == kvs(self.entries@),
                distinct_keys(s),
                scores@.len() == out@.len(),
                forall|a: int| 0 <= a < out@.len() ==> fuzzy_score(#[trigger] out@[a].0@, query@) == Some(scores@[a]),
                forall|a: int, b: int| 0 <= a < b < scores@.len() ==> scores@[a] >= scores@[b],
                distinct_keys(pair_views(out@)),
                assoc(pair_views(out@)) == fuzzy_map(assoc(s.take(i as int)), query@),
            decreases self.entries.len() - i,
        {
            let ghost m0 = assoc(s.take(i as int));
            proof {
                assert(s.take(i + 1).drop_last() =~= s.take(i as int));
                assert(s.take(i + 1).last() == s[i as int]);
                assert(distinct_keys(s.take(i as int)));
                lemma_assoc_get(s.take(i as int), s[i as int].0);
                if has_key(s.take(i as int), s[i as int].0) {
                    let j = choose|j: int| 0 <= j < i && s.take(i as int)[j].0 == s[i as int].0;
                    assert(s[j].0 == s[i as int].0);
                }
                assert(!m0.contains_key(s[i as int].0));
            }
            let score = if self.entries[i].is_dir { None } else { fuzzy_match(self.entries[i].rel.as_str(), query) };
            match score {
                Some(sc) => {
                    let k = copy_string(&self.entries[i].rel);
                    let v = copy_string(&self.entries[i].abs);
                    let mut pos: usize = 0;
                    while pos < scores.len() && scores[pos] >= sc
                        invariant
                            pos <= scores@.len(),
                            forall|a: int| 0 <= a < pos ==> scores@[a] >= sc,
                        decreases scores.len() - pos,
                    {
                        pos = pos + 1;
                    }
                    let ghost before = out@;
                    let ghost bs = scores@;
                    proof {
                        lemma_assoc_get(pair_views(before), k@);
                        assert(!has_key(pair_views(before), k@));
                    }
                    out.insert(pos, (k, v));
                    scores.insert(pos, sc);
                    proof {
                        assert(pair_views(out@) =~= pair_views(before).insert(pos as int, (k@, v@)));
                        lemma_assoc_insert_at(pair_views(before), pos as int, (k@, v@));
                        assert(fuzzy_map(assoc(s.take(i + 1)), query@) =~= fuzzy_map(m0, query@).insert(k@, v@));
                        assert forall|a: int| 0 <= a < out@.len() implies fuzzy_score(#[trigger] out@[a].0@, query@) == Some(scores@[a]) by {
                            if a < pos {
                                assert(out@[a] == before[a]);
                            } else if a > pos {
                                assert(out@[a] == before[a - 1]);
                            }
                        }
                        assert forall|a: int, b: int| 0 <= a < b < scores@.len() implies scores@[a] >= scores@[b] by {
                            if a < pos && b > pos {
                                assert(scores@[b] == bs[b - 1]);
                                assert(bs[a] >= bs[b - 1]);
                            } else if a == pos && b > pos {
                                assert(scores@[b] == bs[b - 1]);
                                assert(bs[pos as int] < sc);
                                if b - 1 > pos {
                                    assert(bs[pos as int] >= bs[b - 1]);
                                }
                            } else if a > pos {
                                assert(scores@[a] == bs[a - 1] && scores@[b] == bs[b - 1]);
                            } else if b < pos {
                                assert(scores@[a] == bs[a] && scores@[b] == bs[b]);
                            }
                        }
                    }
                },
                None => {
                    proof {
                        assert(fuzzy_map(assoc(s.take(i + 1)), query@) =~= fuzzy_map(m0, query@));
                    }
                },
            }
            i = i + 1;
        }
        proof {
            assert(s.take(self.entries@.len() as int) =~= s);
            assert forall|a: int, b: int| 0 <= a < b < out@.len() implies fuzzy_score(out@[a].0@, query@).unwrap()
                >= fuzzy_score(out@[b].0@, query@).unwrap() by {
                assert(fuzzy_score(out@[a].0@, query@) == Some(scores@[a]));
                assert(fuzzy_score(out@[b].0@, query@) == Some(scores@[b]));
            }
        }
        out
    }
}

/// Whether `p` begins `s` (both as characters), for `p` no longer than `s`.
fn prefix_of(p: &Vec<char>, s: &Vec<char>) -> (r: bool)
    requires
        p.len() <= s.len(),
    ensures
        r == starts_with(s@, p@),
{
    let mut i: usize = 0;
    while i < p.len()
        invariant
            i <= p.len() <= s.len(),
            forall|j: int| 0 <= j < i ==> p@[j] == s@[j],
        decreases p.len() - i,
    {
        if p[i] != s[i] {
            assert(s@.subrange(0, p@.len() as int)[i as int] != p@[i as int]);
            return false;
        }
        i = i + 1;
    }
    assert(s@.subrange(0, p@.len() as int) =~= p@);
    true
}

/// Inserts `(k, v)` into a list sorted by id, at its place; returns the
/// place.
pub fn insert_sorted(out: &mut Vec<(String, String)>, k: String, v: String) -> (pos: usize)
    requires
        sorted_seqs(pair_ids(old(out)@)),
        forall|a: int| 0 <= a < old(out)@.len() ==> old(out)@[a].0@ != k@,
    ensures
        pos <= old(out)@.len(),
        final(out)@ == old(out)@.insert(pos as int, (k, v)),
        sorted_seqs(pair_ids(final(out)@)),
{
    let mut pos: usize = 0;
    while pos < out.len() && str_lt(out[pos].0.as_str(), k.as_str())
        invariant
            pos <= out@.len(),
            *out == *old(out),
            forall|a: int| 0 <= a < pos ==> seq_lt(out@[a].0@, k@),
        decreases out.len() - pos,
    {
        pos = pos + 1;
    }
    let ghost o = pair_ids(out@);
    let ghost kk = k@;
    proof {
        if pos < out@.len() {
            assert(o[pos as int] != kk);
            lemma_lt_total(o[pos as int], kk);
        }
        assert forall|a: int| 0 <= a < pos implies seq_lt(o[a], kk) by {
            assert(o[a] == out@[a].0@);
        }
        lemma_sorted_insert(o, pos as int, kk);
    }
    let ghost before = out@;
    out.insert(pos, (k, v));
    proof {
        assert(pair_ids(out@) =~= o.insert(pos as int, kk));
    }
    pos
}

/// `Path::strip_prefix`: the rest of `p` after the components of `base`.
pub uninterp spec fn path_strip_prefix(p: Seq<char>, base: Seq<char>) -> Option<Seq<char>>;

/// `Path::parent`: `p` without its last component.
pub uninterp spec fn path_parent(p: Seq<char>) -> Option<Seq<char>>;

/// `Path::starts_with`: the components of `base` begin those of `p`.
pub uninterp spec fn path_starts_with(p: Seq<char>, base: Seq<char>) -> bool;

/// `Path`'s `==`: the two paths have the same components.
pub uninterp spec fn path_eq(a: Seq<char>, b: Seq<char>) -> bool;

/// `Path::join`: `rest` appended to `base` (or `rest` when it is absolute).
pub uninterp spec fn path_join(base: Seq<char>, rest: Seq<char>) -> Seq<char>;

/// `Path::strip_prefix` of std: what follows the components of `base` in
/// `p`, when they begin it. The result is named, not stated.
#[verifier::external_body]
pub(crate) fn strip_prefix_str(p: &str, base: &str) -> (r: Option<String>)
    ensures
        match r {
            None => path_strip_prefix(p@, base@) is None,
            Some(q) => path_strip_prefix(p@, base@) == Some(q@),
        },
{
    match std::path::Path::new(p).strip_prefix(base) {
        Ok(rest) => Some(rest.to_string_lossy().into_owned()),
        Err(_) => None,
    }
}

/// `Path::parent` of std: the path without its last component, none for
/// a root or an empty path. The parent is a strictly shorter prefix of the
/// text of `p`; which one is named, not stated.
#[verifier::external_body]
pub(crate) fn parent_str(p: &str) -> (r: Option<String>)
    ensures
        match r {
            None => path_parent(p@) is None,
            Some(q) => path_parent(p@) == Some(q@) && q@.len() < p@.len(),
        },
{
    match std::path::Path::new(p).parent() {
        Some(q) => Some(q.to_string_lossy().into_owned()),
        None => None,
    }
}

/// `Path::starts_with` of std: whether the components of `base` begin
/// those of `p`. Named, not stated.
#[verifier::external_body]
pub(crate) fn path_starts_with_str(p: &str, base: &str) -> (r: bool)
    ensures
        r == path_starts_with(p@, base@),
{
    std::path::Path::new(p).starts_with(base)
}

/// `==` on `std::path::Path`: equal components. Named, not stated.
#[verifier::external_body]
pub(crate) fn path_eq_str(a: &str, b: &str) -> (r: bool)
    ensures
        r == path_eq(a@, b@),
{
    std::path::Path::new(a) == std::path::Path::new(b)
}

/// `Path::join` of std: `rest` appended to `base`. Named, not stated.
#[verifier::external_body]
pub(crate) fn path_join_str(base: &str, rest: &str) -> (r: String)
    ensures
        r@ == path_join(base@, rest@),
{
    std::path::Path::new(base).join(rest).to_string_lossy().into_owned()
}

/// `s` with every backslash turned into a slash.
pub open spec fn slashes(s: Seq<char>) -> Seq<char> {
    s.map_values(|c: char| if c == '\\' { '/' } else { c })
}

/// The id of an absolute path: its path relative to the root (itself when
/// it is not under the root), with slashes.
pub open spec fn rel_spec(root: Seq<char>, abs: Seq<char>) -> Seq<char> {
    slashes(
        match path_strip_prefix(abs, root) {
            Some(r) => r,
            None => abs,
        },
    )
}

/// The id of an absolute path.
pub fn relative_path_str(root: &str, abs: &str) -> (r: String)
    ensures
        r@ == rel_spec(root@, abs@),
{
    let base = match strip_prefix_str(abs, root) {
        Some(r) => r,
        None => abs.to_string(),
    };
    let cs = chars_of(base.as_str());
    let mut out: Vec<char> = Vec::new();
    let mut i: usize = 0;
    while i < cs.len()
        invariant
            i <= cs.len(),
            out@ == slashes(cs@).take(i as int),
        decreases cs.len() - i,
    {
        out.push(if cs[i] == '\\' { '/' } else { cs[i] });
        i = i + 1;
        assert(out@ =~= slashes(cs@).take(i as int));
    }
    assert(slashes(cs@).take(cs.len() as int) =~= slashes(cs@));
    string_from_chars(&out)
}

/// The index after making sure every directory between the root and `p`
/// has an entry (walking up through at most `fuel` parents).
pub open spec fn parents_spec(m: PathMapView, p: Seq<char>, root: Seq<char>, fuel: nat) -> PathMapView
    decreases fuel,
{
    if fuel == 0 {
        m
    } else {
        match path_parent(p) {
            None => m,
            Some(q) => if path_eq(q, root) || !path_starts_with(q, root) {
                m
            } else {
                let k = rel_spec(root, q);
                let m1 = if m.contains_key(k) { m } else { m.insert(k, (q, true)) };
                parents_spec(m1, q, root, (fuel - 1) as nat)
            },
        }
    }
}

/// The index after a file or directory appeared at `abs`.
pub open spec fn add_spec(m: PathMapView, root: Seq<char>, abs: Seq<char>, is_dir: bool) -> PathMapView {
    parents_spec(m, abs, root, abs.len()).insert(rel_spec(root, abs), (abs, is_dir))
}

/// The index after the file or directory at `abs` disappeared.
pub open spec fn remove_spec(m: PathMapView, root: Seq<char>, abs: Seq<char>) -> PathMapView {
    let m1 = m.remove(rel_spec(root, abs));
    m1.restrict(m1.dom().filter(not_prefixed(rel_spec(root, abs).push('/'))))
}

/// The index after the file or directory at `old_abs` moved to `new_abs`.
pub open spec fn move_spec(m: PathMapView, root: Seq<char>, old_abs: Seq<char>, new_abs: Seq<char>, is_dir: bool) -> PathMapView {
    let old_rel = rel_spec(root, old_abs);
    let new_rel = rel_spec(root, new_abs);
    let m1 = m.remove(old_rel);
    let m2 = if is_dir {
        m1.restrict(m1.dom().filter(not_prefixed(old_rel.push('/')))).union_prefer_right(
            moved_map(m1, old_rel, new_rel, old_abs, new_abs),
        )
    } else {
        m1
    };
    parents_spec(m2, new_abs, root, new_abs.len()).insert(new_rel, (new_abs, is_dir))
}

impl PathMap {
    /// Adds a directory entry for every directory between the root and
    /// `abs` that has none.
    pub fn ensure_parent_dirs(&mut self, root: &str, abs: &str)
        requires
            old(self).wf(),
        ensures
            final(self).wf(),
            final(self).view() == parents_spec(old(self).view(), abs@, root@, abs@.len()),
    {
        let mut fuel: usize = abs.unicode_len();
        let mut cur: String = abs.to_string();
        assert(cur@ == abs@);
        while fuel > 0
            invariant
                self.wf(),
                parents_spec(self.view(), cur@, root@, fuel as nat) == parents_spec(old(self).view(), abs@, root@, abs@.len()),
            decreases fuel,
        {
            match parent_str(cur.as_str()) {
                None => {
                    return;
                },
                Some(q) => {
                    if path_eq_str(q.as_str(), root) || !path_starts_with_str(q.as_str(), root) {
                        return;
                    }
                    let k = relative_path_str(root, q.as_str());
                    let qc = copy_string(&q);
                    self.insert_if_absent(k, qc, true);
                    cur = q;
                    fuel = fuel - 1;
                },
            }
        }
    }

    /// After a file or directory appears at `abs`: its entry (and those of
    /// the directories above it) is added.
    pub fn refresh_add(&mut self, root: &str, abs: &str, is_dir: bool)
        requires
            old(self).wf(),
        ensures
            final(self).wf(),
            final(self).view() == add_spec(old(self).view(), root@, abs@, is_dir),
    {
        let rel = relative_path_str(root, abs);
        self.ensure_parent_dirs(root, abs);
        self.insert(rel, abs.to_string(), is_dir);
    }

    /// After the file or directory at `abs` disappears: its entry and the
    /// entries under it are dropped.
    pub fn refresh_remove(&mut self, root: &str, abs: &str)
        requires
            old(self).wf(),
        ensures
            final(self).wf(),
            final(self).view() == remove_spec(old(self).view(), root@, abs@),
    {
        let rel = relative_path_str(root, abs);
        self.remove(rel.as_str());
        let mut prefix = copy_string(&rel);
        crate::text::push_char(&mut prefix, '/');
        self.remove_with_prefix(prefix.as_str());
    }

    /// After the file or directory at `old_abs` moves to `new_abs`: the old
    /// entry goes; for a directory, every entry under it moves under the new
    /// id and path; the directories above the new path get entries; the new
    /// entry is added.
    pub fn refresh_move(&mut self, root: &str, old_abs: &str, new_abs: &str, is_dir: bool)
        requires
            old(self).wf(),
        ensures
            final(self).wf(),
            final(self).view() == move_spec(old(self).view(), root@, old_abs@, new_abs@, is_dir),
    {
        let old_rel = relative_path_str(root, old_abs);
        let new_rel = relative_path_str(root, new_abs);
        self.remove(old_rel.as_str());
        if is_dir {
            let ghost m1 = self.view();
            let mut prefix = copy_string(&old_rel);
            push_char(&mut prefix, '/');
            let pv = chars_of(prefix.as_str());
            let n = old_rel.unicode_len();
            let ghost s = kvs(self.entries@);
            let ghost ks = keep(s, prefixed(prefix@));
            proof {
                lemma_keep(s, prefixed(prefix@));
            }
            let mut updates: Vec<PathEntry> = Vec::new();
            let mut i: usize = 0;
            assert(s.take(0) =~= Seq::<(Seq<char>, (Seq<char>, bool))>::empty());
            while i < self.entries.len()
                invariant
                    i <= self.entries@.len(),
                    s == kvs(self.entries@),
                    pv@ == prefix@,
                    prefix@ == old_rel@.push('/'),
                    n == old_rel@.len(),
                    kvs(updates@) == moved_list(keep(s.take(i as int), prefixed(prefix@)), old_rel@, new_rel@, old_abs@, new_abs@),
                decreases self.entries.len() - i,
            {
                let ghost k0 = self.entries@[i as int].rel@;
                proof {
                    assert(s.take(i + 1).drop_last() =~= s.take(i as int));
                    assert(s.take(i + 1).last() == s[i as int]);
                }
                let rv = chars_of(self.entries[i].rel.as_str());
                let starts = rv.len() >= pv.len() && prefix_of(&pv, &rv);
                if starts {
                    let mut child = copy_string(&new_rel);
                    let mut j: usize = n;
                    while j < rv.len()
                        invariant
                            n <= j <= rv.len(),
                            rv@ == k0,
                            child@ == new_rel@ + k0.subrange(n as int, j as int),
                        decreases rv.len() - j,
                    {
                        push_char(&mut child, rv[j]);
                        j = j + 1;
                        assert(child@ =~= new_rel@ + k0.subrange(n as int, j as int));
                    }
                    assert(k0.subrange(n as int, k0.len() as int) =~= k0.skip(n as int));
                    let rest = match strip_prefix_str(self.entries[i].abs.as_str(), old_abs) {
                        Some(r) => r,
                        None => copy_string(&self.entries[i].abs),
                    };
                    let cabs = path_join_str(new_abs, rest.as_str());
                    let e = PathEntry { rel: child, abs: cabs, is_dir: self.entries[i].is_dir };
                    let ghost before = updates@;
                    updates.push(e);
                    assert(kvs(updates@) =~= kvs(before).push(entry_kv(e)));
                }
                i = i + 1;
            }
            proof {
                assert(s.take(self.entries@.len() as int) =~= s);
            }
            self.remove_with_prefix(prefix.as_str());
            let ghost base = self.view();
            let ghost us = kvs(updates@);
            let mut j: usize = 0;
            assert(us.take(0) =~= Seq::<(Seq<char>, (Seq<char>, bool))>::empty());
            assert(base.union_prefer_right(assoc(us.take(0))) =~= base);
            while j < updates.len()
                invariant
                    j <= updates@.len(),
                    us == kvs(updates@),
                    self.wf(),
                    self.view() == base.union_prefer_right(assoc(us.take(j as int))),
                decreases updates.len() - j,
            {
                assert(us.take(j + 1).drop_last() =~= us.take(j as int));
                assert(us.take(j + 1).last() == us[j as int]);
                let r = copy_string(&updates[j].rel);
                let a = copy_string(&updates[j].abs);
                self.insert(r, a, updates[j].is_dir);
                assert(self.view() =~= base.union_prefer_right(assoc(us.take(j + 1))));
                j = j + 1;
            }
            proof {
                assert(us.take(updates@.len() as int) =~= us);
                lemma_moved(s, old_rel@, new_rel@, old_abs@, new_abs@);
            }
        }
        self.ensure_parent_dirs(root, new_abs);
        self.insert(new_rel, new_abs.to_string(), is_dir);
    }
}

/// Ids that start with `prefix`.
pub open spec fn prefixed(prefix: Seq<char>) -> spec_fn(Seq<char>) -> bool {
    |k: Seq<char>| starts_with(k, prefix)
}

/// The new id of an entry under a moved directory.
pub open spec fn moved_id(k: Seq<char>, old_rel: Seq<char>, new_rel: Seq<char>) -> Seq<char> {
    new_rel + k.skip(old_rel.len() as int)
}

/// The new path of an entry under a moved directory.
pub open spec fn moved_abs(a: Seq<char>, old_abs: Seq<char>, new_abs: Seq<char>) -> Seq<char> {
    path_join(
        new_abs,
        match path_strip_prefix(a, old_abs) {
            Some(r) => r,
            None => a,
        },
    )
}

/// The entries under a moved directory, moved.
pub open spec fn moved_list(
    ks: Seq<(Seq<char>, (Seq<char>, bool))>,
    old_rel: Seq<char>,
    new_rel: Seq<char>,
    old_abs: Seq<char>,
    new_abs: Seq<char>,
) -> Seq<(Seq<char>, (Seq<char>, bool))> {
    ks.map_values(|kv: (Seq<char>, (Seq<char>, bool))| (moved_id(kv.0, old_rel, new_rel), (moved_abs(kv.1.0, old_abs, new_abs), kv.1.1)))
}

/// The entries under the directory `old_rel` of `m`, moved under `new_rel`.
pub open spec fn moved_map(m: PathMapView, old_rel: Seq<char>, new_rel: Seq<char>, old_abs: Seq<char>, new_abs: Seq<char>) -> PathMapView {
    Map::new(
        |k: Seq<char>| exists|k0: Seq<char>| m.contains_key(k0) && starts_with(k0, old_rel.push('/')) && k == moved_id(k0, old_rel, new_rel),
        |k: Seq<char>| (moved_abs(m[moved_source(m, old_rel, new_rel, k)].0, old_abs, new_abs), m[moved_source(m, old_rel, new_rel, k)].1),
    )
}

/// The entry under the moved directory that moves to `k`.
pub open spec fn moved_source(m: PathMapView, old_rel: Seq<char>, new_rel: Seq<char>, k: Seq<char>) -> Seq<char> {
    choose|k0: Seq<char>| m.contains_key(k0) && starts_with(k0, old_rel.push('/')) && k == moved_id(k0, old_rel, new_rel)
}

proof fn lemma_moved_id_injective(a: Seq<char>, b: Seq<char>, old_rel: Seq<char>, new_rel: Seq<char>)
    requires
        starts_with(a, old_rel.push('/')),
        starts_with(b, old_rel.push('/')),
        moved_id(a, old_rel, new_rel) == moved_id(b, old_rel, new_rel),
    ensures
        a == b,
{
    let n = old_rel.len() as int;
    assert(a.skip(n) =~= moved_id(a, old_rel, new_rel).skip(new_rel.len() as int));
    assert(b.skip(n) =~= moved_id(b, old_rel, new_rel).skip(new_rel.len() as int));
    assert(a.take(n) =~= old_rel.push('/').subrange(0, n));
    assert(b.take(n) =~= old_rel.push('/').subrange(0, n));
    assert(a =~= a.take(n) + a.skip(n));
    assert(b =~= b.take(n) + b.skip(n));
}

proof fn lemma_moved(
    s: Seq<(Seq<char>, (Seq<char>, bool))>,
    old_rel: Seq<char>,
    new_rel: Seq<char>,
    old_abs: Seq<char>,
    new_abs: Seq<char>,
)
    requires
        distinct_keys(s),
    ensures
        assoc(moved_list(keep(s, prefixed(old_rel.push('/'))), old_rel, new_rel, old_abs, new_abs)) == moved_map(
            assoc(s),
            old_rel,
            new_rel,
            old_abs,
            new_abs,
        ),
{
    let pre = old_rel.push('/');
    let ks = keep(s, prefixed(pre));
    let us = moved_list(ks, old_rel, new_rel, old_abs, new_abs);
    let m = assoc(s);
    lemma_keep(s, prefixed(pre));
    assert(assoc(ks) == m.restrict(m.dom().filter(prefixed(pre))));
    assert forall|i: int| 0 <= i < ks.len() implies #[trigger] starts_with(ks[i].0, pre) && m.contains_key(ks[i].0) && m[ks[i].0] == ks[i].1 by {
        assert(has_key(ks, ks[i].0));
        lemma_assoc_get(ks, ks[i].0);
    }
    assert(distinct_keys(us)) by {
        assert forall|i: int, j: int| 0 <= i < us.len() && 0 <= j < us.len() && i != j implies us[i].0 != us[j].0 by {
            assert(starts_with(ks[i].0, pre));
            assert(starts_with(ks[j].0, pre));
            if us[i].0 == us[j].0 {
                lemma_moved_id_injective(ks[i].0, ks[j].0, old_rel, new_rel);
            }
        }
    }
    let mm = moved_map(m, old_rel, new_rel, old_abs, new_abs);
    assert forall|k: Seq<char>| #[trigger] assoc(us).contains_key(k) == mm.contains_key(k) by {
        lemma_assoc_get(us, k);
        if has_key(us, k) {
            let i = choose|i: int| 0 <= i < us.len() && us[i].0 == k;
            assert(starts_with(ks[i].0, pre) && m.contains_key(ks[i].0));
        }
        if mm.contains_key(k) {
            let k0 = choose|k0: Seq<char>| m.contains_key(k0) && starts_with(k0, pre) && k == moved_id(k0, old_rel, new_rel);
            lemma_assoc_get(s, k0);
            assert(prefixed(pre)(k0));
            assert(has_key(ks, k0));
            let i = choose|i: int| 0 <= i < ks.len() && ks[i].0 == k0;
            assert(us[i].0 == k);
        }
    }
    assert forall|k: Seq<char>| #[trigger] assoc(us).contains_key(k) implies assoc(us)[k] == mm[k] by {
        lemma_assoc_get(us, k);
        let i = choose|i: int| 0 <= i < us.len() && us[i].0 == k;
        assert(starts_with(ks[i].0, pre) && m.contains_key(ks[i].0));
        assert(mm.contains_key(k));
        let k0 = moved_source(m, old_rel, new_rel, k);
        lemma_moved_id_injective(k0, ks[i].0, old_rel, new_rel);
        assert(m[ks[i].0] == ks[i].1);
        assert(mm[k] == (moved_abs(m[k0].0, old_abs, new_abs), m[k0].1));
        lemma_assoc_get(us, k);
        assert(assoc(us)[k] == us[i].1);
    }
    assert(assoc(us) =~= mm);
}

} // verus!

verus! {

/// The id of the directory holding the entry `k`: what precedes its last
/// slash, empty at the top.
pub open spec fn parent_id(k: Seq<char>) -> Seq<char>
    decreases k.len(),
{
    if k.len() == 0 {
        Seq::empty()
    } else if k.last() == '/' {
        k.drop_last()
    } else {
        parent_id(k.drop_last())
    }
}

/// The last component of an id: what follows its last slash.
pub open spec fn last_component(k: Seq<char>) -> Seq<char>
    decreases k.len(),
{
    if k.len() == 0 {
        Seq::empty()
    } else if k.last() == '/' {
        Seq::empty()
    } else {
        last_component(k.drop_last()).push(k.last())
    }
}

/// The parent id and the last component of an id.
pub fn split_id(k: &str) -> (r: (String, String))
    ensures
        r.0@ == parent_id(k@),
        r.1@ == last_component(k@),
{
    let cs = chars_of(k);
    let mut prefix = String::new();
    let mut parent = String::new();
    let mut name = String::new();
    let mut i: usize = 0;
    while i < cs.len()
        invariant
            i <= cs.len(),
            cs@ == k@,
            prefix@ == k@.take(i as int),
            parent@ == parent_id(k@.take(i as int)),
            name@ == last_component(k@.take(i as int)),
        decreases cs.len() - i,
    {
        let c = cs[i];
        proof {
            assert(k@.take(i + 1).drop_last() =~= k@.take(i as int));
            assert(k@.take(i + 1).last() == c);
        }
        if c == '/' {
            parent = copy_string(&prefix);
            name = String::new();
        } else {
            push_char(&mut name, c);
        }
        push_char(&mut prefix, c);
        proof {
            assert(prefix@ =~= k@.take(i + 1));
        }
        i = i + 1;
    }
    proof {
        assert(k@.take(cs.len() as int) =~= k@);
    }
    (parent, name)
}

impl PathMap {
    /// The entries directly under the directory `parent` (the top level
    /// for an empty id), as (id, name, is a directory): directories first,
    /// then by lower-cased name, entries that compare equal in index order.
    #[verifier::spinoff_prover]
    #[verifier::rlimit(40)]
    pub fn children(&self, parent: &str) -> (r: Vec<(String, String, bool)>)
        requires
            self.wf(),
        ensures
            crate::scan::entries_sorted(r@.map_values(|t: (String, String, bool)| (t.1@, t.2))),
            forall|i: int|
                0 <= i < r@.len() ==> {
                    &&& self.view().contains_key(#[trigger] r@[i].0@)
                    &&& parent_id(r@[i].0@) == parent@
                    &&& r@[i].1@ == last_component(r@[i].0@)
                    &&& self.view()[r@[i].0@].1 == r@[i].2
                },
            forall|k: Seq<char>|
                self.view().contains_key(k) && parent_id(k) == parent@ ==> exists|i: int|
                    0 <= i < r@.len() && #[trigger] r@[i].0@ == k,
            forall|i: int, j: int| 0 <= i < j < r@.len() ==> r@[i].0@ != r@[j].0@,
    {
        let ghost s = kvs(self.entries@);
        let mut out: Vec<(String, String, bool)> = Vec::new();
        let mut lows: Vec<String> = Vec::new();
        let ghost mut src: Seq<int> = Seq::empty();
        let mut i: usize = 0;
        while i < self.entries.len()
            invariant
                i <= self.entries@.len(),
                s == kvs(self.entries@),
                distinct_keys(s),
                lows@.len() == out@.len(),
                src.len() == out@.len(),
                forall|q: int| 0 <= q < out@.len() ==> #[trigger] lows@[q]@ == str_lowercase(out@[q].1@),
                crate::scan::entries_sorted(out@.map_values(|t: (String, String, bool)| (t.1@, t.2))),
                forall|q: int|
                    0 <= q < out@.len() ==> {
                        &&& 0 <= #[trigger] src[q] < i
                        &&& self.entries@[src[q]].rel@ == out@[q].0@
                        &&& self.entries@[src[q]].is_dir == out@[q].2
                        &&& parent_id(out@[q].0@) == parent@
                        &&& out@[q].1@ == last_component(out@[q].0@)
                    },
                forall|q1: int, q2: int| 0 <= q1 < q2 < out@.len() ==> src[q1] != src[q2],
                forall|j: int|
                    0 <= j < i && parent_id(#[trigger] self.entries@[j].rel@) == parent@ ==> exists|q: int|
                        0 <= q < out@.len() && src[q] == j,
            decreases self.entries@.len() - i,
        {
            let (pid, name) = split_id(self.entries[i].rel.as_str());
            if str_eq(pid.as_str(), parent) {
                let is_dir = self.entries[i].is_dir;
                let low = lowercase_str(name.as_str());
                let ghost x = (name@, is_dir);
                let ghost ov = out@.map_values(|t: (String, String, bool)| (t.1@, t.2));
                let mut p: usize = 0;
                while p < out.len() && !((is_dir && !out[p].2) || (is_dir == out[p].2 && str_lt(low.as_str(), lows[p].as_str())))
                    invariant
                        p <= out@.len(),
                        lows@.len() == out@.len(),
                        ov == out@.map_values(|t: (String, String, bool)| (t.1@, t.2)),
                        forall|q: int| 0 <= q < out@.len() ==> #[trigger] lows@[q]@ == str_lowercase(out@[q].1@),
                        low@ == str_lowercase(x.0),
                        x.1 == is_dir,
                        forall|q: int| 0 <= q < p ==> !crate::scan::entry_lt(x, #[trigger] ov[q]),
                    decreases out@.len() - p,
                {
                    assert(ov[p as int] == (out@[p as int].1@, out@[p as int].2));
                    p = p + 1;
                }
                proof {
                    if p < out@.len() {
                        assert(ov[p as int] == (out@[p as int].1@, out@[p as int].2));
                        assert(crate::scan::entry_lt(x, ov[p as int]));
                    }
                }
                let id = copy_string(&self.entries[i].rel);
                let ghost old_out = out@;
                let ghost old_lows = lows@;
                let ghost old_src = src;
                out.insert(p, (id, name, is_dir));
                lows.insert(p, low);
                proof {
                    src = src.insert(p as int, i as int);
                    let nv = out@.map_values(|t: (String, String, bool)| (t.1@, t.2));
                    assert(nv =~= ov.insert(p as int, x));
                    assert forall|q: int| 0 <= q < out@.len() implies #[trigger] lows@[q]@ == str_lowercase(out@[q].1@) by {
                        if q < p {
                            assert(out@[q] == old_out[q] && lows@[q] == old_lows[q]);
                        } else if q > p {
                            assert(out@[q] == old_out[q - 1] && lows@[q] == old_lows[q - 1]);
                        }
                    }
                    assert forall|a: int, b: int| 0 <= a < b < nv.len() implies !crate::scan::entry_lt(
                        #[trigger] nv[b],
                        #[trigger] nv[a],
                    ) by {
                        if b < p {
                            assert(nv[a] == ov[a] && nv[b] == ov[b]);
                        } else if b == p {
                            assert(nv[a] == ov[a]);
                            crate::scan::lemma_entry_lt_order(x, ov[a], x);
                        } else if a < p {
                            assert(nv[a] == ov[a] && nv[b] == ov[b - 1]);
                            crate::scan::lemma_entry_lt_order(ov[b - 1], ov[p as int], x);
                            crate::scan::lemma_entry_lt_order(ov[b - 1], x, ov[a]);
                            crate::scan::lemma_entry_lt_order(x, ov[p as int], ov[b - 1]);
                        } else if a == p {
                            assert(nv[b] == ov[b - 1]);
                            crate::scan::lemma_entry_lt_order(ov[b - 1], x, ov[p as int]);
                            crate::scan::lemma_entry_lt_order(x, ov[p as int], ov[b - 1]);
                        } else {
                            assert(nv[a] == ov[a - 1] && nv[b] == ov[b - 1]);
                        }
                    }
                    assert forall|q: int| 0 <= q < out@.len() implies {
                        &&& 0 <= #[trigger] src[q] < i + 1
                        &&& self.entries@[src[q]].rel@ == out@[q].0@
                        &&& self.entries@[src[q]].is_dir == out@[q].2
                        &&& parent_id(out@[q].0@) == parent@
                        &&& out@[q].1@ == last_component(out@[q].0@)
                    } by {
                        if q < p {
                            assert(out@[q] == old_out[q] && src[q] == old_src[q]);
                        } else if q > p {
                            assert(out@[q] == old_out[q - 1] && src[q] == old_src[q - 1]);
                        }
                    }
                    assert forall|q1: int, q2: int| 0 <= q1 < q2 < out@.len() implies src[q1] != src[q2] by {
                        if q1 != p && q2 != p {
                            let o1 = if q1 < p { q1 } else { q1 - 1 };
                            let o2 = if q2 < p { q2 } else { q2 - 1 };
                            assert(src[q1] == old_src[o1] && src[q2] == old_src[o2]);
                        } else if q1 == p {
                            assert(src[q2] == old_src[q2 - 1]);
                        } else {
                            assert(src[q1] == old_src[q1]);
                        }
                    }
                    assert forall|j: int|
                        0 <= j < i + 1 && parent_id(#[trigger] self.entries@[j].rel@) == parent@ implies exists|q: int|
                        0 <= q < out@.len() && src[q] == j by {
                        if j == i {
                            assert(src[p as int] == j);
                        } else {
                            let q0 = choose|q: int| 0 <= q < old_out.len() && old_src[q] == j;
                            if q0 < p {
                                assert(src[q0] == j);
                            } else {
                                assert(src[q0 + 1] == j);
                            }
                        }
                    }
                }
            } else {
                proof {
                    assert forall|j: int|
                        0 <= j < i + 1 && parent_id(#[trigger] self.entries@[j].rel@) == parent@ implies exists|q: int|
                        0 <= q < out@.len() && src[q] == j by {
                        if j == i {
                            assert(false);
                        }
                    }
                }
            }
            i = i + 1;
        }
        proof {
            assert forall|q: int| 0 <= q < out@.len() implies {
                &&& self.view().contains_key(#[trigger] out@[q].0@)
                &&& parent_id(out@[q].0@) == parent@
                &&& out@[q].1@ == last_component(out@[q].0@)
                &&& self.view()[out@[q].0@].1 == out@[q].2
            } by {
                lemma_assoc_get(s, out@[q].0@);
                assert(0 <= src[q] < self.entries@.len());
                assert(s[src[q]].0 == out@[q].0@);
            }
            assert forall|k: Seq<char>| self.view().contains_key(k) && parent_id(k) == parent@ implies exists|q: int|
                0 <= q < out@.len() && #[trigger] out@[q].0@ == k by {
                lemma_assoc_get(s, k);
                let j = choose|j: int| 0 <= j < s.len() && s[j].0 == k;
                assert(self.entries@[j].rel@ == k);
                let q = choose|q: int| 0 <= q < out@.len() && src[q] == j;
                assert(out@[q].0@ == k);
            }
            assert forall|a: int, b: int| 0 <= a < b < out@.len() implies out@[a].0@ != out@[b].0@ by {
                assert(s[src[a]].0 == out@[a].0@);
                assert(s[src[b]].0 == out@[b].0@);
            }
        }
        out
    }
}

/// Removing an entry undoes adding it: when `abs` was not indexed,
/// nothing was indexed under it, and the directories above it were
/// already indexed, adding it and then removing it gives back the index.
pub proof fn law_remove_undoes_add(m: PathMapView, root: Seq<char>, abs: Seq<char>, is_dir: bool)
    requires
        !m.contains_key(rel_spec(root, abs)),
        forall|k: Seq<char>| m.contains_key(k) ==> !starts_with(k, rel_spec(root, abs).push('/')),
        parents_spec(m, abs, root, abs.len()) == m,
    ensures
        remove_spec(add_spec(m, root, abs, is_dir), root, abs) == m,
{
    let rel = rel_spec(root, abs);
    let added = add_spec(m, root, abs, is_dir);
    let m1 = added.remove(rel);
    assert(m1 =~= m);
    let kept = m1.restrict(m1.dom().filter(not_prefixed(rel.push('/'))));
    assert(kept =~= m);
}

/// The parent id of a non-empty id is shorter.
pub proof fn lemma_parent_id_shorter(k: Seq<char>)
    ensures
        k.len() > 0 ==> parent_id(k).len() < k.len(),
    decreases k.len(),
{
    if k.len() > 0 && k.last() != '/' {
        lemma_parent_id_shorter(k.drop_last());
        if k.drop_last().len() == 0 {
            assert(parent_id(k.drop_last()).len() == 0);
        }
    }
}

/// The ids from the top-level ancestor of `k` down to `k` itself: the
/// tree widget's path to the entry.
pub open spec fn selection_path_spec(k: Seq<char>) -> Seq<Seq<char>>
    decreases k.len(),
{
    if parent_id(k).len() == 0 {
        seq![k]
    } else {
        proof {
            lemma_parent_id_shorter(k);
        }
        selection_path_spec(parent_id(k)).push(k)
    }
}

/// The tree widget's path to the entry `id`.
pub fn selection_path(id: &str) -> (r: Vec<String>)
    ensures
        r@.map_values(|s: String| s@) == selection_path_spec(id@),
    decreases id@.len(),
{
    let (parent, _) = split_id(id);
    if parent.unicode_len() == 0 {
        let r = vec![id.to_string()];
        proof {
            assert(r@.map_values(|s: String| s@) =~= seq![id@]);
        }
        r
    } else {
        proof {
            lemma_parent_id_shorter(id@);
        }
        let mut r = selection_path(parent.as_str());
        let ghost before = r@.map_values(|s: String| s@);
        r.push(id.to_string());
        proof {
            assert(r@.map_values(|s: String| s@) =~= before.push(id@));
        }
        r
    }
}

} // verus!
