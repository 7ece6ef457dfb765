//! Association lists with distinct keys, read as maps.

use vstd::prelude::*;

verus! {

/// The map an association list stands for (later pairs win).
pub open spec fn assoc<K, V>(s: Seq<(K, V)>) -> Map<K, V>
    decreases s.len(),
{
    if s.len() == 0 {
        Map::empty()
    } else {
        assoc(s.drop_last()).insert(s.last().0, s.last().1)
    }
}

/// No key occurs twice.
pub open spec fn distinct_keys<K, V>(s: Seq<(K, V)>) -> bool {
    forall|i: int, j: int| 0 <= i < s.len() && 0 <= j < s.len() && i != j ==> s[i].0 != s[j].0
}

/// `k` is the key of some pair.
pub open spec fn has_key<K, V>(s: Seq<(K, V)>, k: K) -> bool {
    exists|i: int| 0 <= i < s.len() && s[i].0 == k
}

pub proof fn lemma_assoc_get<K, V>(s: Seq<(K, V)>, k: K)
    requires
        distinct_keys(s),
    ensures
        assoc(s).contains_key(k) <==> has_key(s, k),
        forall|i: int| 0 <= i < s.len() && s[i].0 == k ==> assoc(s)[k] == s[i].1,
    decreases s.len(),
{
    if s.len() > 0 {
        let init = s.drop_last();
        lemma_assoc_get(init, k);
        if assoc(s).contains_key(k) && s.last().0 != k {
            let i = choose|i: int| 0 <= i < init.len() && init[i].0 == k;
            assert(s[i].0 == k);
        }
        if has_key(s, k) {
            let i = choose|i: int| 0 <= i < s.len() && s[i].0 == k;
            if i < s.len() - 1 {
                assert(init[i].0 == k);
            }
        }
        assert forall|i: int| 0 <= i < s.len() && s[i].0 == k implies assoc(s)[k] == s[i].1 by {
            if i < s.len() - 1 {
                assert(init[i] == s[i]);
                assert(s.last().0 != k);
            }
        }
    }
}

pub proof fn lemma_assoc_update<K, V>(s: Seq<(K, V)>, i: int, v: V)
    requires
        distinct_keys(s),
        0 <= i < s.len(),
    ensures
        distinct_keys(s.update(i, (s[i].0, v))),
        assoc(s.update(i, (s[i].0, v))) == assoc(s).insert(s[i].0, v),
{
    let s2 = s.update(i, (s[i].0, v));
    let k0 = s[i].0;
    assert forall|k: K| #[trigger] assoc(s2).contains_key(k) == assoc(s).insert(k0, v).contains_key(k) by {
        lemma_assoc_get(s, k);
        lemma_assoc_get(s2, k);
        if has_key(s, k) {
            let j = choose|j: int| 0 <= j < s.len() && s[j].0 == k;
            assert(s2[j].0 == k);
        }
        if has_key(s2, k) {
            let j = choose|j: int| 0 <= j < s2.len() && s2[j].0 == k;
            assert(s[j].0 == k);
        }
    }
    assert forall|k: K| #[trigger] assoc(s2).contains_key(k) implies assoc(s2)[k] == assoc(s).insert(k0, v)[k] by {
        lemma_assoc_get(s, k);
        lemma_assoc_get(s2, k);
        let j = choose|j: int| 0 <= j < s2.len() && s2[j].0 == k;
        if j != i {
            assert(s[j].0 == k);
        }
    }
    assert(assoc(s2) =~= assoc(s).insert(k0, v));
}

pub proof fn lemma_assoc_push<K, V>(s: Seq<(K, V)>, k: K, v: V)
    requires
        distinct_keys(s),
        !has_key(s, k),
    ensures
        distinct_keys(s.push((k, v))),
        assoc(s.push((k, v))) == assoc(s).insert(k, v),
{
    assert(s.push((k, v)).drop_last() =~= s);
    assert forall|i: int, j: int| 0 <= i < s.len() + 1 && 0 <= j < s.len() + 1 && i != j implies s.push((k, v))[i].0
        != s.push((k, v))[j].0 by {
        if i == s.len() {
            assert(s[j].0 != k);
        }
        if j == s.len() {
            assert(s[i].0 != k);
        }
    }
}

pub proof fn lemma_assoc_remove<K, V>(s: Seq<(K, V)>, i: int)
    requires
        distinct_keys(s),
        0 <= i < s.len(),
    ensures
        distinct_keys(s.remove(i)),
        assoc(s.remove(i)) == assoc(s).remove(s[i].0),
{
    let s2 = s.remove(i);
    let q = s[i].0;
    assert forall|a: int, b: int| 0 <= a < s2.len() && 0 <= b < s2.len() && a != b implies s2[a].0 != s2[b].0 by {
        let a1 = if a < i { a } else { a + 1 };
        let b1 = if b < i { b } else { b + 1 };
        assert(s2[a] == s[a1]);
        assert(s2[b] == s[b1]);
    }
    assert forall|k: K| #[trigger] assoc(s2).contains_key(k) == assoc(s).remove(q).contains_key(k) by {
        lemma_assoc_get(s, k);
        lemma_assoc_get(s2, k);
        if has_key(s2, k) {
            let j = choose|j: int| 0 <= j < s2.len() && s2[j].0 == k;
            let j1 = if j < i { j } else { j + 1 };
            assert(s2[j] == s[j1]);
        }
        if k != q && has_key(s, k) {
            let j = choose|j: int| 0 <= j < s.len() && s[j].0 == k;
            let j2 = if j < i { j } else { j - 1 };
            assert(s2[j2] == s[j]);
        }
    }
    assert forall|k: K| #[trigger] assoc(s2).contains_key(k) implies assoc(s2)[k] == assoc(s).remove(q)[k] by {
        lemma_assoc_get(s, k);
        lemma_assoc_get(s2, k);
        let j = choose|j: int| 0 <= j < s2.len() && s2[j].0 == k;
        let j1 = if j < i { j } else { j + 1 };
        assert(s2[j] == s[j1]);
    }
    assert(assoc(s2) =~= assoc(s).remove(q));
}

pub proof fn lemma_assoc_len<K, V>(s: Seq<(K, V)>)
    requires
        distinct_keys(s),
    ensures
        assoc(s).dom().finite(),
        assoc(s).dom().len() == s.len(),
    decreases s.len(),
{
    if s.len() > 0 {
        let init = s.drop_last();
        assert(distinct_keys(init));
        lemma_assoc_len(init);
        lemma_assoc_get(init, s.last().0);
        if has_key(init, s.last().0) {
            let j = choose|j: int| 0 <= j < init.len() && init[j].0 == s.last().0;
            assert(s[j].0 == s[s.len() - 1].0);
        }
    }
}

/// The pairs whose key satisfies `p`, in order.
pub open spec fn keep<K, V>(s: Seq<(K, V)>, p: spec_fn(K) -> bool) -> Seq<(K, V)>
    decreases s.len(),
{
    if s.len() == 0 {
        Seq::empty()
    } else if p(s.last().0) {
        keep(s.drop_last(), p).push(s.last())
    } else {
        keep(s.drop_last(), p)
    }
}

pub proof fn lemma_keep<K, V>(s: Seq<(K, V)>, p: spec_fn(K) -> bool)
    requires
        distinct_keys(s),
    ensures
        distinct_keys(keep(s, p)),
        assoc(keep(s, p)) == assoc(s).restrict(assoc(s).dom().filter(p)),
        forall|k: K| has_key(keep(s, p), k) <==> has_key(s, k) && p(k),
    decreases s.len(),
{
    if s.len() == 0 {
        assert(assoc(s).restrict(assoc(s).dom().filter(p)) =~= Map::<K, V>::empty());
    } else {
        let init = s.drop_last();
        let l = s.last();
        assert(distinct_keys(init));
        lemma_keep(init, p);
        let ki = keep(init, p);
        lemma_assoc_get(init, l.0);
        assert(!has_key(init, l.0)) by {
            if has_key(init, l.0) {
                let j = choose|j: int| 0 <= j < init.len() && init[j].0 == l.0;
                assert(s[j].0 == s[s.len() - 1].0);
            }
        }
        assert(!has_key(ki, l.0));
        if p(l.0) {
            lemma_assoc_push(ki, l.0, l.1);
            assert(s.last() == (l.0, l.1));
        }
        let m = assoc(s);
        assert(assoc(keep(s, p)) =~= m.restrict(m.dom().filter(p)));
        assert forall|k: K| has_key(keep(s, p), k) <==> has_key(s, k) && p(k) by {
            assert(has_key(ki, k) <==> has_key(init, k) && p(k));
            lemma_has_key_push(init, l, k);
            assert(init.push(l) =~= s);
            if p(l.0) {
                lemma_has_key_push(ki, l, k);
            }
        }
    }
}

pub proof fn lemma_has_key_push<K, V>(s: Seq<(K, V)>, e: (K, V), k: K)
    ensures
        has_key(s.push(e), k) <==> has_key(s, k) || e.0 == k,
{
    if has_key(s, k) {
        let j = choose|j: int| 0 <= j < s.len() && s[j].0 == k;
        assert(s.push(e)[j].0 == k);
    }
    if e.0 == k {
        assert(s.push(e)[s.len() as int].0 == k);
    }
    if has_key(s.push(e), k) {
        let j = choose|j: int| 0 <= j < s.len() + 1 && s.push(e)[j].0 == k;
        if j < s.len() {
            assert(s[j].0 == k);
        }
    }
}

pub proof fn lemma_assoc_insert_at<K, V>(s: Seq<(K, V)>, pos: int, x: (K, V))
    requires
        distinct_keys(s),
        !has_key(s, x.0),
        0 <= pos <= s.len(),
    ensures
        distinct_keys(s.insert(pos, x)),
        assoc(s.insert(pos, x)) == assoc(s).insert(x.0, x.1),
{
    let s2 = s.insert(pos, x);
    assert forall|a: int, b: int| 0 <= a < s2.len() && 0 <= b < s2.len() && a != b implies s2[a].0 != s2[b].0 by {
        if a != pos && b != pos {
            let a1 = if a < pos { a } else { a - 1 };
            let b1 = if b < pos { b } else { b - 1 };
            assert(s2[a] == s[a1]);
            assert(s2[b] == s[b1]);
        } else if a == pos {
            let b1 = if b < pos { b } else { b - 1 };
            assert(s2[b] == s[b1]);
        } else {
            let a1 = if a < pos { a } else { a - 1 };
            assert(s2[a] == s[a1]);
        }
    }
    assert forall|k: K| #[trigger] assoc(s2).contains_key(k) == assoc(s).insert(x.0, x.1).contains_key(k) by {
        lemma_assoc_get(s, k);
        lemma_assoc_get(s2, k);
        if has_key(s2, k) {
            let j = choose|j: int| 0 <= j < s2.len() && s2[j].0 == k;
            if j != pos {
                let j1 = if j < pos { j } else { j - 1 };
                assert(s2[j] == s[j1]);
            }
        }
        if has_key(s, k) {
            let j = choose|j: int| 0 <= j < s.len() && s[j].0 == k;
            let j2 = if j < pos { j } else { j + 1 };
            assert(s2[j2] == s[j]);
        }
        if k == x.0 {
            assert(s2[pos].0 == k);
        }
    }
    assert forall|k: K| #[trigger] assoc(s2).contains_key(k) implies assoc(s2)[k] == assoc(s).insert(x.0, x.1)[k] by {
        lemma_assoc_get(s, k);
        lemma_assoc_get(s2, k);
        let j = choose|j: int| 0 <= j < s2.len() && s2[j].0 == k;
        if j != pos {
            let j1 = if j < pos { j } else { j - 1 };
            assert(s2[j] == s[j1]);
        }
    }
    assert(assoc(s2) =~= assoc(s).insert(x.0, x.1));
}

} // verus!
