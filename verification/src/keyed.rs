//! Sequences of key/value pairs with unique keys, read as finite maps.
use vstd::prelude::*;
use vstd::relations::injective_on;
use vstd::set_lib::{lemma_int_range, lemma_len_subset, lemma_map_size, set_int_range};

verus! {

/// No element occurs twice.
pub open spec fn distinct<T>(s: Seq<T>) -> bool {
    forall|i: int, j: int| 0 <= i < s.len() && 0 <= j < s.len() && s[i] == s[j] ==> i == j
}

/// No key occurs twice in `s`.
pub open spec fn keys_unique<K, V>(s: Seq<(K, V)>) -> bool {
    forall|i: int, j: int|
        0 <= i < s.len() && 0 <= j < s.len() && #[trigger] s[i].0 == #[trigger] s[j].0 ==> i == j
}

/// `k` is the key of some pair of `s`.
pub open spec fn has_key<K, V>(s: Seq<(K, V)>, k: K) -> bool {
    exists|i: int| 0 <= i < s.len() && #[trigger] s[i].0 == k
}

/// The map that `s` stands for: each key to the value paired with it.
pub open spec fn seq_to_map<K, V>(s: Seq<(K, V)>) -> Map<K, V> {
    Map::new(
        |k: K| has_key(s, k),
        |k: K| s[choose|i: int| 0 <= i < s.len() && #[trigger] s[i].0 == k].1,
    )
}

/// The keys of `s`, in order.
pub open spec fn keys_of<K, V>(s: Seq<(K, V)>) -> Seq<K> {
    s.map_values(|e: (K, V)| e.0)
}

pub proof fn lemma_index<K, V>(s: Seq<(K, V)>, i: int)
    requires
        keys_unique(s),
        0 <= i < s.len(),
    ensures
        seq_to_map(s).contains_key(s[i].0),
        seq_to_map(s)[s[i].0] == s[i].1,
{
    let k = s[i].0;
    assert(has_key(s, k));
    let j = choose|j: int| 0 <= j < s.len() && #[trigger] s[j].0 == k;
    assert(s[j].0 == s[i].0);
}

pub proof fn lemma_absent<K, V>(s: Seq<(K, V)>, k: K)
    requires
        forall|i: int| 0 <= i < s.len() ==> #[trigger] s[i].0 != k,
    ensures
        !seq_to_map(s).contains_key(k),
{
}

pub proof fn lemma_empty<K, V>(s: Seq<(K, V)>)
    requires
        s.len() == 0,
    ensures
        keys_unique(s),
        seq_to_map(s) == Map::<K, V>::empty(),
{
    assert(seq_to_map(s) =~= Map::<K, V>::empty());
}

pub proof fn lemma_push<K, V>(s: Seq<(K, V)>, k: K, v: V)
    requires
        keys_unique(s),
        !has_key(s, k),
    ensures
        keys_unique(s.push((k, v))),
        seq_to_map(s.push((k, v))) == seq_to_map(s).insert(k, v),
{
    let t = s.push((k, v));
    assert forall|i: int, j: int|
        0 <= i < t.len() && 0 <= j < t.len() && #[trigger] t[i].0 == #[trigger] t[j].0 implies i
        == j by {
        if i < s.len() && j < s.len() {
            assert(s[i].0 == s[j].0);
        } else if i < s.len() {
            assert(s[i].0 == k);
        } else if j < s.len() {
            assert(s[j].0 == k);
        }
    }
    assert forall|q: K| #[trigger] seq_to_map(t).contains_key(q) == seq_to_map(s).insert(
        k,
        v,
    ).contains_key(q) by {
        if has_key(s, q) {
            let i = choose|i: int| 0 <= i < s.len() && #[trigger] s[i].0 == q;
            assert(t[i].0 == q);
        }
        if q == k {
            assert(t[s.len() as int].0 == q);
        }
        if has_key(t, q) && q != k {
            let i = choose|i: int| 0 <= i < t.len() && #[trigger] t[i].0 == q;
            assert(s[i].0 == q);
        }
    }
    assert forall|q: K| #[trigger] seq_to_map(t).contains_key(q) implies seq_to_map(t)[q]
        == seq_to_map(s).insert(k, v)[q] by {
        if q == k {
            lemma_index(t, s.len() as int);
        } else {
            let i = choose|i: int| 0 <= i < s.len() && #[trigger] s[i].0 == q;
            lemma_index(s, i);
            lemma_index(t, i);
        }
    }
    assert(seq_to_map(t) =~= seq_to_map(s).insert(k, v));
}

pub proof fn lemma_update<K, V>(s: Seq<(K, V)>, i: int, v: V)
    requires
        keys_unique(s),
        0 <= i < s.len(),
    ensures
        keys_unique(s.update(i, (s[i].0, v))),
        seq_to_map(s.update(i, (s[i].0, v))) == seq_to_map(s).insert(s[i].0, v),
{
    let k = s[i].0;
    let t = s.update(i, (k, v));
    assert forall|a: int, b: int|
        0 <= a < t.len() && 0 <= b < t.len() && #[trigger] t[a].0 == #[trigger] t[b].0 implies a
        == b by {
        assert(s[a].0 == t[a].0 && s[b].0 == t[b].0);
    }
    assert forall|q: K| #[trigger] seq_to_map(t).contains_key(q) == seq_to_map(s).insert(
        k,
        v,
    ).contains_key(q) by {
        if has_key(s, q) {
            let j = choose|j: int| 0 <= j < s.len() && #[trigger] s[j].0 == q;
            assert(t[j].0 == q);
        }
        if has_key(t, q) {
            let j = choose|j: int| 0 <= j < t.len() && #[trigger] t[j].0 == q;
            assert(s[j].0 == q);
        }
        if q == k {
            assert(t[i].0 == q);
        }
    }
    assert forall|q: K| #[trigger] seq_to_map(t).contains_key(q) implies seq_to_map(t)[q]
        == seq_to_map(s).insert(k, v)[q] by {
        let j = choose|j: int| 0 <= j < t.len() && #[trigger] t[j].0 == q;
        lemma_index(t, j);
        assert(s[j].0 == q);
        lemma_index(s, j);
    }
    assert(seq_to_map(t) =~= seq_to_map(s).insert(k, v));
}

pub proof fn lemma_remove<K, V>(s: Seq<(K, V)>, i: int)
    requires
        keys_unique(s),
        0 <= i < s.len(),
    ensures
        keys_unique(s.remove(i)),
        seq_to_map(s.remove(i)) == seq_to_map(s).remove(s[i].0),
{
    let k = s[i].0;
    let t = s.remove(i);
    assert forall|a: int, b: int|
        0 <= a < t.len() && 0 <= b < t.len() && #[trigger] t[a].0 == #[trigger] t[b].0 implies a
        == b by {
        let a2 = if a < i { a } else { a + 1 };
        let b2 = if b < i { b } else { b + 1 };
        assert(t[a] == s[a2] && t[b] == s[b2]);
        assert(s[a2].0 == s[b2].0);
    }
    assert forall|q: K| #[trigger] seq_to_map(t).contains_key(q) == seq_to_map(s).remove(
        k,
    ).contains_key(q) by {
        if has_key(s, q) && q != k {
            let j = choose|j: int| 0 <= j < s.len() && #[trigger] s[j].0 == q;
            assert(j != i);
            let j2 = if j < i { j } else { j - 1 };
            assert(t[j2] == s[j]);
        }
        if has_key(t, q) {
            let j = choose|j: int| 0 <= j < t.len() && #[trigger] t[j].0 == q;
            let j2 = if j < i { j } else { j + 1 };
            assert(t[j] == s[j2]);
            assert(j2 != i);
        }
    }
    assert forall|q: K| #[trigger] seq_to_map(t).contains_key(q) implies seq_to_map(t)[q]
        == seq_to_map(s).remove(k)[q] by {
        let j = choose|j: int| 0 <= j < t.len() && #[trigger] t[j].0 == q;
        lemma_index(t, j);
        let j2 = if j < i { j } else { j + 1 };
        assert(t[j] == s[j2]);
        lemma_index(s, j2);
    }
    assert(seq_to_map(t) =~= seq_to_map(s).remove(k));
}


/// Pigeonhole: when `f` is one-to-one below `n` and `f(x)` is a key of `s` for
/// every `x` below `n`, `s` has at least `n` pairs.
pub proof fn lemma_keys_cover_range<V>(s: Seq<(u128, V)>, n: nat, f: spec_fn(u128) -> u128)
    requires
        n <= u128::MAX + 1,
        forall|x: u128, y: u128| x < n && y < n && #[trigger] f(x) == #[trigger] f(y) ==> x == y,
        forall|x: u128| x < n ==> #[trigger] has_key(s, f(x)),
    ensures
        n <= s.len(),
{
    let ks = keys_of(s).to_set();
    keys_of(s).lemma_cardinality_of_set();
    lemma_int_range(0, n as int);
    let r = set_int_range(0, n as int);
    let g = |x: int| f(x as u128);
    assert forall|x1: int, x2: int| r.contains(x1) && r.contains(x2) && #[trigger] g(x1) == #[trigger] g(
        x2,
    ) implies x1 == x2 by {
        assert(f(x1 as u128) == f(x2 as u128));
    }
    assert(injective_on(g, r));
    lemma_map_size(r, r.map(g), g);
    assert forall|y: u128| #[trigger] r.map(g).contains(y) implies ks.contains(y) by {
        let x = choose|x: int| r.contains(x) && g(x) == y;
        assert((x as u128) < n);
        assert(has_key(s, f(x as u128)));
        let i = choose|i: int| 0 <= i < s.len() && #[trigger] s[i].0 == y;
        assert(keys_of(s)[i] == y);
    }
    lemma_len_subset(r.map(g), ks);
}

} // verus!
