//! Insert-or-update by natural key, as a mathematical operation on the
//! sequence of rows of one table.
//!
//! A table is a `Seq<T>` whose rows have pairwise distinct natural keys,
//! the key being given by a spec function `key: T -> K`. Reconciling a
//! record `x` replaces the row that shares its key, or appends `x` when no
//! row does. The lemmas below state the reconciliation laws: the stored row
//! is exactly the record (every non-key column overwritten), rows under
//! other keys are untouched, key uniqueness is preserved, and reconciling
//! the same record twice equals reconciling it once.

use vstd::prelude::*;

verus! {

/// No two rows of `s` share a natural key.
pub open spec fn unique_keys<T, K>(s: Seq<T>, key: spec_fn(T) -> K) -> bool {
    forall|i: int, j: int|
        0 <= i < j < s.len() ==> #[trigger] key(s[i]) != #[trigger] key(s[j])
}

/// Some row of `s` has natural key `k`.
pub open spec fn has_key<T, K>(s: Seq<T>, key: spec_fn(T) -> K, k: K) -> bool {
    exists|i: int| 0 <= i < s.len() && #[trigger] key(s[i]) == k
}

/// The index of the row of `s` with natural key `k` (meaningful when such a
/// row exists; unique when keys are unique).
pub open spec fn key_idx<T, K>(s: Seq<T>, key: spec_fn(T) -> K, k: K) -> int {
    choose|i: int| 0 <= i < s.len() && #[trigger] key(s[i]) == k
}

/// Insert-or-update: the table after reconciling record `x` into `s`.
pub open spec fn upsert<T, K>(s: Seq<T>, key: spec_fn(T) -> K, x: T) -> Seq<T> {
    if has_key(s, key, key(x)) {
        s.update(key_idx(s, key, key(x)), x)
    } else {
        s.push(x)
    }
}

/// Under unique keys, the row that carries the key of `s[i]` is `s[i]`
/// itself.
pub proof fn lemma_key_idx_unique<T, K>(s: Seq<T>, key: spec_fn(T) -> K, i: int)
    requires
        unique_keys(s, key),
        0 <= i < s.len(),
    ensures
        has_key(s, key, key(s[i])),
        key_idx(s, key, key(s[i])) == i,
{
    assert(has_key(s, key, key(s[i])));
    let j = key_idx(s, key, key(s[i]));
    assert(0 <= j < s.len() && key(s[j]) == key(s[i]));
}

/// The reconciliation laws of one upsert: the record is stored under its
/// key with every non-key column taken from the record; rows under other
/// keys keep their index and value; a present key leaves the row count
/// unchanged and an absent key grows it by one; keys stay unique.
pub proof fn lemma_upsert_properties<T, K>(s: Seq<T>, key: spec_fn(T) -> K, x: T)
    requires
        unique_keys(s, key),
    ensures
        unique_keys(upsert(s, key, x), key),
        has_key(upsert(s, key, x), key, key(x)),
        upsert(s, key, x)[key_idx(upsert(s, key, x), key, key(x))] == x,
        forall|i: int|
            0 <= i < s.len() && key(#[trigger] s[i]) != key(x) ==> upsert(s, key, x)[i] == s[i],
        has_key(s, key, key(x)) ==> upsert(s, key, x).len() == s.len(),
        !has_key(s, key, key(x)) ==> upsert(s, key, x).len() == s.len() + 1,
{
    let t = upsert(s, key, x);
    if has_key(s, key, key(x)) {
        let i = key_idx(s, key, key(x));
        assert(0 <= i < s.len() && key(s[i]) == key(x));
        assert(t == s.update(i, x));
        assert forall|p: int, q: int| 0 <= p < q < t.len() implies key(t[p]) != key(t[q]) by {
            if p != i && q != i {
                assert(t[p] == s[p] && t[q] == s[q]);
            } else if p == i {
                assert(t[q] == s[q] && key(s[q]) != key(s[i]));
            } else {
                assert(t[p] == s[p] && key(s[p]) != key(s[i]));
            }
        }
        lemma_key_idx_unique(t, key, i);
    } else {
        assert(t == s.push(x));
        assert forall|p: int, q: int| 0 <= p < q < t.len() implies key(t[p]) != key(t[q]) by {
            if q == s.len() {
                assert(t[p] == s[p]);
                assert(!(0 <= p < s.len() && key(s[p]) == key(x)));
            } else {
                assert(t[p] == s[p] && t[q] == s[q]);
            }
        }
        lemma_key_idx_unique(t, key, s.len() as int);
    }
}

/// Replacing a row by one that carries the same natural key keeps the
/// table's keys unique.
pub proof fn lemma_update_same_key<T, K>(s: Seq<T>, key: spec_fn(T) -> K, i: int, x: T)
    requires
        unique_keys(s, key),
        0 <= i < s.len(),
        key(x) == key(s[i]),
    ensures
        unique_keys(s.update(i, x), key),
{
    let t = s.update(i, x);
    assert forall|p: int, q: int| 0 <= p < q < t.len() implies key(t[p]) != key(t[q]) by {
        if p != i && q != i {
            assert(t[p] == s[p] && t[q] == s[q]);
        } else if p == i {
            assert(t[q] == s[q] && key(s[q]) != key(s[i]));
        } else {
            assert(t[p] == s[p] && key(s[p]) != key(s[i]));
        }
    }
}

/// The table after reconciling a whole list of records, one by one in
/// order.
pub open spec fn fold_upserts<T, K>(s: Seq<T>, key: spec_fn(T) -> K, xs: Seq<T>) -> Seq<T>
    decreases xs.len(),
{
    if xs.len() == 0 {
        s
    } else {
        fold_upserts(upsert(s, key, xs[0]), key, xs.skip(1))
    }
}

/// Reconciling a list and then one more record is reconciling the extended
/// list.
pub proof fn lemma_fold_upserts_snoc<T, K>(s: Seq<T>, key: spec_fn(T) -> K, xs: Seq<T>, x: T)
    ensures
        fold_upserts(s, key, xs.push(x)) == upsert(fold_upserts(s, key, xs), key, x),
    decreases xs.len(),
{
    reveal_with_fuel(fold_upserts, 3);
    if xs.len() == 0 {
        assert(xs.push(x)[0] == x);
        assert(xs.push(x).skip(1) =~= Seq::<T>::empty());
    } else {
        assert(xs.push(x)[0] == xs[0]);
        assert(xs.push(x).skip(1) =~= xs.skip(1).push(x));
        lemma_fold_upserts_snoc(upsert(s, key, xs[0]), key, xs.skip(1), x);
    }
}

/// The table after reconciling several lists of records, list by list.
pub open spec fn fold_upserts_all<T, K>(s: Seq<T>, key: spec_fn(T) -> K, xss: Seq<Seq<T>>) -> Seq<
    T,
>
    decreases xss.len(),
{
    if xss.len() == 0 {
        s
    } else {
        fold_upserts_all(fold_upserts(s, key, xss[0]), key, xss.skip(1))
    }
}

/// Reconciling several lists and then one more list is reconciling the
/// extended sequence of lists.
pub proof fn lemma_fold_upserts_all_snoc<T, K>(
    s: Seq<T>,
    key: spec_fn(T) -> K,
    xss: Seq<Seq<T>>,
    xs: Seq<T>,
)
    ensures
        fold_upserts_all(s, key, xss.push(xs)) == fold_upserts(
            fold_upserts_all(s, key, xss),
            key,
            xs,
        ),
    decreases xss.len(),
{
    reveal_with_fuel(fold_upserts_all, 3);
    if xss.len() == 0 {
        assert(xss.push(xs)[0] == xs);
        assert(xss.push(xs).skip(1) =~= Seq::<Seq<T>>::empty());
    } else {
        assert(xss.push(xs)[0] == xss[0]);
        assert(xss.push(xs).skip(1) =~= xss.skip(1).push(xs));
        lemma_fold_upserts_all_snoc(fold_upserts(s, key, xss[0]), key, xss.skip(1), xs);
    }
}

/// Reconciling the same record twice is idempotent: the second upsert finds
/// the row the first one stored and rewrites it with the identical values.
pub proof fn lemma_upsert_idempotent<T, K>(s: Seq<T>, key: spec_fn(T) -> K, x: T)
    requires
        unique_keys(s, key),
    ensures
        upsert(upsert(s, key, x), key, x) == upsert(s, key, x),
{
    lemma_upsert_properties(s, key, x);
    let t = upsert(s, key, x);
    let i = key_idx(t, key, key(x));
    assert(0 <= i < t.len() && key(t[i]) == key(x) && t[i] == x);
    assert(upsert(t, key, x) == t.update(i, x));
    assert(t.update(i, x) =~= t);
}

} // verus!
