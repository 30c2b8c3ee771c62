//! Association sequences: ordered key/value sequences addressed by string
//! key, with first-match lookup.
//!
//! The remote store's logical contents are modelled this way: a sequence
//! keeps the store-defined scan order, while `lookup`, `upsert` and
//! `remove_key` give the map-like view that single-item operations need.
use vstd::prelude::*;

verus! {

/// The index of the first entry with key `k`, or `-1` if none has it.
pub open spec fn key_index<V>(s: Seq<(Seq<char>, V)>, k: Seq<char>) -> int
    decreases s.len(),
{
    if s.len() == 0 {
        -1
    } else if s[0].0 == k {
        0
    } else {
        let rest = key_index(s.subrange(1, s.len() as int), k);
        if rest == -1 {
            -1
        } else {
            rest + 1
        }
    }
}

/// The value under key `k`, if any: first match wins.
pub open spec fn lookup<V>(s: Seq<(Seq<char>, V)>, k: Seq<char>) -> Option<V> {
    let i = key_index(s, k);
    if i >= 0 {
        Some(s[i].1)
    } else {
        None
    }
}

/// Replace the first entry with key `k` in place, or append one.
pub open spec fn upsert<V>(s: Seq<(Seq<char>, V)>, k: Seq<char>, v: V) -> Seq<(Seq<char>, V)> {
    let i = key_index(s, k);
    if i >= 0 {
        s.update(i, (k, v))
    } else {
        s.push((k, v))
    }
}

/// Remove the first entry with key `k`, if any.
pub open spec fn remove_key<V>(s: Seq<(Seq<char>, V)>, k: Seq<char>) -> Seq<(Seq<char>, V)> {
    let i = key_index(s, k);
    if i >= 0 {
        s.remove(i)
    } else {
        s
    }
}

/// No two entries share a key.
pub open spec fn distinct_keys<V>(s: Seq<(Seq<char>, V)>) -> bool {
    forall|i: int, j: int| 0 <= i < j < s.len() ==> s[i].0 != s[j].0
}

/// What `key_index` finds: a valid position holding `k` with no earlier
/// match, or `-1` when no entry holds `k`.
pub proof fn lemma_key_index<V>(s: Seq<(Seq<char>, V)>, k: Seq<char>)
    ensures
        key_index(s, k) >= -1,
        key_index(s, k) == -1 ==> forall|j: int| 0 <= j < s.len() ==> s[j].0 != k,
        key_index(s, k) >= 0 ==> key_index(s, k) < s.len() && s[key_index(s, k)].0 == k && (forall|
            j: int,
        | 0 <= j < key_index(s, k) ==> s[j].0 != k),
    decreases s.len(),
{
    if s.len() > 0 && s[0].0 != k {
        let rest = s.subrange(1, s.len() as int);
        lemma_key_index(rest, k);
        assert forall|j: int| 0 <= j < s.len() implies (rest =~= rest && (j == 0 || rest[j - 1]
            == s[j])) by {}
    }
}

/// Conversely, a position holding `k` with no earlier match is what
/// `key_index` finds.
pub proof fn lemma_key_index_at<V>(s: Seq<(Seq<char>, V)>, k: Seq<char>, i: int)
    requires
        0 <= i < s.len(),
        s[i].0 == k,
        forall|j: int| 0 <= j < i ==> s[j].0 != k,
    ensures
        key_index(s, k) == i,
    decreases s.len(),
{
    if i > 0 {
        let rest = s.subrange(1, s.len() as int);
        assert forall|j: int| 0 <= j < i - 1 implies rest[j].0 != k by {
            assert(rest[j] == s[j + 1]);
        }
        assert(rest[i - 1] == s[i]);
        lemma_key_index_at(rest, k, i - 1);
    }
}

/// When no entry holds `k`, `key_index` reports `-1`.
pub proof fn lemma_key_index_none<V>(s: Seq<(Seq<char>, V)>, k: Seq<char>)
    requires
        forall|j: int| 0 <= j < s.len() ==> s[j].0 != k,
    ensures
        key_index(s, k) == -1,
{
    lemma_key_index(s, k);
    if key_index(s, k) >= 0 {
        assert(s[key_index(s, k)].0 == k);
    }
}

/// After an upsert, the upserted key maps to the new value.
pub proof fn lemma_lookup_upsert_same<V>(s: Seq<(Seq<char>, V)>, k: Seq<char>, v: V)
    ensures
        lookup(upsert(s, k, v), k) == Some(v),
{
    lemma_key_index(s, k);
    let i = key_index(s, k);
    if i >= 0 {
        let s2 = s.update(i, (k, v));
        assert forall|j: int| 0 <= j < i implies s2[j].0 != k by {
            assert(s2[j] == s[j]);
        }
        lemma_key_index_at(s2, k, i);
    } else {
        let s2 = s.push((k, v));
        assert forall|j: int| 0 <= j < s.len() implies s2[j].0 != k by {
            assert(s2[j] == s[j]);
        }
        lemma_key_index_at(s2, k, s.len() as int);
    }
}

/// An upsert leaves every other key's value unchanged.
pub proof fn lemma_lookup_upsert_other<V>(s: Seq<(Seq<char>, V)>, k: Seq<char>, v: V, k2: Seq<char>)
    requires
        k2 != k,
    ensures
        lookup(upsert(s, k, v), k2) == lookup(s, k2),
{
    lemma_key_index(s, k);
    lemma_key_index(s, k2);
    let i = key_index(s, k);
    let i2 = key_index(s, k2);
    if i >= 0 {
        let s2 = s.update(i, (k, v));
        assert forall|j: int| 0 <= j < s.len() implies s2[j].0 == s[j].0 by {
            if j != i {
                assert(s2[j] == s[j]);
            }
        }
        if i2 >= 0 {
            assert forall|j: int| 0 <= j < i2 implies s2[j].0 != k2 by {}
            lemma_key_index_at(s2, k2, i2);
            assert(s2[i2] == s[i2]);
        } else {
            lemma_key_index_none(s2, k2);
        }
    } else {
        let s2 = s.push((k, v));
        if i2 >= 0 {
            assert forall|j: int| 0 <= j < i2 implies s2[j].0 != k2 by {
                assert(s2[j] == s[j]);
            }
            assert(s2[i2] == s[i2]);
            lemma_key_index_at(s2, k2, i2);
        } else {
            assert forall|j: int| 0 <= j < s2.len() implies s2[j].0 != k2 by {
                if j < s.len() {
                    assert(s2[j] == s[j]);
                }
            }
            lemma_key_index_none(s2, k2);
        }
    }
}

/// After removing `k` from a duplicate-free sequence, `k` is gone: this is
/// the store's half of "delete removes the record" — once a delete has
/// rewritten a table's items with `remove_key`, a lookup of that key finds
/// nothing.
pub proof fn lemma_lookup_remove_same<V>(s: Seq<(Seq<char>, V)>, k: Seq<char>)
    requires
        distinct_keys(s),
    ensures
        lookup(remove_key(s, k), k) is None,
{
    lemma_key_index(s, k);
    let i = key_index(s, k);
    if i >= 0 {
        let s2 = s.remove(i);
        assert forall|j: int| 0 <= j < s2.len() implies s2[j].0 != k by {
            if j < i {
                assert(s2[j] == s[j]);
            } else {
                assert(s2[j] == s[j + 1]);
            }
        }
        lemma_key_index_none(s2, k);
    }
}

/// Removing `k` leaves every other key's value unchanged.
pub proof fn lemma_lookup_remove_other<V>(s: Seq<(Seq<char>, V)>, k: Seq<char>, k2: Seq<char>)
    requires
        k2 != k,
    ensures
        lookup(remove_key(s, k), k2) == lookup(s, k2),
{
    lemma_key_index(s, k);
    lemma_key_index(s, k2);
    let i = key_index(s, k);
    let i2 = key_index(s, k2);
    if i >= 0 {
        let s2 = s.remove(i);
        if i2 >= 0 {
            if i2 < i {
                assert forall|j: int| 0 <= j < i2 implies s2[j].0 != k2 by {
                    assert(s2[j] == s[j]);
                }
                assert(s2[i2] == s[i2]);
                lemma_key_index_at(s2, k2, i2);
            } else {
                // i2 > i since s[i].0 == k != k2
                assert(i2 != i);
                assert forall|j: int| 0 <= j < i2 - 1 implies s2[j].0 != k2 by {
                    if j < i {
                        assert(s2[j] == s[j]);
                    } else {
                        assert(s2[j] == s[j + 1]);
                        assert(j + 1 <= i2 - 1 + 1);
                    }
                }
                assert(s2[i2 - 1] == s[i2]);
                lemma_key_index_at(s2, k2, i2 - 1);
            }
        } else {
            assert forall|j: int| 0 <= j < s2.len() implies s2[j].0 != k2 by {
                if j < i {
                    assert(s2[j] == s[j]);
                } else {
                    assert(s2[j] == s[j + 1]);
                }
            }
            lemma_key_index_none(s2, k2);
        }
    }
}

/// An upsert never introduces a duplicate key.
pub proof fn lemma_upsert_distinct<V>(s: Seq<(Seq<char>, V)>, k: Seq<char>, v: V)
    requires
        distinct_keys(s),
    ensures
        distinct_keys(upsert(s, k, v)),
{
    lemma_key_index(s, k);
    let i = key_index(s, k);
    if i >= 0 {
        let s2 = s.update(i, (k, v));
        assert forall|x: int, y: int| 0 <= x < y < s2.len() implies s2[x].0 != s2[y].0 by {
            assert(s2[x].0 == s[x].0);
            assert(s2[y].0 == s[y].0);
        }
    } else {
        let s2 = s.push((k, v));
        assert forall|x: int, y: int| 0 <= x < y < s2.len() implies s2[x].0 != s2[y].0 by {
            assert(s2[x] == s[x]);
            if y < s.len() {
                assert(s2[y] == s[y]);
            }
        }
    }
}

/// Removal never introduces a duplicate key.
pub proof fn lemma_remove_distinct<V>(s: Seq<(Seq<char>, V)>, k: Seq<char>)
    requires
        distinct_keys(s),
    ensures
        distinct_keys(remove_key(s, k)),
{
    lemma_key_index(s, k);
    let i = key_index(s, k);
    if i >= 0 {
        let s2 = s.remove(i);
        assert forall|x: int, y: int| 0 <= x < y < s2.len() implies s2[x].0 != s2[y].0 by {
            if x < i {
                assert(s2[x] == s[x]);
            } else {
                assert(s2[x] == s[x + 1]);
            }
            if y < i {
                assert(s2[y] == s[y]);
            } else {
                assert(s2[y] == s[y + 1]);
            }
        }
    }
}

/// Overwriting a key twice keeps only the second value: the contents after
/// two upserts of the same key are those after the second alone.
pub proof fn lemma_upsert_overwrites<V>(s: Seq<(Seq<char>, V)>, k: Seq<char>, v1: V, v2: V)
    ensures
        lookup(upsert(upsert(s, k, v1), k, v2), k) == Some(v2),
        forall|k2: Seq<char>| k2 != k ==> lookup(upsert(upsert(s, k, v1), k, v2), k2) == lookup(
            s,
            k2,
        ),
{
    lemma_lookup_upsert_same(upsert(s, k, v1), k, v2);
    assert forall|k2: Seq<char>| k2 != k implies lookup(upsert(upsert(s, k, v1), k, v2), k2)
        == lookup(s, k2) by {
        lemma_lookup_upsert_other(s, k, v1, k2);
        lemma_lookup_upsert_other(upsert(s, k, v1), k, v2, k2);
    }
}

} // verus!
