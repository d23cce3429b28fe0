//! Sequences of named entries, where the first entry of a name is the one
//! that counts.
use vstd::prelude::*;

verus! {

/// The position of the first entry named `k`, or the length where none is.
pub open spec fn index_of<V>(s: Seq<(Seq<char>, V)>, k: Seq<char>) -> int
    decreases s.len(),
{
    if s.len() == 0 {
        0
    } else if s[0].0 == k {
        0
    } else {
        1 + index_of(s.drop_first(), k)
    }
}

/// The value of the first entry named `k`.
pub open spec fn lookup<V>(s: Seq<(Seq<char>, V)>, k: Seq<char>) -> Option<V> {
    let i = index_of(s, k);
    if i < s.len() {
        Some(s[i].1)
    } else {
        None
    }
}

/// `s` with the entry named `k` set to `v`: in place where one is, else at
/// the end.
pub open spec fn put<V>(s: Seq<(Seq<char>, V)>, k: Seq<char>, v: V) -> Seq<(Seq<char>, V)> {
    let i = index_of(s, k);
    if i < s.len() {
        s.update(i, (k, v))
    } else {
        s.push((k, v))
    }
}

/// No two entries share a name.
pub open spec fn names_unique<V>(s: Seq<(Seq<char>, V)>) -> bool {
    forall|i: int, j: int| 0 <= i < j < s.len() ==> #[trigger] s[i].0 != #[trigger] s[j].0
}

/// The first position whose name is `k` is the one where the scan for `k`
/// stops.
pub proof fn lemma_index_of<V>(s: Seq<(Seq<char>, V)>, k: Seq<char>, i: int)
    requires
        0 <= i <= s.len(),
        forall|j: int| 0 <= j < i ==> s[j].0 != k,
        i < s.len() ==> s[i].0 == k,
    ensures
        index_of(s, k) == i,
    decreases s.len(),
{
    if s.len() > 0 && s[0].0 != k {
        assert forall|j: int| 0 <= j < i - 1 implies s.drop_first()[j].0 != k by {
            assert(s.drop_first()[j] == s[j + 1]);
        }
        lemma_index_of(s.drop_first(), k, i - 1);
    }
}

/// The scan for `k` stops within bounds, past entries of other names.
pub proof fn lemma_index_of_bounds<V>(s: Seq<(Seq<char>, V)>, k: Seq<char>)
    ensures
        0 <= index_of(s, k) <= s.len(),
        forall|j: int| 0 <= j < index_of(s, k) ==> s[j].0 != k,
        index_of(s, k) < s.len() ==> s[index_of(s, k)].0 == k,
    decreases s.len(),
{
    if s.len() > 0 && s[0].0 != k {
        lemma_index_of_bounds(s.drop_first(), k);
        assert forall|j: int| 0 <= j < index_of(s, k) implies s[j].0 != k by {
            if j > 0 {
                assert(s[j] == s.drop_first()[j - 1]);
            }
        }
    }
}

/// Setting a name keeps the names unique.
pub proof fn lemma_put_names_unique<V>(s: Seq<(Seq<char>, V)>, k: Seq<char>, v: V)
    requires
        names_unique(s),
    ensures
        names_unique(put(s, k, v)),
{
    lemma_index_of_bounds(s, k);
    let s2 = put(s, k, v);
    assert forall|i: int, j: int| 0 <= i < j < s2.len() implies #[trigger] s2[i].0
        != #[trigger] s2[j].0 by {
        if index_of(s, k) < s.len() {
            assert(s2[i].0 == s[i].0 && s2[j].0 == s[j].0);
        } else if j < s.len() {
            assert(s2[i] == s[i] && s2[j] == s[j]);
        }
    }
}

/// Scans the entries of `entries` for the name `k`.
pub(crate) fn position<V: View>(entries: &Vec<(String, V)>, k: &String) -> (r: usize)
    ensures
        r == index_of(entries@.map_values(|e: (String, V)| (e.0@, e.1@)), k@),
{
    let ghost s = entries@.map_values(|e: (String, V)| (e.0@, e.1@));
    let mut i: usize = 0;
    while i < entries.len()
        invariant
            0 <= i <= entries.len(),
            s == entries@.map_values(|e: (String, V)| (e.0@, e.1@)),
            forall|j: int| 0 <= j < i ==> s[j].0 != k@,
        decreases entries.len() - i,
    {
        if entries[i].0 == *k {
            proof {
                lemma_index_of(s, k@, i as int);
            }
            return i;
        }
        i = i + 1;
    }
    proof {
        lemma_index_of(s, k@, i as int);
    }
    i
}

/// Setting `k` makes `v` its value and leaves the other names' values alone.
pub proof fn lemma_lookup_put<V>(s: Seq<(Seq<char>, V)>, k: Seq<char>, v: V, k2: Seq<char>)
    ensures
        lookup(put(s, k, v), k2) == if k2 == k {
            Some(v)
        } else {
            lookup(s, k2)
        },
{
    let i = index_of(s, k);
    let s2 = put(s, k, v);
    lemma_index_of_bounds(s, k);
    lemma_index_of_bounds(s, k2);
    let i2 = index_of(s, k2);
    if k2 == k {
        assert forall|j: int| 0 <= j < i implies s2[j].0 != k by {}
        lemma_index_of(s2, k, i);
    } else {
        assert forall|j: int| 0 <= j < i2 implies s2[j].0 != k2 by {
            if i < s.len() && j == i {
            } else {
                assert(s2[j] == s[j]);
            }
        }
        if i2 < s.len() {
            assert(s2[i2] == s[i2]);
            lemma_index_of(s2, k2, i2);
        } else {
            if i < s.len() {
                lemma_index_of(s2, k2, i2);
            } else {
                assert(s2[i2].0 == k);
                assert forall|j: int| 0 <= j < i2 + 1 implies s2[j].0 != k2 by {}
                lemma_index_of(s2, k2, i2 + 1);
            }
        }
    }
}

} // verus!
