//! Association lists keyed by strings: the library's maps from peer ids and
//! topics to values, kept as vectors of pairs without repeated keys.
use vstd::prelude::*;
use crate::text::str_eq;

verus! {

/// The index of the first entry of `s` with key `k`.
pub open spec fn key_index<V>(s: Seq<(String, V)>, k: Seq<char>) -> Option<int>
    decreases s.len(),
{
    if s.len() == 0 {
        None
    } else {
        match key_index(s.drop_last(), k) {
            Some(i) => Some(i),
            None => if s.last().0@ == k {
                Some(s.len() - 1)
            } else {
                None
            },
        }
    }
}

/// The value stored under `k`.
pub open spec fn lookup<V>(s: Seq<(String, V)>, k: Seq<char>) -> Option<V> {
    match key_index(s, k) {
        Some(i) => Some(s[i].1),
        None => None,
    }
}

/// No key occurs twice.
pub open spec fn unique_keys<V>(s: Seq<(String, V)>) -> bool {
    forall|i: int, j: int| 0 <= i < j < s.len() ==> s[i].0@ != s[j].0@
}

/// `key_index` finds an entry with that key, and there is none when it finds
/// none.
pub proof fn lemma_key_index<V>(s: Seq<(String, V)>, k: Seq<char>)
    ensures
        key_index(s, k) matches Some(i) ==> 0 <= i < s.len() && s[i].0@ == k
            && forall|j: int| 0 <= j < i ==> s[j].0@ != k,
        key_index(s, k) is None ==> forall|j: int| 0 <= j < s.len() ==> s[j].0@ != k,
    decreases s.len(),
{
    if s.len() > 0 {
        let t = s.drop_last();
        lemma_key_index(t, k);
        assert forall|j: int| 0 <= j < t.len() implies t[j] == s[j] by {}
        assert(s[s.len() - 1] == s.last());
    }
}

/// With unique keys, the entry at index `i` is the one found for its key.
pub proof fn lemma_key_index_unique<V>(s: Seq<(String, V)>, i: int)
    requires
        unique_keys(s),
        0 <= i < s.len(),
    ensures
        key_index(s, s[i].0@) == Some(i),
{
    lemma_key_index(s, s[i].0@);
    match key_index(s, s[i].0@) {
        Some(j) => {
            if j < i {
                assert(s[j].0@ != s[i].0@);
            }
        },
        None => {},
    }
}

/// A match in a prefix is the first match of the whole list.
proof fn lemma_key_index_prefix<V>(s: Seq<(String, V)>, k: Seq<char>, i: int)
    requires
        0 <= i < s.len(),
        key_index(s.take(i), k) is None,
        s[i].0@ == k,
    ensures
        key_index(s, k) == Some(i),
    decreases s.len(),
{
    if i == s.len() - 1 {
        assert(s.drop_last() =~= s.take(i));
    } else {
        assert(s.drop_last().take(i) =~= s.take(i));
        lemma_key_index_prefix(s.drop_last(), k, i);
    }
}

/// The index of the entry with key `k`.
pub fn find_key<V>(s: &Vec<(String, V)>, k: &str) -> (r: Option<usize>)
    ensures
        match r {
            Some(i) => i < s@.len() && key_index(s@, k@) == Some(i as int),
            None => key_index(s@, k@) is None,
        },
{
    let mut i: usize = 0;
    while i < s.len()
        invariant
            i <= s.len(),
            key_index(s@.take(i as int), k@) is None,
        decreases s.len() - i,
    {
        assert(s@.take(i as int + 1).drop_last() =~= s@.take(i as int));
        if str_eq(s[i].0.as_str(), k) {
            proof { lemma_key_index_prefix(s@, k@, i as int); }
            return Some(i);
        }
        i = i + 1;
    }
    assert(s@.take(i as int) =~= s@);
    None
}

/// Appending an entry with a new key keeps the keys unique and leaves the
/// old lookups as they were.
pub proof fn lemma_push_new_key<V>(s: Seq<(String, V)>, e: (String, V))
    requires
        unique_keys(s),
        key_index(s, e.0@) is None,
    ensures
        unique_keys(s.push(e)),
        key_index(s.push(e), e.0@) == Some(s.len() as int),
        forall|k: Seq<char>| k != e.0@ ==> #[trigger] key_index(s.push(e), k) == key_index(s, k),
        forall|k: Seq<char>| k != e.0@ ==> #[trigger] lookup(s.push(e), k) == lookup(s, k),
        lookup(s.push(e), e.0@) == Some(e.1),
{
    lemma_key_index(s, e.0@);
    assert(s.push(e).drop_last() =~= s);
    assert forall|k: Seq<char>| k != e.0@ implies #[trigger] key_index(s.push(e), k) == key_index(s, k) by {
        assert(s.push(e).drop_last() =~= s);
    }
    assert forall|k: Seq<char>| k != e.0@ implies #[trigger] lookup(s.push(e), k) == lookup(s, k) by {
        assert(s.push(e).drop_last() =~= s);
        lemma_key_index(s, k);
    }
}

/// Replacing the value of an entry keeps keys and lookups of other keys.
pub proof fn lemma_update_value<V>(s: Seq<(String, V)>, i: int, e: (String, V))
    requires
        0 <= i < s.len(),
        e.0@ == s[i].0@,
    ensures
        unique_keys(s) ==> unique_keys(s.update(i, e)),
        forall|k: Seq<char>| #[trigger] key_index(s.update(i, e), k) == key_index(s, k),
    decreases s.len(),
{
    assert forall|k: Seq<char>| #[trigger] key_index(s.update(i, e), k) == key_index(s, k) by {
        lemma_update_value_index(s, i, e, k);
    }
}

proof fn lemma_update_value_index<V>(s: Seq<(String, V)>, i: int, e: (String, V), k: Seq<char>)
    requires
        0 <= i < s.len(),
        e.0@ == s[i].0@,
    ensures
        key_index(s.update(i, e), k) == key_index(s, k),
    decreases s.len(),
{
    let t = s.update(i, e);
    if i == s.len() - 1 {
        assert(t.drop_last() =~= s.drop_last());
    } else {
        assert(t.drop_last() =~= s.drop_last().update(i, e));
        lemma_update_value_index(s.drop_last(), i, e, k);
    }
}

/// Removing an entry keeps the others' keys unique.
pub proof fn lemma_remove_unique<V>(s: Seq<(String, V)>, i: int)
    requires
        unique_keys(s),
        0 <= i < s.len(),
    ensures
        unique_keys(s.remove(i)),
{
    let t = s.remove(i);
    assert forall|a: int, b: int| 0 <= a < b < t.len() implies t[a].0@ != t[b].0@ by {
        let a2 = if a < i { a } else { a + 1 };
        let b2 = if b < i { b } else { b + 1 };
        assert(t[a] == s[a2]);
        assert(t[b] == s[b2]);
    }
}


/// Stores `v` under `k`: replaces the value of an existing entry in place, or
/// appends a new entry.
pub fn upsert<V>(s: &mut Vec<(String, V)>, k: &String, v: V)
    requires
        unique_keys(old(s)@),
    ensures
        unique_keys(final(s)@),
        lookup(final(s)@, k@) == Some(v),
        forall|j: Seq<char>| j != k@ ==> #[trigger] lookup(final(s)@, j) == lookup(old(s)@, j),
        match key_index(old(s)@, k@) {
            Some(i) => final(s)@ == old(s)@.update(i, (*k, v)),
            None => final(s)@.len() == old(s)@.len() + 1 && final(s)@.drop_last() == old(s)@
                && final(s)@.last().0@ == k@ && final(s)@.last().1 == v,
        },
{
    let ghost before = s@;
    proof { lemma_key_index(before, k@); }
    match find_key(s, k.as_str()) {
        Some(i) => {
            let name = k.clone();
            let e = (name, v);
            s.set(i, e);
            proof {
                lemma_update_value(before, i as int, e);
                assert(s@ == before.update(i as int, e));
                lemma_key_index(s@, k@);
                assert forall|j: Seq<char>| j != k@ implies #[trigger] lookup(s@, j) == lookup(before, j) by {
                    lemma_key_index(before, j);
                }
            }
        },
        None => {
            let e = (k.clone(), v);
            s.push(e);
            proof {
                lemma_push_new_key(before, e);
                assert(s@.drop_last() =~= before);
                assert forall|j: Seq<char>| j != k@ implies #[trigger] lookup(s@, j) == lookup(before, j) by {
                    lemma_key_index(before, j);
                }
            }
        },
    }
}


/// With unique keys, a lookup in one more entry of a list sees that entry
/// only for its own key.
pub proof fn lemma_lookup_take_succ<V>(s: Seq<(String, V)>, n: int, k: Seq<char>)
    requires
        unique_keys(s),
        0 <= n < s.len(),
    ensures
        lookup(s.take(n + 1), k) == if s[n].0@ == k { Some(s[n].1) } else { lookup(s.take(n), k) },
        key_index(s.take(n + 1), k) is Some <==> (s[n].0@ == k || key_index(s.take(n), k) is Some),
{
    let t = s.take(n + 1);
    assert(t.drop_last() =~= s.take(n));
    lemma_key_index(s.take(n), k);
    if s[n].0@ == k {
        if key_index(s.take(n), k) is Some {
            let j = key_index(s.take(n), k)->0;
            assert(s.take(n)[j] == s[j]);
            assert(s[j].0@ != s[n].0@);
        }
    }
}


/// The values held under `k`, none when there is no entry.
pub open spec fn values_in<T>(s: Seq<(String, Vec<T>)>, k: Seq<char>) -> Seq<T> {
    match lookup(s, k) {
        Some(v) => v@,
        None => Seq::empty(),
    }
}

/// Appends `x` to the values held under `k`, making the entry if needed.
pub fn push_value<T>(s: &mut Vec<(String, Vec<T>)>, k: &String, x: T)
    requires
        unique_keys(old(s)@),
    ensures
        unique_keys(final(s)@),
        values_in(final(s)@, k@) == values_in(old(s)@, k@).push(x),
        forall|j: Seq<char>| j != k@ ==> #[trigger] lookup(final(s)@, j) == lookup(old(s)@, j),
{
    let ghost before = s@;
    proof { lemma_key_index(before, k@); }
    let mut values = match find_key(s, k.as_str()) {
        Some(i) => {
            let (name, v) = s.remove(i);
            let empty: Vec<T> = Vec::new();
            s.insert(i, (name, empty));
            proof {
                assert(s@ =~= before.update(i as int, (name, empty)));
                lemma_update_value(before, i as int, (name, empty));
                assert forall|j: Seq<char>| j != k@ implies #[trigger] lookup(s@, j) == lookup(before, j) by {
                    lemma_key_index(before, j);
                }
            }
            v
        },
        None => Vec::new(),
    };
    values.push(x);
    let ghost mid = s@;
    upsert(s, k, values);
}

/// The sum of the counts.
pub open spec fn count_sum(s: Seq<(String, u32)>) -> int
    decreases s.len(),
{
    if s.len() == 0 {
        0
    } else {
        count_sum(s.drop_last()) + s.last().1
    }
}

/// The count under `k`, zero when there is no entry.
pub open spec fn count_of(s: Seq<(String, u32)>, k: Seq<char>) -> int {
    match lookup(s, k) {
        Some(c) => c as int,
        None => 0,
    }
}

/// Replacing one count changes the sum by the difference.
pub proof fn lemma_count_sum_update(s: Seq<(String, u32)>, i: int, e: (String, u32))
    requires
        0 <= i < s.len(),
    ensures
        count_sum(s.update(i, e)) == count_sum(s) - s[i].1 + e.1,
    decreases s.len(),
{
    let t = s.update(i, e);
    if i == s.len() - 1 {
        assert(t.drop_last() =~= s.drop_last());
    } else {
        assert(t.drop_last() =~= s.drop_last().update(i, e));
        lemma_count_sum_update(s.drop_last(), i, e);
    }
}

/// Removing one count lowers the sum by it.
pub proof fn lemma_count_sum_remove(s: Seq<(String, u32)>, i: int)
    requires
        0 <= i < s.len(),
    ensures
        count_sum(s.remove(i)) == count_sum(s) - s[i].1,
    decreases s.len(),
{
    let t = s.remove(i);
    if i == s.len() - 1 {
        assert(t =~= s.drop_last());
    } else {
        assert(t.drop_last() =~= s.drop_last().remove(i));
        assert(t.last() == s.last());
        lemma_count_sum_remove(s.drop_last(), i);
    }
}

/// Each count is at most the sum.
pub proof fn lemma_count_le_sum(s: Seq<(String, u32)>, i: int)
    requires
        0 <= i < s.len(),
    ensures
        s[i].1 <= count_sum(s),
    decreases s.len(),
{
    lemma_count_sum_nonneg(s.drop_last());
    if i < s.len() - 1 {
        assert(s.drop_last()[i] == s[i]);
        lemma_count_le_sum(s.drop_last(), i);
    }
}

/// The sum is not negative.
pub proof fn lemma_count_sum_nonneg(s: Seq<(String, u32)>)
    ensures
        count_sum(s) >= 0,
    decreases s.len(),
{
    if s.len() > 0 {
        lemma_count_sum_nonneg(s.drop_last());
    }
}

} // verus!
