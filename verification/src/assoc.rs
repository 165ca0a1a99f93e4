//! Maps keyed by strings, kept as vectors of key/value pairs in insertion
//! order. `put` replaces the value of a key that is present and appends a
//! key that is not, which is how a map keyed by string behaves; the order of
//! the pairs is the order in which keys first arrived.
use vstd::prelude::*;
use crate::text::str_eq;

verus! {

/// Position of the first pair whose key is `k`, or -1.
pub open spec fn key_index<V>(s: Seq<(String, V)>, k: Seq<char>) -> int
    decreases s.len(),
{
    if s.len() == 0 {
        -1
    } else if key_index(s.drop_last(), k) >= 0 {
        key_index(s.drop_last(), k)
    } else if s.last().0@ == k {
        s.len() - 1
    } else {
        -1
    }
}

/// The pairs after `k` is given the value `v`.
pub open spec fn put_spec<V>(s: Seq<(String, V)>, k: String, v: V) -> Seq<(String, V)> {
    if key_index(s, k@) >= 0 {
        s.update(key_index(s, k@), (k, v))
    } else {
        s.push((k, v))
    }
}

/// The value of `k`, if present.
pub open spec fn get_spec<V>(s: Seq<(String, V)>, k: Seq<char>) -> Option<V> {
    if key_index(s, k) >= 0 {
        Some(s[key_index(s, k)].1)
    } else {
        None
    }
}

/// No key occurs twice.
pub open spec fn keys_unique<V>(s: Seq<(String, V)>) -> bool {
    forall|i: int, j: int| 0 <= i < j < s.len() ==> s[i].0@ != s[j].0@
}

/// `key_index` is the least position of the key, or -1 when it is absent.
pub proof fn lemma_key_index<V>(s: Seq<(String, V)>, k: Seq<char>)
    ensures
        -1 <= key_index(s, k) < s.len(),
        key_index(s, k) >= 0 ==> s[key_index(s, k)].0@ == k,
        forall|j: int|
            0 <= j < s.len() && (key_index(s, k) < 0 || j < key_index(s, k)) ==> #[trigger] s[j].0@
                != k,
    decreases s.len(),
{
    if s.len() > 0 {
        lemma_key_index(s.drop_last(), k);
        assert forall|j: int| 0 <= j < s.len() - 1 implies #[trigger] s[j] == s.drop_last()[j] by {}
    }
}

/// Putting a key keeps the keys unique.
pub proof fn lemma_put_unique<V>(s: Seq<(String, V)>, k: String, v: V)
    requires
        keys_unique(s),
    ensures
        keys_unique(put_spec(s, k, v)),
        get_spec(put_spec(s, k, v), k@) == Some(v),
{
    lemma_key_index(s, k@);
    let t = put_spec(s, k, v);
    lemma_key_index(t, k@);
    let i = key_index(s, k@);
    if i < 0 {
        assert forall|j: int| 0 <= j < s.len() implies #[trigger] s[j].0@ != k@ by {}
        assert forall|a: int, b: int| 0 <= a < b < t.len() implies t[a].0@ != t[b].0@ by {
            if b == s.len() {
                assert(s[a].0@ != k@);
            } else {
                assert(t[a] == s[a] && t[b] == s[b]);
            }
        }
        assert(t[s.len() as int].0@ == k@);
        assert(key_index(t, k@) == s.len());
    } else {
        assert forall|j: int| 0 <= j < t.len() implies #[trigger] t[j].0@ == s[j].0@ by {}
        assert forall|a: int, b: int| 0 <= a < b < t.len() implies t[a].0@ != t[b].0@ by {
            assert(t[a].0@ == s[a].0@ && t[b].0@ == s[b].0@);
        }
        let ti = key_index(t, k@);
        if ti != i {
            if ti < 0 || i < ti {
                assert(t[i].0@ == k@);
            } else {
                assert(s[ti].0@ == t[ti].0@);
            }
        }
    }
}

/// Position of the first pair whose key is `k` (executable).
pub fn find_key<V>(s: &Vec<(String, V)>, k: &str) -> (r: Option<usize>)
    ensures
        r matches Some(i) ==> i as int == key_index(s@, k@),
        r is None ==> key_index(s@, k@) == -1,
{
    proof {
        lemma_key_index(s@, k@);
    }
    let mut i: usize = 0;
    while i < s.len()
        invariant
            i <= s.len(),
            forall|j: int| 0 <= j < i ==> #[trigger] s@[j].0@ != k@,
            -1 <= key_index(s@, k@) < s@.len(),
            key_index(s@, k@) >= 0 ==> s@[key_index(s@, k@)].0@ == k@,
            forall|j: int|
                0 <= j < s@.len() && (key_index(s@, k@) < 0 || j < key_index(s@, k@))
                    ==> #[trigger] s@[j].0@ != k@,
        decreases s.len() - i,
    {
        if str_eq(s[i].0.as_str(), k) {
            return Some(i);
        }
        i += 1;
    }
    None
}

/// Gives `k` the value `v`.
pub fn put<V>(s: &mut Vec<(String, V)>, k: String, v: V)
    ensures
        final(s)@ == put_spec(old(s)@, k, v),
{
    proof {
        lemma_key_index(s@, k@);
    }
    match find_key(s, k.as_str()) {
        Some(i) => {
            s.set(i, (k, v));
        },
        None => {
            s.push((k, v));
        },
    }
}

} // verus!
