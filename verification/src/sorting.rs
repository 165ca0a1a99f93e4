//! Ordering keyed items by their text keys.
use vstd::prelude::*;
use crate::segment_merge::{seq_lt, str_lt, lemma_seq_lt_irreflexive, lemma_seq_lt_transitive};
use crate::recordings::reversed;

verus! {

broadcast use vstd::seq_lib::group_to_multiset_ensures;

/// Pairs in the order of their keys (no later key comes before an earlier one).
pub open spec fn sorted_by_key<T>(s: Seq<(String, T)>) -> bool {
    forall|i: int, j: int| 0 <= i < j < s.len() ==> !seq_lt(#[trigger] s[j].0@, #[trigger] s[i].0@)
}

/// `items` ordered by key.
pub fn sort_by_key<T>(items: Vec<(String, T)>) -> (r: Vec<(String, T)>)
    ensures
        sorted_by_key(r@),
        r@.to_multiset() == items@.to_multiset(),
        r@.len() == items@.len(),
{
    let ghost f0 = items@;
    let n = items.len();
    let mut rev = reversed(items);
    let mut r: Vec<(String, T)> = Vec::new();
    let mut k: usize = 0;
    while rev.len() > 0
        invariant
            k + rev@.len() == n,
            n == f0.len(),
            rev@ == f0.subrange(k as int, n as int).reverse(),
            sorted_by_key(r@),
            r@.to_multiset() == f0.subrange(0, k as int).to_multiset(),
        decreases rev.len(),
    {
        let x = rev.pop().unwrap();
        proof {
            assert(x == f0[k as int]);
            assert(rev@ =~= f0.subrange(k + 1, n as int).reverse());
        }
        let mut pos: usize = 0;
        let mut found = false;
        while pos < r.len() && !found
            invariant
                pos <= r@.len(),
                forall|i: int| 0 <= i < pos ==> !seq_lt(x.0@, #[trigger] r@[i].0@),
                found ==> pos < r@.len() && seq_lt(x.0@, r@[pos as int].0@),
            decreases r.len() - pos + (if found { 0int } else { 1int }),
        {
            if str_lt(x.0.as_str(), r[pos].0.as_str()) {
                found = true;
            } else {
                pos += 1;
            }
        }
        let ghost o = r@;
        let ghost xk = x.0@;
        proof {
            assert forall|j: int| pos <= j < o.len() implies !seq_lt(#[trigger] o[j].0@, xk) by {
                if seq_lt(o[j].0@, xk) {
                    lemma_seq_lt_irreflexive(o[pos as int].0@);
                    if j > pos {
                        assert(!seq_lt(o[j].0@, o[pos as int].0@));
                    }
                    lemma_seq_lt_transitive(o[j].0@, xk, o[pos as int].0@);
                }
            }
        }
        let ghost xv = x;
        r.insert(pos, x);
        proof {
            let nv = r@;
            assert(nv =~= o.insert(pos as int, xv));
            assert forall|i: int, j: int| 0 <= i < j < nv.len() implies !seq_lt(#[trigger] nv[j].0@, #[trigger] nv[i].0@) by {
                if j < pos {
                    assert(nv[i] == o[i] && nv[j] == o[j]);
                } else if j == pos {
                    assert(nv[i] == o[i]);
                } else if i < pos {
                    assert(nv[i] == o[i] && nv[j] == o[j - 1]);
                } else if i == pos {
                    assert(nv[j] == o[j - 1]);
                } else {
                    assert(nv[i] == o[i - 1] && nv[j] == o[j - 1]);
                }
            }
            vstd::seq_lib::to_multiset_insert(o, pos as int, xv);
            assert(f0.subrange(0, k + 1) =~= f0.subrange(0, k as int).push(xv));
            vstd::seq_lib::to_multiset_build(f0.subrange(0, k as int), xv);
        }
        k += 1;
    }
    proof {
        assert(f0.subrange(0, n as int) =~= f0);
        vstd::seq_lib::to_multiset_len(r@);
        vstd::seq_lib::to_multiset_len(f0);
    }
    r
}

} // verus!
