//! Listing the members of an ordered set in increasing order.

use std::collections::BTreeSet;
use vstd::prelude::*;
use vstd::std_specs::btree::{increasing_seq, spec_btree_keys_iter};
use vstd::std_specs::cmp::OrdSpec;
use vstd::std_specs::iter::IteratorSpec;

verus! {

broadcast use {vstd::std_specs::btree::group_btree_axioms, vstd::laws_cmp::group_laws_cmp};

/// `v` lists the members of `s`, each once, in strictly increasing order.
pub open spec fn is_increasing_listing(v: Seq<u64>, s: Set<u64>) -> bool {
    &&& forall|i: int, j: int| 0 <= i < j < v.len() ==> v[i] < v[j]
    &&& forall|x: u64| s.contains(x) <==> v.contains(x)
}

/// A set has one increasing listing: the changed-block list of a tracker is
/// determined by its set of dirty blocks.
pub proof fn lemma_increasing_listing_unique(v: Seq<u64>, w: Seq<u64>, s: Set<u64>)
    requires
        is_increasing_listing(v, s),
        is_increasing_listing(w, s),
    ensures
        v == w,
    decreases v.len(),
{
    if v.len() == 0 {
        if w.len() > 0 {
            assert(w.contains(w[0]));
            assert(v.contains(w[0]));
        }
        assert(v =~= w);
    } else {
        assert(v.contains(v[0]));
        assert(w.len() > 0) by {
            assert(s.contains(v[0]));
        }
        assert(w.contains(w[0]));
        let a = v[0];
        let b = w[0];
        assert(a == b) by {
            assert(s.contains(b));
            let i = choose|i: int| 0 <= i < v.len() && v[i] == b;
            assert(s.contains(a));
            let j = choose|j: int| 0 <= j < w.len() && w[j] == a;
            if i > 0 {
                assert(a < b);
            }
            if j > 0 {
                assert(b < a);
            }
        }
        let s1 = s.remove(a);
        let v1 = v.drop_first();
        let w1 = w.drop_first();
        assert forall|x: u64| s1.contains(x) <==> v1.contains(x) by {
            if v1.contains(x) {
                let k = choose|k: int| 0 <= k < v1.len() && v1[k] == x;
                assert(v[k + 1] == x);
                assert(v.contains(x));
            }
            if s1.contains(x) {
                assert(v.contains(x));
                let k = choose|k: int| 0 <= k < v.len() && v[k] == x;
                assert(k != 0);
                assert(v1[k - 1] == x);
            }
        }
        assert forall|x: u64| s1.contains(x) <==> w1.contains(x) by {
            if w1.contains(x) {
                let k = choose|k: int| 0 <= k < w1.len() && w1[k] == x;
                assert(w[k + 1] == x);
                assert(w.contains(x));
            }
            if s1.contains(x) {
                assert(w.contains(x));
                let k = choose|k: int| 0 <= k < w.len() && w[k] == x;
                assert(k != 0);
                assert(w1[k - 1] == x);
            }
        }
        lemma_increasing_listing_unique(v1, w1, s1);
        assert(v =~= seq![a] + v1);
        assert(w =~= seq![b] + w1);
    }
}

proof fn lemma_increasing(keys: Seq<&u64>)
    requires
        increasing_seq(keys),
    ensures
        forall|a: int, b: int| 0 <= a < b < keys.len() ==> *keys[a] < *keys[b],
{
    assert(vstd::laws_cmp::obeys_cmp::<&u64>());
    vstd::std_specs::btree::axiom_increasing_seq_meaning(keys);
    assert forall|a: int, b: int| 0 <= a < b < keys.len() implies *keys[a] < *keys[b] by {
        assert(OrdSpec::cmp_spec(&keys[a], &keys[b]) is Less);
    }
}

/// The members of a set of block numbers, smallest first.
pub fn sorted_members(set: &BTreeSet<u64>) -> (v: Vec<u64>)
    ensures
        is_increasing_listing(v@, set@),
{
    let mut v: Vec<u64> = Vec::new();
    let iter = set.iter();
    let ghost s = iter.remaining();
    for x in it: iter
        invariant
            s == spec_btree_keys_iter(set).remaining(),
            it.seq() == s,
            v@.len() == it.index(),
            forall|j: int| 0 <= j < v@.len() ==> #[trigger] v@[j] == *s[j],
    {
        v.push(*x);
    }
    proof {
        let keys = s.map_values(|k: &u64| *k);
        assert(keys =~= s.unref());
        lemma_increasing(s);
        assert(v@ =~= keys);
        assert(keys.to_set() == set@);
        assert forall|x: u64| set@.contains(x) <==> v@.contains(x) by {
            if set@.contains(x) {
                assert(keys.to_set().contains(x));
            }
            if v@.contains(x) {
                assert(keys.to_set().contains(x));
            }
        }
    }
    v
}

} // verus!
