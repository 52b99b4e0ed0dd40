//! Listing the keys of a `BTreeMap` with 16-bit keys.

use std::collections::BTreeMap;
use vstd::prelude::*;
use vstd::std_specs::btree::{axiom_spec_keys_iter, increasing_seq, spec_keys_iter};
use vstd::std_specs::cmp::OrdSpec;
use vstd::std_specs::iter::IteratorSpec;

verus! {

broadcast use {vstd::std_specs::btree::group_btree_axioms, vstd::laws_cmp::group_laws_cmp};

/// The keys of `m`, each once, in increasing order.
pub fn u16_keys<V>(m: &BTreeMap<u16, V>) -> (r: Vec<u16>)
    ensures
        forall|k: u16| m@.contains_key(k) <==> #[trigger] r@.contains(k),
        r@.no_duplicates(),
        forall|i: int, j: int| 0 <= i < j < r@.len() ==> r@[i] < r@[j],
{
    let mut r: Vec<u16> = Vec::new();
    for k in it: m.keys()
        invariant
            r@ == it.seq().take(it.index() as int).map_values(|x: &u16| *x),
            it.seq() == spec_keys_iter(m).remaining(),
    {
        r.push(*k);
    }
    proof {
        axiom_spec_keys_iter(m);
        assert(spec_keys_iter(m).remaining().unref() =~= r@);
        assert forall|k: u16| m@.contains_key(k) <==> #[trigger] r@.contains(k) by {
            assert(r@.to_set().contains(k) <==> r@.contains(k));
        }
        lemma_increasing_keys(spec_keys_iter(m).remaining());
    }
    r
}

/// Keys listed in increasing order are listed in increasing numeric order.
proof fn lemma_increasing_keys(s: Seq<&u16>)
    requires
        increasing_seq(s),
    ensures
        forall|i: int, j: int| 0 <= i < j < s.len() ==> *s[i] < *s[j],
{
    assert(vstd::laws_cmp::obeys_cmp::<u16>());
    assert(vstd::laws_cmp::obeys_cmp::<&u16>());
    assert forall|i: int, j: int| 0 <= i < j < s.len() implies *s[i] < *s[j] by {
        assert(OrdSpec::cmp_spec(&s[i], &s[j]) is Less);
    }
}

} // verus!
