//! Ordered maps keyed by identifiers.
use std::collections::BTreeMap;

use vstd::prelude::*;
use vstd::std_specs::btree::*;
use vstd::std_specs::cmp::OrdSpec;
use vstd::std_specs::iter::IteratorSpec;

verus! {

broadcast use vstd::std_specs::btree::group_btree_axioms;

/// Strictly increasing: in order, and nothing twice.
pub open spec fn ascending(s: Seq<u128>) -> bool {
    forall|i: int, j: int| 0 <= i < j < s.len() ==> s[i] < s[j]
}

proof fn lemma_ascending(s: Seq<u128>)
    requires
        increasing_seq(s),
    ensures
        ascending(s),
{
    broadcast use vstd::laws_cmp::group_laws_cmp;

    assert(vstd::laws_cmp::obeys_cmp::<u128>());
    assert forall|i: int, j: int| 0 <= i < j < s.len() implies s[i] < s[j] by {
        assert(s[i].cmp_spec(&s[j]) is Less);
    }
}

/// The keys of `m` in increasing order.
pub fn keys_of<V>(m: &BTreeMap<u128, V>) -> (r: Vec<u128>)
    ensures
        ascending(r@),
        forall|k: u128| r@.contains(k) <==> m@.contains_key(k),
        r@.len() == m@.dom().len(),
{
    let mut out: Vec<u128> = Vec::new();
    let entries = m.iter();
    let ghost all = entries.remaining();
    let ghost keys = all.map_values(|kv: (&u128, &V)| *kv.0);
    for entry in it: entries
        invariant
            out@ == keys.subrange(0, it.index() as int),
            it.seq() == all,
            keys == all.map_values(|kv: (&u128, &V)| *kv.0),
    {
        out.push(*entry.0);
        assert(out@ =~= keys.subrange(0, it.index() + 1));
    }
    proof {
        assert(keys.subrange(0, keys.len() as int) =~= keys);
        lemma_ascending(keys);
        assert forall|k: u128| keys.contains(k) implies m@.contains_key(k) by {
            let i = choose|i: int| 0 <= i < keys.len() && keys[i] == k;
            assert(m@.contains_key(*all[i].0));
        }
        assert forall|k: u128| m@.contains_key(k) implies keys.contains(k) by {
            assert(all.contains((&k, &m@[k])));
            let i = choose|i: int| 0 <= i < all.len() && all[i] == (&k, &m@[k]);
            assert(keys[i] == k);
        }
    }
    out
}

} // verus!
