use vstd::prelude::*;
use std::collections::BTreeSet;
use vstd::std_specs::iter::IteratorSpec;
use vstd::std_specs::cmp::OrdSpec;

verus! {

broadcast use {vstd::std_specs::btree::group_btree_axioms, vstd::laws_cmp::group_laws_cmp};

/// Whether `x` is the least element of `s`.
pub open spec fn is_least(s: Set<usize>, x: usize) -> bool {
    s.contains(x) && forall|y: usize| #[trigger] s.contains(y) ==> x <= y
}

/// The least element of `set`, or `None` when it is empty.
pub fn first_of(set: &BTreeSet<usize>) -> (r: Option<usize>)
    ensures
        match r {
            Some(x) => is_least(set@, x),
            None => set@.is_empty(),
        },
{
    let ghost keys = vstd::std_specs::btree::spec_btree_keys_iter(set).remaining();
    let mut r: Option<usize> = None;
    for x in it: set.iter()
        invariant_except_break
            r is None,
            it.index() == 0,
        invariant
            keys == vstd::std_specs::btree::spec_btree_keys_iter(set).remaining(),
        ensures
            it.seq() == keys,
            r is None ==> it.seq().len() == 0,
            r matches Some(v) ==> it.seq().len() > 0 && v == *it.seq()[0],
    {
        r = Some(*x);
        break;
    }
    proof {
        let ks = keys.unref();
        assert(ks.to_set() == set@);
        if let Some(v) = r {
            assert(ks[0] == v);
            assert forall|y: usize| #[trigger] set@.contains(y) implies v <= y by {
                assert(ks.to_set().contains(y));
                let j = choose|j: int| 0 <= j < ks.len() && ks[j] == y;
                if j > 0 {
                    assert(vstd::std_specs::btree::increasing_seq(keys));
                    assert(vstd::laws_cmp::obeys_cmp::<&usize>());
                    let a = keys[0];
                    let b = keys[j];
                    assert((&a).cmp_spec(&&b) is Less);
                    assert(*keys[0] < *keys[j]);
                }
            }
        } else {
            assert(ks.len() == 0);
            assert(set@ =~= Set::empty());
        }
    }
    r
}

} // verus!
