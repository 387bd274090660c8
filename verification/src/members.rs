//! A group of intersections: a set, read in rising order.

use std::collections::BTreeSet;
use vstd::laws_cmp::*;
use vstd::prelude::*;
use vstd::std_specs::btree::*;
use vstd::std_specs::cmp::OrdSpec;
use vstd::std_specs::iter::IteratorSpec;

verus! {

broadcast use {group_btree_axioms, group_laws_cmp};

/// `list` holds the members of `set`, each once, in rising order.
pub open spec fn lists(list: Seq<usize>, set: Set<usize>) -> bool {
    &&& list.to_set() == set
    &&& forall|i: int, j: int| 0 <= i < j < list.len() ==> list[i] < list[j]
}

/// The members of `set` in rising order.
pub fn in_order(set: &BTreeSet<usize>) -> (list: Vec<usize>)
    ensures
        lists(list@, set@),
{
    let mut list: Vec<usize> = Vec::new();
    for i in it: set.iter()
        invariant
            it.seq() == spec_btree_keys_iter(set).remaining(),
            list@ == it.seq().take(it.index()).unref(),
    {
        list.push(*i);
    }
    proof {
        let all = spec_btree_keys_iter(set).remaining();
        assert(list@ =~= all.unref());
        assert(increasing_seq(all));
        assert(obeys_cmp::<usize>());
        assert(obeys_cmp::<&usize>());
        axiom_increasing_seq_meaning::<&usize>(all);
        assert(all.len() == list@.len());
        assert forall|i: int, j: int| 0 <= i < j < list@.len() implies list@[i] < list@[j] by {
            assert(OrdSpec::cmp_spec(&all[i], &all[j]) is Less);
        }
    }
    list
}

/// Whether `i` is a member of `set`.
pub fn is_member(set: &BTreeSet<usize>, i: usize) -> (found: bool)
    ensures
        found == set@.contains(i),
{
    set.contains(&i)
}

} // verus!
