//! Insertion-ordered set of window ids, backed by `indexmap::IndexSet`.
//!
//! The set is opaque to the proofs. Its contents are named by
//! [`set_items`], and each wrapper states, without proof, what the wrapped
//! method does to them.

use indexmap::IndexSet;
use std::hash::RandomState;
use vstd::prelude::*;

verus! {

#[verifier::external_type_specification]
#[verifier::external_body]
#[verifier::reject_recursive_types(T)]
#[verifier::reject_recursive_types(S)]
pub struct ExIndexSet<T, S>(IndexSet<T, S>);

/// The ids held by the set, in the set's own order (insertion order, as far
/// as removals have not shifted it).
pub uninterp spec fn set_items(s: IndexSet<isize, RandomState>) -> Seq<isize>;

/// `IndexSet::new`: a set without items.
#[verifier::external_body]
pub(crate) fn new_set() -> (s: IndexSet<isize, RandomState>)
    ensures
        set_items(s) == Seq::<isize>::empty(),
{
    IndexSet::new()
}

/// `IndexSet::insert`: an id that the set holds already leaves the set as it
/// is and yields `false`; any other id is appended behind the last item and
/// yields `true`.
#[verifier::external_body]
pub(crate) fn insert(s: &mut IndexSet<isize, RandomState>, id: isize) -> (fresh: bool)
    ensures
        fresh == !set_items(*old(s)).contains(id),
        set_items(*final(s)) == if fresh {
            set_items(*old(s)).push(id)
        } else {
            set_items(*old(s))
        },
{
    s.insert(id)
}

/// `IndexSet::contains`: whether the id is among the items.
#[verifier::external_body]
pub(crate) fn contains(s: &IndexSet<isize, RandomState>, id: isize) -> (found: bool)
    ensures
        found == set_items(*s).contains(id),
{
    s.contains(&id)
}

/// `IndexSet::shift_remove`: takes the id out and closes the gap, so that
/// the other items keep their relative order; yields whether the id was
/// there.
#[verifier::external_body]
pub(crate) fn shift_remove(s: &mut IndexSet<isize, RandomState>, id: isize) -> (found: bool)
    ensures
        found == set_items(*old(s)).contains(id),
        set_items(*final(s)) == set_items(*old(s)).filter(|v: isize| v != id),
{
    s.shift_remove(&id)
}

/// `IndexSet::into_iter`: hands the items out in the set's order.
#[verifier::external_body]
pub(crate) fn into_items(s: IndexSet<isize, RandomState>) -> (items: Vec<isize>)
    ensures
        items@ == set_items(s),
{
    s.into_iter().collect()
}


} // verus!
