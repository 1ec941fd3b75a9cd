//! The container that holds one element for each commitment tree.

use vstd::prelude::*;

verus! {

#[verifier::external_type_specification]
#[verifier::external_body]
#[verifier::reject_recursive_types(T)]
pub struct ExTreeVec<T>(stwo::core::pcs::TreeVec<T>);

/// What a `TreeVec` of column log sizes holds: for each tree, in order,
/// the log sizes of its columns.
pub uninterp spec fn tree_vec_contents(trees: stwo::core::pcs::TreeVec<Vec<u32>>) -> Seq<Seq<u32>>;

/// The log sizes of a layout, tree by tree.
pub open spec fn layout_view(trees: Seq<Vec<u32>>) -> Seq<Seq<u32>> {
    Seq::new(trees.len(), |t: int| trees[t]@)
}

/// `TreeVec::new` of stwo: the container of the given elements, in their
/// order.
#[verifier::external_body]
pub(crate) fn tree_vec_new(trees: Vec<Vec<u32>>) -> (r: stwo::core::pcs::TreeVec<Vec<u32>>)
    ensures
        tree_vec_contents(r) == layout_view(trees@),
{
    stwo::core::pcs::TreeVec::new(trees)
}

} // verus!
