//! Trusted interface to `tinyvec::ArrayVec`, the fixed-capacity vector that
//! carries the one or two cells a placement occupies.

use vstd::prelude::*;

verus! {

/// Declares `tinyvec::ArrayVec` so that it can appear in signatures. Verus
/// treats a value of it as opaque; the functions below say what it holds.
#[verifier::external_type_specification]
#[verifier::external_body]
#[verifier::reject_recursive_types(A)]
pub struct ExArrayVec<A>(tinyvec::ArrayVec<A>);

/// The cells a capacity-two cell vector holds, in insertion order.
pub uninterp spec fn cell_vec_cells(v: tinyvec::ArrayVec<[(i8, i8); 2]>) -> Seq<(i8, i8)>;

/// Relies on tinyvec::ArrayVec::new: makes an empty vector.
#[verifier::external_body]
pub(crate) fn cell_vec_new() -> (v: tinyvec::ArrayVec<[(i8, i8); 2]>)
    ensures
        cell_vec_cells(v) == Seq::<(i8, i8)>::empty(),
{
    tinyvec::ArrayVec::new()
}

/// Relies on tinyvec::ArrayVec::push: appends the element at the end; panics
/// only when the vector is already at capacity, which the precondition rules
/// out.
#[verifier::external_body]
pub(crate) fn cell_vec_push(v: &mut tinyvec::ArrayVec<[(i8, i8); 2]>, c: (i8, i8))
    requires
        cell_vec_cells(*old(v)).len() < 2,
    ensures
        cell_vec_cells(*final(v)) == cell_vec_cells(*old(v)).push(c),
{
    v.push(c)
}

/// Relies on tinyvec::ArrayVec::as_slice: a slice of exactly the elements
/// held, in order.
#[verifier::external_body]
pub(crate) fn cell_vec_get(v: &tinyvec::ArrayVec<[(i8, i8); 2]>, i: usize) -> (c: (i8, i8))
    requires
        i < cell_vec_cells(*v).len(),
    ensures
        c == cell_vec_cells(*v)[i as int],
{
    v.as_slice()[i]
}

} // verus!
