//! What the solvers ask of the operators they are handed, and how an
//! operator and an optional preconditioner are applied one after the other.

use crate::vector::duplicate;
use vstd::prelude::*;

verus! {

/// `op` accepts every vector of `n` entries and answers with a vector of
/// the same length.
pub open spec fn preserves_dimension<T, A: Fn(&Vec<T>) -> Vec<T>>(op: &A, n: nat) -> bool {
    &&& forall|v: Vec<T>| v.len() == n ==> #[trigger] op.requires((&v,))
    &&& forall|v: Vec<T>, w: Vec<T>| #[trigger] op.ensures((&v,), w) ==> w.len() == v.len()
}

/// The preconditioner, where there is one, behaves on vectors of `n`
/// entries as [`preserves_dimension`] asks.
pub open spec fn preconditioner_preserves_dimension<T, M: Fn(&Vec<T>) -> Vec<T>>(
    pc: Option<&M>,
    n: nat,
) -> bool {
    pc matches Some(m) ==> preserves_dimension(m, n)
}

/// `w` is a possible outcome of preconditioning `v`: an answer of the
/// preconditioner, or `v` itself where there is none.
pub open spec fn preconditioned<T, M: Fn(&Vec<T>) -> Vec<T>>(pc: Option<&M>, v: Vec<T>, w: Vec<T>) -> bool {
    match pc {
        Some(m) => m.ensures((&v,), w),
        None => w@ == v@,
    }
}

/// `w` is a possible outcome of applying the operator to `v` and then
/// preconditioning the image.
pub open spec fn applied<T, A: Fn(&Vec<T>) -> Vec<T>, M: Fn(&Vec<T>) -> Vec<T>>(
    op: &A,
    pc: Option<&M>,
    v: Vec<T>,
    w: Vec<T>,
) -> bool {
    exists|image: Vec<T>| #[trigger] op.ensures((&v,), image) && preconditioned(pc, image, w)
}

/// Preconditions `v`; without a preconditioner the result is a copy of `v`.
pub fn precondition<T: Copy, M: Fn(&Vec<T>) -> Vec<T>>(pc: Option<&M>, v: &Vec<T>) -> (w: Vec<T>)
    requires
        preconditioner_preserves_dimension(pc, v.len() as nat),
    ensures
        preconditioned(pc, *v, w),
        w.len() == v.len(),
{
    match pc {
        Some(m) => m(v),
        None => duplicate(v),
    }
}

/// Applies the operator to `v`, then the preconditioner to the image.
pub fn apply<T: Copy, A: Fn(&Vec<T>) -> Vec<T>, M: Fn(&Vec<T>) -> Vec<T>>(
    op: &A,
    pc: Option<&M>,
    v: &Vec<T>,
) -> (w: Vec<T>)
    requires
        preserves_dimension(op, v.len() as nat),
        preconditioner_preserves_dimension(pc, v.len() as nat),
    ensures
        applied(op, pc, *v, w),
        w.len() == v.len(),
{
    let image = op(v);
    precondition(pc, &image)
}

} // verus!
