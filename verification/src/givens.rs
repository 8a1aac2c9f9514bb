//! Plane rotations that triangularize a Hessenberg matrix one column at a time.
//!
//! The pair `(cs, sn)` that is generated for a pair of operands is a
//! rotation for real scalars: there `cs * cs + sn * sn` is one in exact
//! arithmetic, and applying it keeps the length of what it is applied to.
//! For complex scalars the same formula is used. The pair it gives still
//! sends the operands to a pair whose second component vanishes, but it is
//! in general no rotation: with the operands `1` and `0.9i` the squared
//! magnitudes of `cs` and `sn` add up to about `9.5`, and operands such as
//! `i` and `1`, for which `1 + t * t` is zero, lead to a division by zero.
//! What is rotated by such a pair changes its length.

use crate::scalar::{ComplexOrReal, RealScalar};
use vstd::prelude::*;

verus! {

/// The pair a rotation `(cs, sn)` makes of `(dx, dy)`: the first component
/// is combined with the conjugated coefficients, the second with the plain ones.
pub open spec fn rotated<T: ComplexOrReal<U>, U: RealScalar>(dx: T, dy: T, cs: T, sn: T) -> (T, T) {
    (
        cs.conj_spec().mul_spec(dx).add_spec(sn.conj_spec().mul_spec(dy)),
        sn.neg_spec().mul_spec(dx).add_spec(cs.mul_spec(dy)),
    )
}

/// Applies the rotation `(cs, sn)` to the pair `(dx, dy)`.
pub fn apply_plane_rotation<T: ComplexOrReal<U>, U: RealScalar>(dx: T, dy: T, cs: T, sn: T) -> (r: (T, T))
    ensures
        r == rotated::<T, U>(dx, dy, cs, sn),
{
    let first = cs.conj().mul(dx).add(sn.conj().mul(dy));
    let second = sn.neg().mul(dx).add(cs.mul(dy));
    (first, second)
}

/// `1 / sqrt(1 + t * t)`, the coefficient that goes with the larger operand.
pub open spec fn leading_coefficient<T: ComplexOrReal<U>, U: RealScalar>(t: T) -> T {
    T::one_spec().div_spec(T::one_spec().add_spec(t.mul_spec(t)).sqrt_spec())
}

/// The pair `(cs, sn)` that sends `(dx, dy)` to a pair whose second
/// component vanishes; a rotation where the scalars are real.
///
/// A `dy` of zero magnitude gives the identity. Otherwise the quotient of the
/// operand of smaller magnitude by the larger one is formed, so that it never
/// exceeds one in magnitude. Conjugates play no part here, only where the
/// pair is applied.
pub open spec fn rotation_for<T: ComplexOrReal<U>, U: RealScalar>(dx: T, dy: T) -> (T, T) {
    if dy.abs_spec().is_zero_spec() {
        (T::one_spec(), T::zero_spec())
    } else if dx.abs_spec().lt_spec(dy.abs_spec()) {
        let t = dx.div_spec(dy);
        let sn = leading_coefficient::<T, U>(t);
        (t.mul_spec(sn), sn)
    } else {
        let t = dy.div_spec(dx);
        let cs = leading_coefficient::<T, U>(t);
        (cs, t.mul_spec(cs))
    }
}

/// Generates the rotation that zeroes `dy` against `dx`.
pub fn generate_plane_rotation<T: ComplexOrReal<U>, U: RealScalar>(dx: T, dy: T) -> (r: (T, T))
    ensures
        r == rotation_for::<T, U>(dx, dy),
{
    if dy.abs().is_zero() {
        (T::one(), T::zero())
    } else if dx.abs().lt(dy.abs()) {
        let t = dx.div(dy);
        let sn = T::one().div(T::one().add(t.mul(t)).sqrt());
        (t.mul(sn), sn)
    } else {
        let t = dy.div(dx);
        let cs = T::one().div(T::one().add(t.mul(t)).sqrt());
        (cs, t.mul(cs))
    }
}

/// A column after the first `k` of the rotations `(cs[j], sn[j])` have been
/// applied to it in order, rotation `j` acting on entries `j` and `j + 1`.
pub open spec fn rotate_prefix<T: ComplexOrReal<U>, U: RealScalar>(
    col: Seq<T>,
    cs: Seq<T>,
    sn: Seq<T>,
    k: nat,
) -> Seq<T>
    decreases k,
{
    if k == 0 {
        col
    } else {
        let c = rotate_prefix::<T, U>(col, cs, sn, (k - 1) as nat);
        let p = rotated::<T, U>(c[k - 1], c[k as int], cs[k - 1], sn[k - 1]);
        c.update(k - 1, p.0).update(k as int, p.1)
    }
}

/// Rotating a column keeps its length.
pub proof fn lemma_rotate_prefix_len<T: ComplexOrReal<U>, U: RealScalar>(
    col: Seq<T>,
    cs: Seq<T>,
    sn: Seq<T>,
    k: nat,
)
    requires
        k < col.len(),
    ensures
        rotate_prefix::<T, U>(col, cs, sn, k).len() == col.len(),
    decreases k,
{
    if k > 0 {
        lemma_rotate_prefix_len::<T, U>(col, cs, sn, (k - 1) as nat);
    }
}

/// Applies all earlier rotations to a fresh Hessenberg column, which has
/// two entries more than there are rotations.
pub fn rotate_column<T: ComplexOrReal<U>, U: RealScalar>(col: &mut Vec<T>, cs: &Vec<T>, sn: &Vec<T>)
    requires
        cs.len() == sn.len(),
        old(col).len() == cs.len() + 2,
    ensures
        final(col)@ == rotate_prefix::<T, U>(old(col)@, cs@, sn@, cs@.len()),
{
    let mut k: usize = 0;
    while k < cs.len()
        invariant
            k <= cs.len(),
            cs.len() == sn.len(),
            col.len() == cs.len() + 2,
            col@ == rotate_prefix::<T, U>(old(col)@, cs@, sn@, k as nat),
        decreases cs.len() - k,
    {
        let (a, b) = apply_plane_rotation::<T, U>(col[k], col[k + 1], cs[k], sn[k]);
        col.set(k, a);
        col.set(k + 1, b);
        k += 1;
    }
}

/// The pair `(a, b)` at positions `i` and `i + 1` of `v` replaced by its
/// image under the rotation `(cs, sn)`.
pub open spec fn rotate_pair_spec<T: ComplexOrReal<U>, U: RealScalar>(v: Seq<T>, i: int, cs: T, sn: T) -> Seq<T> {
    let p = rotated::<T, U>(v[i], v[i + 1], cs, sn);
    v.update(i, p.0).update(i + 1, p.1)
}

/// Rotates entries `i` and `i + 1` of `v` in place.
pub fn rotate_pair<T: ComplexOrReal<U>, U: RealScalar>(v: &mut Vec<T>, i: usize, cs: T, sn: T)
    requires
        i + 1 < old(v).len(),
    ensures
        final(v)@ == rotate_pair_spec::<T, U>(old(v)@, i as int, cs, sn),
{
    let (a, b) = apply_plane_rotation::<T, U>(v[i], v[i + 1], cs, sn);
    v.set(i, a);
    v.set(i + 1, b);
}

} // verus!
