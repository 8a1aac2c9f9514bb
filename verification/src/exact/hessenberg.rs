//! The Hessenberg relation in exact arithmetic: the coefficients a step
//! produces rebuild the vector it was fed from the basis.

use crate::arnoldi::KrylovModel;
use crate::scalar::{ComplexOrReal, RealScalar};
use vstd::prelude::*;

verus! {


/// Entry `i` of the combination of the first `n` vectors of `basis`, vector
/// `j` weighted by `coeffs[j]`, summed from the first vector on.
pub open spec fn weighted_sum<T: ComplexOrReal<U>, U: RealScalar>(
    basis: Seq<Seq<T>>,
    coeffs: Seq<T>,
    n: nat,
    i: int,
) -> T
    decreases n,
{
    if n == 0 {
        T::zero_spec()
    } else {
        weighted_sum::<T, U>(basis, coeffs, (n - 1) as nat, i).add_spec(
            basis[n - 1][i].mul_spec(coeffs[n - 1]),
        )
    }
}

/// A weighted sum depends on the vectors and weights it uses alone.
pub proof fn lemma_weighted_sum_prefix<T: ComplexOrReal<U>, U: RealScalar>(
    basis: Seq<Seq<T>>,
    coeffs: Seq<T>,
    basis2: Seq<Seq<T>>,
    coeffs2: Seq<T>,
    n: nat,
    i: int,
)
    requires
        n <= basis.len(),
        n <= basis2.len(),
        n <= coeffs.len(),
        n <= coeffs2.len(),
        forall|j: int| 0 <= j < n ==> basis[j] == basis2[j],
        forall|j: int| 0 <= j < n ==> coeffs[j] == coeffs2[j],
    ensures
        weighted_sum::<T, U>(basis, coeffs, n, i) == weighted_sum::<T, U>(basis2, coeffs2, n, i),
    decreases n,
{
    if n > 0 {
        lemma_weighted_sum_prefix::<T, U>(basis, coeffs, basis2, coeffs2, (n - 1) as nat, i);
    }
}

/// During orthogonalization nothing of `w` is lost: at every stage, what
/// was projected out so far and what is left add up to `w`.
pub proof fn lemma_orthogonalization_splits<T: ComplexOrReal<U>, U: RealScalar>(
    basis: Seq<Seq<T>>,
    w: Seq<T>,
    j: nat,
    i: int,
)
    requires
        crate::exact::field::exact_addition::<T, U>(),
        j <= basis.len(),
        0 <= i < w.len(),
        forall|k: int| 0 <= k < basis.len() ==> (#[trigger] basis[k]).len() == w.len(),
    ensures
        ({
            let (coeffs, v) = crate::arnoldi::mgs::<T, U>(basis, w, j);
            weighted_sum::<T, U>(basis, coeffs, j, i).add_spec(v[i]) == w[i]
        }),
    decreases j,
{
    if j == 0 {
        crate::exact::field::lemma_zero_add::<T, U>(w[i]);
    } else {
        let (c0, v0) = crate::arnoldi::mgs::<T, U>(basis, w, (j - 1) as nat);
        let (c1, v1) = crate::arnoldi::mgs::<T, U>(basis, w, j);
        lemma_orthogonalization_splits::<T, U>(basis, w, (j - 1) as nat, i);
        crate::arnoldi::lemma_mgs_len::<T, U>(basis, w, (j - 1) as nat);
        let h = crate::vector::dot_conj_spec::<T, U>(basis[j - 1], v0, v0.len());
        let p = basis[j - 1][i].mul_spec(h);
        lemma_weighted_sum_prefix::<T, U>(basis, c1, basis, c0, (j - 1) as nat, i);
        let s = weighted_sum::<T, U>(basis, c0, (j - 1) as nat, i);
        crate::exact::field::lemma_regroup::<T, U>(s, p, v0[i]);
    }
}

/// The Hessenberg relation. In exact arithmetic, a step that extends the
/// basis by the image `w` of its last vector, with a nonzero subdiagonal
/// coefficient, produces a column whose entries rebuild `w` from the
/// extended basis: `w` is the sum of the basis vectors weighted by the
/// column.
pub proof fn lemma_hessenberg_relation<T: ComplexOrReal<U>, U: RealScalar>(
    pre: KrylovModel<T>,
    w: Seq<T>,
    i: int,
)
    requires
        crate::exact::field::exact_addition::<T, U>(),
        crate::exact::field::exact_division::<T, U>(),
        crate::arnoldi::well_shaped(pre),
        pre.basis.len() > 0,
        w.len() == pre.basis[0].len(),
        0 <= i < w.len(),
        crate::arnoldi::extend_spec::<T, U>(pre, w).1 is Ok,
        crate::arnoldi::remainder_norm::<T, U>(pre.basis, w) != T::zero_spec(),
    ensures
        ({
            let post = crate::arnoldi::extend_spec::<T, U>(pre, w).0;
            weighted_sum::<T, U>(post.basis, post.columns.last(), post.basis.len(), i) == w[i]
        }),
{
    let post = crate::arnoldi::extend_spec::<T, U>(pre, w).0;
    let n = pre.basis.len();
    let (coeffs, v) = crate::arnoldi::mgs::<T, U>(pre.basis, w, n);
    let rho = crate::arnoldi::remainder_norm::<T, U>(pre.basis, w);
    let col = coeffs.push(rho);
    crate::arnoldi::lemma_mgs_len::<T, U>(pre.basis, w, n);
    lemma_orthogonalization_splits::<T, U>(pre.basis, w, n, i);
    lemma_weighted_sum_prefix::<T, U>(post.basis, col, pre.basis, coeffs, n, i);
    crate::exact::field::lemma_div_then_mul::<T, U>(v[i], rho);
}

/// The Hessenberg relation after any number of steps. In exact
/// arithmetic, once `k` steps have succeeded with nonzero subdiagonal
/// coefficients, the column that step `j` produced still rebuilds the
/// vector that was fed to that step from the basis vectors up to the one
/// the step added.
pub proof fn lemma_hessenberg_relation_holds_on<T: ComplexOrReal<U>, U: RealScalar>(
    pre: KrylovModel<T>,
    images: Seq<Seq<T>>,
    k: nat,
    j: nat,
    i: int,
)
    requires
        crate::exact::field::exact_addition::<T, U>(),
        crate::exact::field::exact_division::<T, U>(),
        crate::arnoldi::well_shaped(pre),
        pre.basis.len() > 0,
        crate::arnoldi::steps_succeed::<T, U>(pre, images, k),
        j < k,
        0 <= i < pre.basis[0].len(),
    ensures
        ({
            let end = crate::arnoldi::grown::<T, U>(pre, images, k);
            weighted_sum::<T, U>(
                end.basis,
                end.columns[(pre.columns.len() + j) as int],
                pre.basis.len() + j + 1,
                i,
            ) == images[j as int][i]
        }),
{
    let at = crate::arnoldi::grown::<T, U>(pre, images, j);
    let next = crate::arnoldi::grown::<T, U>(pre, images, j + 1);
    let end = crate::arnoldi::grown::<T, U>(pre, images, k);
    crate::arnoldi::lemma_grown_shape::<T, U>(pre, images, j);
    crate::arnoldi::lemma_grown_shape::<T, U>(pre, images, k);
    crate::arnoldi::lemma_grown_appends::<T, U>(pre, images, j + 1, k);
    lemma_hessenberg_relation::<T, U>(at, images[j as int], i);
    let n = (pre.basis.len() + j + 1) as nat;
    let c = (pre.columns.len() + j) as int;
    lemma_weighted_sum_prefix::<T, U>(end.basis, end.columns[c], next.basis, next.columns.last(), n, i);
}

} // verus!
