//! Orthonormality of the Krylov basis in exact arithmetic.

use crate::arnoldi::KrylovModel;
use crate::scalar::{ComplexOrReal, RealScalar};
use vstd::prelude::*;

verus! {

/// The inner product of vector `a` of `basis` with vector `b`, conjugating
/// the former.
pub open spec fn inner<T: ComplexOrReal<U>, U: RealScalar>(basis: Seq<Seq<T>>, a: int, b: int) -> T {
    crate::vector::dot_conj_spec::<T, U>(basis[a], basis[b], basis[b].len())
}

/// Every vector of `basis` has inner product one with itself and zero with
/// every other.
pub open spec fn orthonormal<T: ComplexOrReal<U>, U: RealScalar>(basis: Seq<Seq<T>>) -> bool {
    forall|a: int, b: int|
        0 <= a < basis.len() && 0 <= b < basis.len() ==> #[trigger] inner::<T, U>(basis, a, b) == if a == b {
            T::one_spec()
        } else {
            T::zero_spec()
        }
}

/// All the laws of exact arithmetic that orthonormality rests on.
pub open spec fn exact_arithmetic<T: ComplexOrReal<U>, U: RealScalar>() -> bool {
    &&& crate::exact::field::exact_addition::<T, U>()
    &&& crate::exact::field::exact_subtraction::<T, U>()
    &&& crate::exact::field::exact_multiplication::<T, U>()
    &&& crate::exact::field::exact_quotients::<T, U>()
    &&& crate::exact::field::exact_conjugation::<T, U>()
    &&& crate::exact::field::exact_magnitude::<T, U>()
    &&& crate::exact::field::exact_root::<U>()
}

/// The inner product is linear in its second argument: removing a multiple
/// of `u` from `v` removes the same multiple of the inner product with `u`.
pub proof fn lemma_dot_of_difference<T: ComplexOrReal<U>, U: RealScalar>(
    q: Seq<T>,
    v: Seq<T>,
    u: Seq<T>,
    h: T,
    m: nat,
)
    requires
        crate::exact::field::exact_addition::<T, U>(),
        crate::exact::field::exact_subtraction::<T, U>(),
        crate::exact::field::exact_multiplication::<T, U>(),
        m <= v.len(),
    ensures
        crate::vector::dot_conj_spec::<T, U>(q, crate::vector::sub_scaled_spec::<T, U>(v, u, h), m)
            == crate::vector::dot_conj_spec::<T, U>(q, v, m).sub_spec(
            crate::vector::dot_conj_spec::<T, U>(q, u, m).mul_spec(h),
        ),
    decreases m,
{
    let zero = T::zero_spec();
    if m == 0 {
        crate::exact::field::lemma_zero_mul::<T, U>(h);
        crate::exact::field::lemma_sub_self::<T, U>(zero);
    } else {
        let k = (m - 1) as nat;
        lemma_dot_of_difference::<T, U>(q, v, u, h, k);
        let a = crate::vector::dot_conj_spec::<T, U>(q, v, k);
        let b = crate::vector::dot_conj_spec::<T, U>(q, u, k);
        let c = q[k as int].conj_spec();
        let vm = v[k as int];
        let um = u[k as int];
        crate::exact::field::lemma_distribute_over_difference::<T, U>(c, vm, um.mul_spec(h));
        crate::exact::field::lemma_mul_associates::<T, U>(c, um, h);
        crate::exact::field::lemma_regroup_differences::<T, U>(
            a,
            b.mul_spec(h),
            c.mul_spec(vm),
            c.mul_spec(um).mul_spec(h),
        );
        crate::exact::field::lemma_distribute_right::<T, U>(b, c.mul_spec(um), h);
    }
}

/// The inner product is linear in its second argument: dividing `v` by a
/// nonzero scalar divides the inner product.
pub proof fn lemma_dot_of_quotient<T: ComplexOrReal<U>, U: RealScalar>(q: Seq<T>, v: Seq<T>, rho: T, m: nat)
    requires
        crate::exact::field::exact_quotients::<T, U>(),
        rho != T::zero_spec(),
        m <= v.len(),
    ensures
        crate::vector::dot_conj_spec::<T, U>(q, crate::vector::div_all_spec::<T, U>(v, rho), m)
            == crate::vector::dot_conj_spec::<T, U>(q, v, m).div_spec(rho),
    decreases m,
{
    if m == 0 {
        crate::exact::field::lemma_zero_div::<T, U>(rho);
    } else {
        let k = (m - 1) as nat;
        lemma_dot_of_quotient::<T, U>(q, v, rho, k);
        let a = crate::vector::dot_conj_spec::<T, U>(q, v, k);
        let c = q[k as int].conj_spec();
        crate::exact::field::lemma_mul_of_quotient::<T, U>(c, v[k as int], rho);
        crate::exact::field::lemma_div_of_sum::<T, U>(a, c.mul_spec(v[k as int]), rho);
    }
}

/// Swapping the arguments of the inner product conjugates it.
pub proof fn lemma_dot_swapped<T: ComplexOrReal<U>, U: RealScalar>(q: Seq<T>, v: Seq<T>, m: nat)
    requires
        crate::exact::field::exact_multiplication::<T, U>(),
        crate::exact::field::exact_conjugation::<T, U>(),
    ensures
        crate::vector::dot_conj_spec::<T, U>(v, q, m) == crate::vector::dot_conj_spec::<T, U>(
            q,
            v,
            m,
        ).conj_spec(),
    decreases m,
{
    if m == 0 {
        crate::exact::field::lemma_conj_of_zero::<T, U>();
    } else {
        let k = (m - 1) as nat;
        lemma_dot_swapped::<T, U>(q, v, k);
        let a = crate::vector::dot_conj_spec::<T, U>(q, v, k);
        let term = q[k as int].conj_spec().mul_spec(v[k as int]);
        crate::exact::field::lemma_conj_of_sum::<T, U>(a, term);
        crate::exact::field::lemma_conj_of_product::<T, U>(q[k as int].conj_spec(), v[k as int]);
        crate::exact::field::lemma_conj_twice::<T, U>(q[k as int]);
        crate::exact::field::lemma_mul_commutes::<T, U>(q[k as int], v[k as int].conj_spec());
    }
}

/// The inner product of a vector with itself is its sum of squared
/// magnitudes.
pub proof fn lemma_dot_with_itself<T: ComplexOrReal<U>, U: RealScalar>(v: Seq<T>, m: nat)
    requires
        crate::exact::field::exact_magnitude::<T, U>(),
    ensures
        crate::vector::dot_conj_spec::<T, U>(v, v, m) == T::from_real_spec(
            crate::scalar::sum_sq::<T, U>(v, m),
        ),
    decreases m,
{
    if m == 0 {
        crate::exact::field::lemma_embed_zero::<T, U>();
    } else {
        let k = (m - 1) as nat;
        lemma_dot_with_itself::<T, U>(v, k);
        let a = v[k as int].abs_spec();
        let s = crate::scalar::sum_sq::<T, U>(v, k);
        crate::exact::field::lemma_conj_times_self::<T, U>(v[k as int]);
        crate::exact::field::lemma_embed_sum::<T, U>(s, a.mul_spec(a));
    }
}

/// A sum of squared magnitudes is not negative.
pub proof fn lemma_sum_sq_nonnegative<T: ComplexOrReal<U>, U: RealScalar>(v: Seq<T>, m: nat)
    requires
        crate::exact::field::exact_root::<U>(),
    ensures
        U::zero_spec().le_spec(crate::scalar::sum_sq::<T, U>(v, m)),
    decreases m,
{
    if m == 0 {
        crate::exact::field::lemma_zero_nonnegative::<U>();
    } else {
        let k = (m - 1) as nat;
        lemma_sum_sq_nonnegative::<T, U>(v, k);
        let a = v[k as int].abs_spec();
        crate::exact::field::lemma_square_nonnegative::<U>(a);
        crate::exact::field::lemma_sum_nonnegative::<U>(crate::scalar::sum_sq::<T, U>(v, k), a.mul_spec(a));
    }
}

/// The norm of a vector, as a scalar, squares to the inner product of the
/// vector with itself.
pub proof fn lemma_norm_squared<T: ComplexOrReal<U>, U: RealScalar>(v: Seq<T>)
    requires
        crate::exact::field::exact_magnitude::<T, U>(),
        crate::exact::field::exact_root::<U>(),
    ensures
        ({
            let rho = T::from_real_spec(crate::scalar::norm_spec::<T, U>(v));
            crate::vector::dot_conj_spec::<T, U>(v, v, v.len()) == rho.mul_spec(rho)
        }),
{
    let ss = crate::scalar::sum_sq::<T, U>(v, v.len());
    lemma_sum_sq_nonnegative::<T, U>(v, v.len());
    lemma_dot_with_itself::<T, U>(v, v.len());
    let sigma = ss.sqrt_spec();
    crate::exact::field::lemma_root_squared::<U>(ss);
    crate::exact::field::lemma_embed_product::<T, U>(sigma, sigma);
}

/// A vector divided by its nonzero norm has inner product one with itself.
pub proof fn lemma_normalized<T: ComplexOrReal<U>, U: RealScalar>(v: Seq<T>)
    requires
        exact_arithmetic::<T, U>(),
        T::from_real_spec(crate::scalar::norm_spec::<T, U>(v)) != T::zero_spec(),
    ensures
        ({
            let q = crate::vector::div_all_spec::<T, U>(
                v,
                T::from_real_spec(crate::scalar::norm_spec::<T, U>(v)),
            );
            crate::vector::dot_conj_spec::<T, U>(q, q, q.len()) == T::one_spec()
        }),
{
    let rho = T::from_real_spec(crate::scalar::norm_spec::<T, U>(v));
    let q = crate::vector::div_all_spec::<T, U>(v, rho);
    let n = v.len();
    lemma_norm_squared::<T, U>(v);
    // <v, q> = <v, v> / rho = rho
    lemma_dot_of_quotient::<T, U>(v, v, rho, n);
    crate::exact::field::lemma_mul_then_div::<T, U>(rho, rho);
    // <q, v> = conj(<v, q>) = rho
    lemma_dot_swapped::<T, U>(v, q, n);
    crate::exact::field::lemma_conj_of_real::<T, U>(crate::scalar::norm_spec::<T, U>(v));
    // <q, q> = <q, v> / rho = rho / rho = 1
    lemma_dot_of_quotient::<T, U>(q, v, rho, n);
    crate::exact::field::lemma_one_mul::<T, U>(rho);
    crate::exact::field::lemma_mul_then_div::<T, U>(T::one_spec(), rho);
}

/// After orthogonalization against the first `j` vectors of an orthonormal
/// basis, what is left of `w` has inner product zero with each of them.
pub proof fn lemma_remainder_is_orthogonal<T: ComplexOrReal<U>, U: RealScalar>(
    basis: Seq<Seq<T>>,
    w: Seq<T>,
    j: nat,
    a: int,
)
    requires
        exact_arithmetic::<T, U>(),
        orthonormal::<T, U>(basis),
        j <= basis.len(),
        0 <= a < j,
        forall|k: int| 0 <= k < basis.len() ==> (#[trigger] basis[k]).len() == w.len(),
    ensures
        crate::vector::dot_conj_spec::<T, U>(basis[a], crate::arnoldi::mgs::<T, U>(basis, w, j).1, w.len())
            == T::zero_spec(),
    decreases j,
{
    let zero = T::zero_spec();
    let k = (j - 1) as nat;
    let (c0, v0) = crate::arnoldi::mgs::<T, U>(basis, w, k);
    crate::arnoldi::lemma_mgs_len::<T, U>(basis, w, k);
    let qk = basis[k as int];
    let h = crate::vector::dot_conj_spec::<T, U>(qk, v0, v0.len());
    lemma_dot_of_difference::<T, U>(basis[a], v0, qk, h, w.len());
    let aq = crate::vector::dot_conj_spec::<T, U>(basis[a], qk, w.len());
    assert(aq == inner::<T, U>(basis, a, k as int));
    if a < k {
        lemma_remainder_is_orthogonal::<T, U>(basis, w, k, a);
        crate::exact::field::lemma_zero_mul::<T, U>(h);
        crate::exact::field::lemma_sub_self::<T, U>(zero);
    } else {
        crate::exact::field::lemma_one_mul::<T, U>(h);
        crate::exact::field::lemma_sub_self::<T, U>(h);
    }
}

/// Orthonormality is kept. In exact arithmetic, a step that extends an
/// orthonormal basis, with a nonzero subdiagonal coefficient, leaves an
/// orthonormal basis.
pub proof fn lemma_step_keeps_orthonormality<T: ComplexOrReal<U>, U: RealScalar>(pre: KrylovModel<T>, w: Seq<T>)
    requires
        exact_arithmetic::<T, U>(),
        crate::arnoldi::well_shaped(pre),
        pre.basis.len() > 0,
        w.len() == pre.basis[0].len(),
        orthonormal::<T, U>(pre.basis),
        crate::arnoldi::extend_spec::<T, U>(pre, w).1 is Ok,
        crate::arnoldi::remainder_norm::<T, U>(pre.basis, w) != T::zero_spec(),
    ensures
        orthonormal::<T, U>(crate::arnoldi::extend_spec::<T, U>(pre, w).0.basis),
{
    let zero = T::zero_spec();
    let post = crate::arnoldi::extend_spec::<T, U>(pre, w).0;
    let n = pre.basis.len();
    let dim = w.len();
    let v = crate::arnoldi::mgs::<T, U>(pre.basis, w, n).1;
    let rho = crate::arnoldi::remainder_norm::<T, U>(pre.basis, w);
    let q = crate::vector::div_all_spec::<T, U>(v, rho);
    crate::arnoldi::lemma_mgs_len::<T, U>(pre.basis, w, n);
    assert forall|a: int, b: int| 0 <= a < post.basis.len() && 0 <= b < post.basis.len() implies #[trigger] inner::<
        T,
        U,
    >(post.basis, a, b) == if a == b {
        T::one_spec()
    } else {
        zero
    } by {
        if a < n && b < n {
            assert(inner::<T, U>(post.basis, a, b) == inner::<T, U>(pre.basis, a, b));
        } else if a < n {
            lemma_remainder_is_orthogonal::<T, U>(pre.basis, w, n, a);
            lemma_dot_of_quotient::<T, U>(pre.basis[a], v, rho, dim);
            crate::exact::field::lemma_zero_div::<T, U>(rho);
        } else if b < n {
            lemma_remainder_is_orthogonal::<T, U>(pre.basis, w, n, b);
            lemma_dot_of_quotient::<T, U>(pre.basis[b], v, rho, dim);
            crate::exact::field::lemma_zero_div::<T, U>(rho);
            lemma_dot_swapped::<T, U>(pre.basis[b], q, dim);
            crate::exact::field::lemma_conj_of_zero::<T, U>();
        } else {
            lemma_normalized::<T, U>(v);
        }
    }
}

/// A basis that consists of a normalized seed with nonzero norm is
/// orthonormal in exact arithmetic.
pub proof fn lemma_seed_is_orthonormal<T: ComplexOrReal<U>, U: RealScalar>(b: Seq<T>)
    requires
        exact_arithmetic::<T, U>(),
        T::from_real_spec(crate::scalar::norm_spec::<T, U>(b)) != T::zero_spec(),
    ensures
        orthonormal::<T, U>(
            seq![
                crate::vector::div_all_spec::<T, U>(
                    b,
                    T::from_real_spec(crate::scalar::norm_spec::<T, U>(b)),
                ),
            ],
        ),
{
    lemma_normalized::<T, U>(b);
}

/// Orthonormality after any number of steps. In exact arithmetic, steps
/// that succeed with nonzero subdiagonal coefficients turn an orthonormal
/// basis into an orthonormal basis.
pub proof fn lemma_steps_keep_orthonormality<T: ComplexOrReal<U>, U: RealScalar>(
    pre: KrylovModel<T>,
    images: Seq<Seq<T>>,
    k: nat,
)
    requires
        exact_arithmetic::<T, U>(),
        crate::arnoldi::well_shaped(pre),
        pre.basis.len() > 0,
        orthonormal::<T, U>(pre.basis),
        crate::arnoldi::steps_succeed::<T, U>(pre, images, k),
    ensures
        orthonormal::<T, U>(crate::arnoldi::grown::<T, U>(pre, images, k).basis),
    decreases k,
{
    if k > 0 {
        let j = (k - 1) as nat;
        let before = crate::arnoldi::grown::<T, U>(pre, images, j);
        lemma_steps_keep_orthonormality::<T, U>(pre, images, j);
        crate::arnoldi::lemma_grown_shape::<T, U>(pre, images, j);
        lemma_step_keeps_orthonormality::<T, U>(before, images[j as int]);
    }
}

} // verus!
