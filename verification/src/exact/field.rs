//! The algebraic laws that exact arithmetic obeys, as hypotheses.
//!
//! Each group of laws is a predicate on a scalar type: it says that the
//! specification functions of the type obey the laws for all values. The
//! predicates are opaque, and each law can be had for given values through
//! a lemma of its own, so that a proof uses exactly the instances it names.

use crate::scalar::{ComplexOrReal, RealScalar};
use vstd::prelude::*;

verus! {


/// Addition is commutative and associative, zero is neutral on the left,
/// and addition undoes subtraction: `(a - b) + b == a`.
#[verifier::opaque]
pub open spec fn exact_addition<T: ComplexOrReal<U>, U: RealScalar>() -> bool {
    &&& forall|a: T, b: T| #[trigger] a.add_spec(b) == b.add_spec(a)
    &&& forall|a: T, b: T, c: T| #[trigger] a.add_spec(b).add_spec(c) == a.add_spec(b.add_spec(c))
    &&& forall|a: T| #[trigger] T::zero_spec().add_spec(a) == a
    &&& forall|a: T, b: T| #[trigger] a.sub_spec(b).add_spec(b) == a
}

/// `a + b == b + a`.
pub proof fn lemma_add_commutes<T: ComplexOrReal<U>, U: RealScalar>(a: T, b: T)
    requires
        exact_addition::<T, U>(),
    ensures
        a.add_spec(b) == b.add_spec(a),
{
    reveal(exact_addition);
}

/// `(a + b) + c == a + (b + c)`.
pub proof fn lemma_add_associates<T: ComplexOrReal<U>, U: RealScalar>(a: T, b: T, c: T)
    requires
        exact_addition::<T, U>(),
    ensures
        a.add_spec(b).add_spec(c) == a.add_spec(b.add_spec(c)),
{
    reveal(exact_addition);
}

/// `0 + a == a`.
pub proof fn lemma_zero_add<T: ComplexOrReal<U>, U: RealScalar>(a: T)
    requires
        exact_addition::<T, U>(),
    ensures
        T::zero_spec().add_spec(a) == a,
{
    reveal(exact_addition);
}

/// `(a - b) + b == a`.
pub proof fn lemma_sub_then_add<T: ComplexOrReal<U>, U: RealScalar>(a: T, b: T)
    requires
        exact_addition::<T, U>(),
    ensures
        a.sub_spec(b).add_spec(b) == a,
{
    reveal(exact_addition);
}

/// Subtraction undoes addition: `(a + b) - b == a`.
#[verifier::opaque]
pub open spec fn exact_subtraction<T: ComplexOrReal<U>, U: RealScalar>() -> bool {
    &&& forall|a: T, b: T| #[trigger] a.add_spec(b).sub_spec(b) == a
}

/// `(a + b) - b == a`.
pub proof fn lemma_add_then_sub<T: ComplexOrReal<U>, U: RealScalar>(a: T, b: T)
    requires
        exact_subtraction::<T, U>(),
    ensures
        a.add_spec(b).sub_spec(b) == a,
{
    reveal(exact_subtraction);
}

/// Multiplication is commutative and associative, one is neutral and zero
/// absorbing on the left, and multiplication distributes over addition.
#[verifier::opaque]
pub open spec fn exact_multiplication<T: ComplexOrReal<U>, U: RealScalar>() -> bool {
    &&& forall|a: T, b: T| #[trigger] a.mul_spec(b) == b.mul_spec(a)
    &&& forall|a: T, b: T, c: T| #[trigger] a.mul_spec(b).mul_spec(c) == a.mul_spec(b.mul_spec(c))
    &&& forall|a: T| #[trigger] T::one_spec().mul_spec(a) == a
    &&& forall|a: T| #[trigger] T::zero_spec().mul_spec(a) == T::zero_spec()
    &&& forall|a: T, b: T, c: T| #[trigger] a.mul_spec(b.add_spec(c)) == a.mul_spec(b).add_spec(a.mul_spec(c))
}

/// `a * b == b * a`.
pub proof fn lemma_mul_commutes<T: ComplexOrReal<U>, U: RealScalar>(a: T, b: T)
    requires
        exact_multiplication::<T, U>(),
    ensures
        a.mul_spec(b) == b.mul_spec(a),
{
    reveal(exact_multiplication);
}

/// `(a * b) * c == a * (b * c)`.
pub proof fn lemma_mul_associates<T: ComplexOrReal<U>, U: RealScalar>(a: T, b: T, c: T)
    requires
        exact_multiplication::<T, U>(),
    ensures
        a.mul_spec(b).mul_spec(c) == a.mul_spec(b.mul_spec(c)),
{
    reveal(exact_multiplication);
}

/// `1 * a == a`.
pub proof fn lemma_one_mul<T: ComplexOrReal<U>, U: RealScalar>(a: T)
    requires
        exact_multiplication::<T, U>(),
    ensures
        T::one_spec().mul_spec(a) == a,
{
    reveal(exact_multiplication);
}

/// `0 * a == 0`.
pub proof fn lemma_zero_mul<T: ComplexOrReal<U>, U: RealScalar>(a: T)
    requires
        exact_multiplication::<T, U>(),
    ensures
        T::zero_spec().mul_spec(a) == T::zero_spec(),
{
    reveal(exact_multiplication);
}

/// `a * (b + c) == a * b + a * c`.
pub proof fn lemma_distribute_left<T: ComplexOrReal<U>, U: RealScalar>(a: T, b: T, c: T)
    requires
        exact_multiplication::<T, U>(),
    ensures
        a.mul_spec(b.add_spec(c)) == a.mul_spec(b).add_spec(a.mul_spec(c)),
{
    reveal(exact_multiplication);
}

/// Multiplication undoes division by anything but zero:
/// `(a / d) * d == a`.
#[verifier::opaque]
pub open spec fn exact_division<T: ComplexOrReal<U>, U: RealScalar>() -> bool {
    &&& forall|a: T, d: T| d != T::zero_spec() ==> #[trigger] a.div_spec(d).mul_spec(d) == a
}

/// `(a / d) * d == a` for nonzero `d`.
pub proof fn lemma_div_then_mul<T: ComplexOrReal<U>, U: RealScalar>(a: T, d: T)
    requires
        exact_division::<T, U>(),
        d != T::zero_spec(),
    ensures
        a.div_spec(d).mul_spec(d) == a,
{
    reveal(exact_division);
}

/// Division by anything but zero undoes multiplication, distributes over
/// addition, can be moved out of a product, and maps zero to zero.
#[verifier::opaque]
pub open spec fn exact_quotients<T: ComplexOrReal<U>, U: RealScalar>() -> bool {
    &&& forall|a: T, d: T| d != T::zero_spec() ==> #[trigger] a.mul_spec(d).div_spec(d) == a
    &&& forall|a: T, b: T, d: T|
        d != T::zero_spec() ==> #[trigger] a.add_spec(b).div_spec(d) == a.div_spec(d).add_spec(b.div_spec(d))
    &&& forall|a: T, b: T, d: T|
        d != T::zero_spec() ==> #[trigger] a.mul_spec(b.div_spec(d)) == a.mul_spec(b).div_spec(d)
    &&& forall|d: T| d != T::zero_spec() ==> #[trigger] T::zero_spec().div_spec(d) == T::zero_spec()
}

/// `(a * d) / d == a` for nonzero `d`.
pub proof fn lemma_mul_then_div<T: ComplexOrReal<U>, U: RealScalar>(a: T, d: T)
    requires
        exact_quotients::<T, U>(),
        d != T::zero_spec(),
    ensures
        a.mul_spec(d).div_spec(d) == a,
{
    reveal(exact_quotients);
}

/// `(a + b) / d == a / d + b / d` for nonzero `d`.
pub proof fn lemma_div_of_sum<T: ComplexOrReal<U>, U: RealScalar>(a: T, b: T, d: T)
    requires
        exact_quotients::<T, U>(),
        d != T::zero_spec(),
    ensures
        a.add_spec(b).div_spec(d) == a.div_spec(d).add_spec(b.div_spec(d)),
{
    reveal(exact_quotients);
}

/// `a * (b / d) == (a * b) / d` for nonzero `d`.
pub proof fn lemma_mul_of_quotient<T: ComplexOrReal<U>, U: RealScalar>(a: T, b: T, d: T)
    requires
        exact_quotients::<T, U>(),
        d != T::zero_spec(),
    ensures
        a.mul_spec(b.div_spec(d)) == a.mul_spec(b).div_spec(d),
{
    reveal(exact_quotients);
}

/// `0 / d == 0` for nonzero `d`.
pub proof fn lemma_zero_div<T: ComplexOrReal<U>, U: RealScalar>(d: T)
    requires
        exact_quotients::<T, U>(),
        d != T::zero_spec(),
    ensures
        T::zero_spec().div_spec(d) == T::zero_spec(),
{
    reveal(exact_quotients);
}

/// Conjugation is an involution that respects sums and products and fixes
/// zero.
#[verifier::opaque]
pub open spec fn exact_conjugation<T: ComplexOrReal<U>, U: RealScalar>() -> bool {
    &&& forall|a: T, b: T| #[trigger] a.add_spec(b).conj_spec() == a.conj_spec().add_spec(b.conj_spec())
    &&& forall|a: T, b: T| #[trigger] a.mul_spec(b).conj_spec() == a.conj_spec().mul_spec(b.conj_spec())
    &&& forall|a: T| #[trigger] a.conj_spec().conj_spec() == a
    &&& T::zero_spec().conj_spec() == T::zero_spec()
}

/// `conj(a + b) == conj(a) + conj(b)`.
pub proof fn lemma_conj_of_sum<T: ComplexOrReal<U>, U: RealScalar>(a: T, b: T)
    requires
        exact_conjugation::<T, U>(),
    ensures
        a.add_spec(b).conj_spec() == a.conj_spec().add_spec(b.conj_spec()),
{
    reveal(exact_conjugation);
}

/// `conj(a * b) == conj(a) * conj(b)`.
pub proof fn lemma_conj_of_product<T: ComplexOrReal<U>, U: RealScalar>(a: T, b: T)
    requires
        exact_conjugation::<T, U>(),
    ensures
        a.mul_spec(b).conj_spec() == a.conj_spec().mul_spec(b.conj_spec()),
{
    reveal(exact_conjugation);
}

/// `conj(conj(a)) == a`.
pub proof fn lemma_conj_twice<T: ComplexOrReal<U>, U: RealScalar>(a: T)
    requires
        exact_conjugation::<T, U>(),
    ensures
        a.conj_spec().conj_spec() == a,
{
    reveal(exact_conjugation);
}

/// `conj(0) == 0`.
pub proof fn lemma_conj_of_zero<T: ComplexOrReal<U>, U: RealScalar>()
    requires
        exact_conjugation::<T, U>(),
    ensures
        T::zero_spec().conj_spec() == T::zero_spec(),
{
    reveal(exact_conjugation);
}

/// A scalar times its conjugate is its squared magnitude, and the
/// embedding of the reals respects sums, products and zero and is fixed by
/// conjugation.
#[verifier::opaque]
pub open spec fn exact_magnitude<T: ComplexOrReal<U>, U: RealScalar>() -> bool {
    &&& forall|a: T| #[trigger] a.conj_spec().mul_spec(a) == T::from_real_spec(a.abs_spec().mul_spec(a.abs_spec()))
    &&& forall|x: U, y: U| #[trigger]
        T::from_real_spec(x.add_spec(y)) == T::from_real_spec(x).add_spec(T::from_real_spec(y))
    &&& forall|x: U, y: U| #[trigger]
        T::from_real_spec(x.mul_spec(y)) == T::from_real_spec(x).mul_spec(T::from_real_spec(y))
    &&& T::from_real_spec(U::zero_spec()) == T::zero_spec()
    &&& forall|x: U| #[trigger] T::from_real_spec(x).conj_spec() == T::from_real_spec(x)
}

/// `conj(a) * a == |a| * |a|`.
pub proof fn lemma_conj_times_self<T: ComplexOrReal<U>, U: RealScalar>(a: T)
    requires
        exact_magnitude::<T, U>(),
    ensures
        a.conj_spec().mul_spec(a) == T::from_real_spec(a.abs_spec().mul_spec(a.abs_spec())),
{
    reveal(exact_magnitude);
}

/// The embedding of a sum of reals is the sum of the embeddings.
pub proof fn lemma_embed_sum<T: ComplexOrReal<U>, U: RealScalar>(x: U, y: U)
    requires
        exact_magnitude::<T, U>(),
    ensures
        T::from_real_spec(x.add_spec(y)) == T::from_real_spec(x).add_spec(T::from_real_spec(y)),
{
    reveal(exact_magnitude);
}

/// The embedding of a product of reals is the product of the embeddings.
pub proof fn lemma_embed_product<T: ComplexOrReal<U>, U: RealScalar>(x: U, y: U)
    requires
        exact_magnitude::<T, U>(),
    ensures
        T::from_real_spec(x.mul_spec(y)) == T::from_real_spec(x).mul_spec(T::from_real_spec(y)),
{
    reveal(exact_magnitude);
}

/// The embedding of the real zero is zero.
pub proof fn lemma_embed_zero<T: ComplexOrReal<U>, U: RealScalar>()
    requires
        exact_magnitude::<T, U>(),
    ensures
        T::from_real_spec(U::zero_spec()) == T::zero_spec(),
{
    reveal(exact_magnitude);
}

/// Conjugation fixes the embedding of a real.
pub proof fn lemma_conj_of_real<T: ComplexOrReal<U>, U: RealScalar>(x: U)
    requires
        exact_magnitude::<T, U>(),
    ensures
        T::from_real_spec(x).conj_spec() == T::from_real_spec(x),
{
    reveal(exact_magnitude);
}

/// Zero, squares and sums of nonnegative reals are nonnegative, and the
/// square root of a nonnegative real squares back to it.
#[verifier::opaque]
pub open spec fn exact_root<U: RealScalar>() -> bool {
    &&& U::zero_spec().le_spec(U::zero_spec())
    &&& forall|x: U| U::zero_spec().le_spec(#[trigger] x.mul_spec(x))
    &&& forall|x: U, y: U|
        U::zero_spec().le_spec(x) && U::zero_spec().le_spec(y) ==> U::zero_spec().le_spec(
            #[trigger] x.add_spec(y),
        )
    &&& forall|x: U| U::zero_spec().le_spec(x) ==> #[trigger] x.sqrt_spec().mul_spec(x.sqrt_spec()) == x
}

/// `0 <= 0`.
pub proof fn lemma_zero_nonnegative<U: RealScalar>()
    requires
        exact_root::<U>(),
    ensures
        U::zero_spec().le_spec(U::zero_spec()),
{
    reveal(exact_root);
}

/// `0 <= x * x`.
pub proof fn lemma_square_nonnegative<U: RealScalar>(x: U)
    requires
        exact_root::<U>(),
    ensures
        U::zero_spec().le_spec(x.mul_spec(x)),
{
    reveal(exact_root);
}

/// `0 <= x + y` for nonnegative `x` and `y`.
pub proof fn lemma_sum_nonnegative<U: RealScalar>(x: U, y: U)
    requires
        exact_root::<U>(),
        U::zero_spec().le_spec(x),
        U::zero_spec().le_spec(y),
    ensures
        U::zero_spec().le_spec(x.add_spec(y)),
{
    reveal(exact_root);
}

/// `sqrt(x) * sqrt(x) == x` for nonnegative `x`.
pub proof fn lemma_root_squared<U: RealScalar>(x: U)
    requires
        exact_root::<U>(),
        U::zero_spec().le_spec(x),
    ensures
        x.sqrt_spec().mul_spec(x.sqrt_spec()) == x,
{
    reveal(exact_root);
}

/// The laws of an ordered field with magnitude and square root that the
/// bound on the residual estimate rests on, for a real scalar type.
#[verifier::opaque]
pub open spec fn exact_real_order<R: RealScalar>() -> bool {
    &&& forall|x: R| #[trigger] x.mul_spec(R::zero_spec()) == R::zero_spec()
    &&& forall|x: R| #[trigger] x.add_spec(R::zero_spec()) == x
    &&& forall|x: R, y: R| #[trigger] x.mul_spec(y).abs_spec() == x.abs_spec().mul_spec(y.abs_spec())
    &&& forall|x: R| #[trigger] x.neg_spec().abs_spec() == x.abs_spec()
    &&& forall|x: R| R::zero_spec().le_spec(#[trigger] x.abs_spec())
    &&& R::zero_spec().abs_spec() == R::zero_spec()
    &&& R::zero_spec().le_spec(R::one_spec())
    &&& forall|x: R, y: R, z: R| #[trigger] x.le_spec(y) && #[trigger] y.le_spec(z) ==> x.le_spec(z)
    &&& forall|x: R, y: R| !(#[trigger] x.lt_spec(y)) ==> y.le_spec(x)
    &&& forall|x: R, y: R|
        R::zero_spec().le_spec(y) && x.le_spec(R::one_spec()) ==> (#[trigger] x.mul_spec(y)).le_spec(y)
    &&& forall|t: R| R::zero_spec().le_spec(#[trigger] t.mul_spec(t))
    &&& forall|y: R|
        R::zero_spec().le_spec(y) ==> R::one_spec().le_spec(
            #[trigger] R::one_spec().add_spec(y).sqrt_spec(),
        )
    &&& forall|z: R|
        R::one_spec().le_spec(z) ==> (#[trigger] R::one_spec().div_spec(z)).abs_spec().le_spec(
            R::one_spec(),
        )
    &&& forall|x: R, y: R|
        y.abs_spec().le_spec(x.abs_spec()) && !y.abs_spec().is_zero_spec() ==> (#[trigger] y.div_spec(
            x,
        )).abs_spec().le_spec(R::one_spec())
}

/// `x * 0 == 0`.
pub proof fn lemma_mul_zero<R: RealScalar>(x: R)
    requires
        exact_real_order::<R>(),
    ensures
        x.mul_spec(R::zero_spec()) == R::zero_spec(),
{
    reveal(exact_real_order);
}

/// `x + 0 == x`.
pub proof fn lemma_add_zero<R: RealScalar>(x: R)
    requires
        exact_real_order::<R>(),
    ensures
        x.add_spec(R::zero_spec()) == x,
{
    reveal(exact_real_order);
}

/// `|x * y| == |x| * |y|`.
pub proof fn lemma_abs_of_product<R: RealScalar>(x: R, y: R)
    requires
        exact_real_order::<R>(),
    ensures
        x.mul_spec(y).abs_spec() == x.abs_spec().mul_spec(y.abs_spec()),
{
    reveal(exact_real_order);
}

/// `|-x| == |x|`.
pub proof fn lemma_abs_of_negative<R: RealScalar>(x: R)
    requires
        exact_real_order::<R>(),
    ensures
        x.neg_spec().abs_spec() == x.abs_spec(),
{
    reveal(exact_real_order);
}

/// `0 <= |x|`.
pub proof fn lemma_abs_nonnegative<R: RealScalar>(x: R)
    requires
        exact_real_order::<R>(),
    ensures
        R::zero_spec().le_spec(x.abs_spec()),
{
    reveal(exact_real_order);
}

/// `|0| == 0`.
pub proof fn lemma_abs_of_zero<R: RealScalar>()
    requires
        exact_real_order::<R>(),
    ensures
        R::zero_spec().abs_spec() == R::zero_spec(),
{
    reveal(exact_real_order);
}

/// `0 <= 1`.
pub proof fn lemma_zero_le_one<R: RealScalar>()
    requires
        exact_real_order::<R>(),
    ensures
        R::zero_spec().le_spec(R::one_spec()),
{
    reveal(exact_real_order);
}

/// `x <= y` and `y <= z` give `x <= z`.
pub proof fn lemma_le_transitive<R: RealScalar>(x: R, y: R, z: R)
    requires
        exact_real_order::<R>(),
        x.le_spec(y),
        y.le_spec(z),
    ensures
        x.le_spec(z),
{
    reveal(exact_real_order);
}

/// Where `x < y` fails, `y <= x` holds.
pub proof fn lemma_order_total<R: RealScalar>(x: R, y: R)
    requires
        exact_real_order::<R>(),
        !x.lt_spec(y),
    ensures
        y.le_spec(x),
{
    reveal(exact_real_order);
}

/// `x * y <= y` for `x <= 1` and `0 <= y`.
pub proof fn lemma_factor_at_most_one<R: RealScalar>(x: R, y: R)
    requires
        exact_real_order::<R>(),
        R::zero_spec().le_spec(y),
        x.le_spec(R::one_spec()),
    ensures
        x.mul_spec(y).le_spec(y),
{
    reveal(exact_real_order);
}

/// `0 <= t * t`.
pub proof fn lemma_real_square_nonnegative<R: RealScalar>(t: R)
    requires
        exact_real_order::<R>(),
    ensures
        R::zero_spec().le_spec(t.mul_spec(t)),
{
    reveal(exact_real_order);
}

/// `1 <= sqrt(1 + y)` for `0 <= y`.
pub proof fn lemma_root_at_least_one<R: RealScalar>(y: R)
    requires
        exact_real_order::<R>(),
        R::zero_spec().le_spec(y),
    ensures
        R::one_spec().le_spec(R::one_spec().add_spec(y).sqrt_spec()),
{
    reveal(exact_real_order);
}

/// `|1 / z| <= 1` for `1 <= z`.
pub proof fn lemma_reciprocal_at_most_one<R: RealScalar>(z: R)
    requires
        exact_real_order::<R>(),
        R::one_spec().le_spec(z),
    ensures
        R::one_spec().div_spec(z).abs_spec().le_spec(R::one_spec()),
{
    reveal(exact_real_order);
}

/// `|y / x| <= 1` for `|y| <= |x|` with `|y|` not zero.
pub proof fn lemma_quotient_at_most_one<R: RealScalar>(x: R, y: R)
    requires
        exact_real_order::<R>(),
        y.abs_spec().le_spec(x.abs_spec()),
        !y.abs_spec().is_zero_spec(),
    ensures
        y.div_spec(x).abs_spec().le_spec(R::one_spec()),
{
    reveal(exact_real_order);
}

/// The negative of a product is the product with the negative, and a
/// scalar and its negative add up to zero.
#[verifier::opaque]
pub open spec fn exact_negation<T: ComplexOrReal<U>, U: RealScalar>() -> bool {
    &&& forall|a: T, b: T| #[trigger] a.neg_spec().mul_spec(b) == a.mul_spec(b).neg_spec()
    &&& forall|a: T| #[trigger] a.neg_spec().add_spec(a) == T::zero_spec()
}

/// `(-a) * b == -(a * b)`.
pub proof fn lemma_neg_times<T: ComplexOrReal<U>, U: RealScalar>(a: T, b: T)
    requires
        exact_negation::<T, U>(),
    ensures
        a.neg_spec().mul_spec(b) == a.mul_spec(b).neg_spec(),
{
    reveal(exact_negation);
}

/// `(-a) + a == 0`.
pub proof fn lemma_neg_then_add<T: ComplexOrReal<U>, U: RealScalar>(a: T)
    requires
        exact_negation::<T, U>(),
    ensures
        a.neg_spec().add_spec(a) == T::zero_spec(),
{
    reveal(exact_negation);
}

/// Zero is the one scalar whose magnitude is zero, and every other
/// magnitude is greater than that of zero.
#[verifier::opaque]
pub open spec fn exact_zero_magnitude<T: ComplexOrReal<U>, U: RealScalar>() -> bool {
    &&& forall|a: T| (#[trigger] a.abs_spec()).is_zero_spec() ==> a == T::zero_spec()
    &&& T::zero_spec().abs_spec().is_zero_spec()
    &&& forall|a: T| !(#[trigger] a.abs_spec()).is_zero_spec() ==> T::zero_spec().abs_spec().lt_spec(a.abs_spec())
}

/// A scalar of zero magnitude is zero.
pub proof fn lemma_zero_magnitude_is_zero<T: ComplexOrReal<U>, U: RealScalar>(a: T)
    requires
        exact_zero_magnitude::<T, U>(),
        a.abs_spec().is_zero_spec(),
    ensures
        a == T::zero_spec(),
{
    reveal(exact_zero_magnitude);
}

/// Zero has zero magnitude.
pub proof fn lemma_magnitude_of_zero<T: ComplexOrReal<U>, U: RealScalar>()
    requires
        exact_zero_magnitude::<T, U>(),
    ensures
        T::zero_spec().abs_spec().is_zero_spec(),
{
    reveal(exact_zero_magnitude);
}

/// A magnitude that is not zero is greater than that of zero.
pub proof fn lemma_magnitude_above_zero<T: ComplexOrReal<U>, U: RealScalar>(a: T)
    requires
        exact_zero_magnitude::<T, U>(),
        !a.abs_spec().is_zero_spec(),
    ensures
        T::zero_spec().abs_spec().lt_spec(a.abs_spec()),
{
    reveal(exact_zero_magnitude);
}

/// One is not at most zero.
#[verifier::opaque]
pub open spec fn exact_one<R: RealScalar>() -> bool {
    &&& !R::one_spec().le_spec(R::zero_spec())
}

/// `1 <= 0` fails.
pub proof fn lemma_one_above_zero<R: RealScalar>()
    requires
        exact_one::<R>(),
    ensures
        !R::one_spec().le_spec(R::zero_spec()),
{
    reveal(exact_one);
}

/// A real scalar type embeds into itself unchanged, a nonnegative real
/// is its own magnitude, and the square root of a nonnegative real is
/// nonnegative.
#[verifier::opaque]
pub open spec fn exact_real_embedding<R: RealScalar>() -> bool {
    &&& forall|x: R| #[trigger] R::from_real_spec(x) == x
    &&& forall|x: R| R::zero_spec().le_spec(x) ==> #[trigger] x.abs_spec() == x
    &&& forall|x: R| R::zero_spec().le_spec(x) ==> R::zero_spec().le_spec(#[trigger] x.sqrt_spec())
}

/// The embedding of a real into the reals is the real itself.
pub proof fn lemma_embedding_is_identity<R: RealScalar>(x: R)
    requires
        exact_real_embedding::<R>(),
    ensures
        R::from_real_spec(x) == x,
{
    reveal(exact_real_embedding);
}

/// `|x| == x` for nonnegative `x`.
pub proof fn lemma_magnitude_of_nonnegative<R: RealScalar>(x: R)
    requires
        exact_real_embedding::<R>(),
        R::zero_spec().le_spec(x),
    ensures
        x.abs_spec() == x,
{
    reveal(exact_real_embedding);
}

/// `0 <= sqrt(x)` for nonnegative `x`.
pub proof fn lemma_root_nonnegative<R: RealScalar>(x: R)
    requires
        exact_real_embedding::<R>(),
        R::zero_spec().le_spec(x),
    ensures
        R::zero_spec().le_spec(x.sqrt_spec()),
{
    reveal(exact_real_embedding);
}

/// Conjugation leaves a real scalar as it is.
#[verifier::opaque]
pub open spec fn exact_real_conjugation<R: RealScalar>() -> bool {
    &&& forall|x: R| #[trigger] x.conj_spec() == x
}

/// `conj(x) == x`.
pub proof fn lemma_conj_is_identity<R: RealScalar>(x: R)
    requires
        exact_real_conjugation::<R>(),
    ensures
        x.conj_spec() == x,
{
    reveal(exact_real_conjugation);
}

/// The negative of the negative of a scalar is the scalar.
#[verifier::opaque]
pub open spec fn exact_double_negation<T: ComplexOrReal<U>, U: RealScalar>() -> bool {
    &&& forall|a: T| #[trigger] a.neg_spec().neg_spec() == a
}

/// `-(-a) == a`.
pub proof fn lemma_neg_twice<T: ComplexOrReal<U>, U: RealScalar>(a: T)
    requires
        exact_double_negation::<T, U>(),
    ensures
        a.neg_spec().neg_spec() == a,
{
    reveal(exact_double_negation);
}

/// `p + q == r` gives `p == r - q`.
pub proof fn lemma_move_right<T: ComplexOrReal<U>, U: RealScalar>(p: T, q: T, r: T)
    requires
        exact_subtraction::<T, U>(),
        p.add_spec(q) == r,
    ensures
        p == r.sub_spec(q),
{
    lemma_add_then_sub::<T, U>(p, q);
}

/// `a - a == 0`.
pub proof fn lemma_sub_self<T: ComplexOrReal<U>, U: RealScalar>(a: T)
    requires
        exact_addition::<T, U>(),
        exact_subtraction::<T, U>(),
    ensures
        a.sub_spec(a) == T::zero_spec(),
{
    lemma_zero_add::<T, U>(a);
    lemma_move_right::<T, U>(T::zero_spec(), a, a);
}

/// `(a + b) * c == a * c + b * c`.
pub proof fn lemma_distribute_right<T: ComplexOrReal<U>, U: RealScalar>(a: T, b: T, c: T)
    requires
        exact_multiplication::<T, U>(),
    ensures
        a.add_spec(b).mul_spec(c) == a.mul_spec(c).add_spec(b.mul_spec(c)),
{
    lemma_mul_commutes::<T, U>(a.add_spec(b), c);
    lemma_distribute_left::<T, U>(c, a, b);
    lemma_mul_commutes::<T, U>(c, a);
    lemma_mul_commutes::<T, U>(c, b);
}

/// `a * (b - c) == a * b - a * c`.
pub proof fn lemma_distribute_over_difference<T: ComplexOrReal<U>, U: RealScalar>(a: T, b: T, c: T)
    requires
        exact_addition::<T, U>(),
        exact_subtraction::<T, U>(),
        exact_multiplication::<T, U>(),
    ensures
        a.mul_spec(b.sub_spec(c)) == a.mul_spec(b).sub_spec(a.mul_spec(c)),
{
    let d = b.sub_spec(c);
    lemma_sub_then_add::<T, U>(b, c);
    lemma_distribute_left::<T, U>(a, d, c);
    lemma_move_right::<T, U>(a.mul_spec(d), a.mul_spec(c), a.mul_spec(b));
}

/// `(a - x) + (y - z) == (a + y) - (x + z)`.
pub proof fn lemma_regroup_differences<T: ComplexOrReal<U>, U: RealScalar>(a: T, x: T, y: T, z: T)
    requires
        exact_addition::<T, U>(),
        exact_subtraction::<T, U>(),
    ensures
        a.sub_spec(x).add_spec(y.sub_spec(z)) == a.add_spec(y).sub_spec(x.add_spec(z)),
{
    let p = a.sub_spec(x);
    let q = y.sub_spec(z);
    // q + (x + z) == x + y
    lemma_add_associates::<T, U>(q, x, z);
    lemma_add_commutes::<T, U>(q, x);
    lemma_add_associates::<T, U>(x, q, z);
    lemma_sub_then_add::<T, U>(y, z);
    assert(q.add_spec(x.add_spec(z)) == x.add_spec(y));
    // (p + q) + (x + z) == a + y
    lemma_add_associates::<T, U>(p, q, x.add_spec(z));
    lemma_add_associates::<T, U>(p, x, y);
    lemma_sub_then_add::<T, U>(a, x);
    assert(p.add_spec(q).add_spec(x.add_spec(z)) == a.add_spec(y));
    lemma_move_right::<T, U>(p.add_spec(q), x.add_spec(z), a.add_spec(y));
}

/// `(a * b) * (a * b) == (a * a) * (b * b)`.
pub proof fn lemma_square_of_product<T: ComplexOrReal<U>, U: RealScalar>(a: T, b: T)
    requires
        exact_multiplication::<T, U>(),
    ensures
        a.mul_spec(b).mul_spec(a.mul_spec(b)) == a.mul_spec(a).mul_spec(b.mul_spec(b)),
{
    let ab = a.mul_spec(b);
    // (a * b) * (a * b) == a * (b * (a * b))
    lemma_mul_associates::<T, U>(a, b, ab);
    // b * (a * b) == (b * a) * b == (a * b) * b == a * (b * b)
    lemma_mul_associates::<T, U>(b, a, b);
    lemma_mul_commutes::<T, U>(b, a);
    lemma_mul_associates::<T, U>(a, b, b);
    // a * (a * (b * b)) == (a * a) * (b * b)
    lemma_mul_associates::<T, U>(a, a, b.mul_spec(b));
}

/// `(a * b) * (c * d) == (a * c) * (b * d)`.
pub proof fn lemma_interchange_factors<T: ComplexOrReal<U>, U: RealScalar>(a: T, b: T, c: T, d: T)
    requires
        exact_multiplication::<T, U>(),
    ensures
        a.mul_spec(b).mul_spec(c.mul_spec(d)) == a.mul_spec(c).mul_spec(b.mul_spec(d)),
{
    lemma_mul_associates::<T, U>(a, b, c.mul_spec(d));
    lemma_mul_associates::<T, U>(b, c, d);
    lemma_mul_commutes::<T, U>(b, c);
    lemma_mul_associates::<T, U>(c, b, d);
    lemma_mul_associates::<T, U>(a, c, b.mul_spec(d));
}

/// `(a + b) + (c + d) == (a + c) + (b + d)`.
pub proof fn lemma_interchange_terms<T: ComplexOrReal<U>, U: RealScalar>(a: T, b: T, c: T, d: T)
    requires
        exact_addition::<T, U>(),
    ensures
        a.add_spec(b).add_spec(c.add_spec(d)) == a.add_spec(c).add_spec(b.add_spec(d)),
{
    lemma_add_associates::<T, U>(a, b, c.add_spec(d));
    lemma_add_associates::<T, U>(b, c, d);
    lemma_add_commutes::<T, U>(b, c);
    lemma_add_associates::<T, U>(c, b, d);
    lemma_add_associates::<T, U>(a, c, b.add_spec(d));
}

/// `a + 0 == a`.
pub proof fn lemma_add_zero_right<T: ComplexOrReal<U>, U: RealScalar>(a: T)
    requires
        exact_addition::<T, U>(),
    ensures
        a.add_spec(T::zero_spec()) == a,
{
    lemma_add_commutes::<T, U>(a, T::zero_spec());
    lemma_zero_add::<T, U>(a);
}

/// `(s + p) + (v - p) == s + v`.
pub proof fn lemma_regroup<T: ComplexOrReal<U>, U: RealScalar>(s: T, p: T, v: T)
    requires
        exact_addition::<T, U>(),
    ensures
        s.add_spec(p).add_spec(v.sub_spec(p)) == s.add_spec(v),
{
    let d = v.sub_spec(p);
    lemma_add_associates::<T, U>(s, p, d);
    lemma_add_commutes::<T, U>(p, d);
    lemma_sub_then_add::<T, U>(v, p);
}

} // verus!
