//! The numeric abstraction every solver is generic over.
//!
//! A scalar type supplies its arithmetic as executable methods, and each
//! method is tied to a specification function of the same meaning. Contracts
//! in this crate are stated over those specification functions, so they say
//! exactly which operations are performed, in which order, without assuming
//! any algebraic law (rounding arithmetic satisfies few of them).
//!
//! What a method promises is that it is a function of its operands: the
//! same operands give the same result. Nothing in this crate implements
//! the traits; the proofs hold of every implementation that keeps that
//! promise. Compiled code sees a specification function as one more
//! required method, to which an implementation outside verified code gives
//! the body of the operation it specifies.

use vstd::prelude::*;

verus! {

/// Complex conjugation; the identity on real scalars.
pub trait HasConj: Sized {
    /// The conjugate as a mathematical function of the value.
    spec fn conj_spec(&self) -> Self;

    fn conj(&self) -> (r: Self)
        ensures
            r == self.conj_spec(),
    ;
}

/// Magnitude of a scalar, measured in a real type.
pub trait HasAbs: Sized {
    type Output;

    /// The magnitude as a mathematical function of the value.
    spec fn abs_spec(&self) -> Self::Output;

    fn abs(&self) -> (r: Self::Output)
        ensures
            r == self.abs_spec(),
    ;
}

/// A real or complex scalar whose magnitudes live in the real type `U`:
/// the operations of a field, a square root, and the embedding of `U`.
pub trait ComplexOrReal<U>: HasAbs<Output = U> + HasConj + Copy {
    /// The neutral element of addition.
    spec fn zero_spec() -> Self;

    /// The neutral element of multiplication.
    spec fn one_spec() -> Self;

    /// The sum as a mathematical function of the operands.
    spec fn add_spec(self, rhs: Self) -> Self;

    /// The difference as a mathematical function of the operands.
    spec fn sub_spec(self, rhs: Self) -> Self;

    /// The product as a mathematical function of the operands.
    spec fn mul_spec(self, rhs: Self) -> Self;

    /// The quotient as a mathematical function of the operands.
    spec fn div_spec(self, rhs: Self) -> Self;

    /// The negative as a mathematical function of the value.
    spec fn neg_spec(self) -> Self;

    /// The square root as a mathematical function of the value.
    spec fn sqrt_spec(self) -> Self;

    /// Embedding of a real magnitude into the scalar type.
    spec fn from_real_spec(x: U) -> Self;

    fn zero() -> (r: Self)
        ensures
            r == Self::zero_spec(),
    ;

    fn one() -> (r: Self)
        ensures
            r == Self::one_spec(),
    ;

    fn add(self, rhs: Self) -> (r: Self)
        ensures
            r == self.add_spec(rhs),
    ;

    fn sub(self, rhs: Self) -> (r: Self)
        ensures
            r == self.sub_spec(rhs),
    ;

    fn mul(self, rhs: Self) -> (r: Self)
        ensures
            r == self.mul_spec(rhs),
    ;

    fn div(self, rhs: Self) -> (r: Self)
        ensures
            r == self.div_spec(rhs),
    ;

    fn neg(self) -> (r: Self)
        ensures
            r == self.neg_spec(),
    ;

    fn sqrt(self) -> (r: Self)
        ensures
            r == self.sqrt_spec(),
    ;

    fn from_real(x: U) -> (r: Self)
        ensures
            r == Self::from_real_spec(x),
    ;
}

/// The real magnitudes of a scalar type: a scalar over itself that is also
/// ordered and can tell finite values from overflowed or undefined ones.
pub trait RealScalar: ComplexOrReal<Self> {
    /// Whether `self` is less than `rhs`.
    spec fn lt_spec(self, rhs: Self) -> bool;

    /// Whether `self` is at most `rhs`.
    spec fn le_spec(self, rhs: Self) -> bool;

    /// Whether the value compares equal to zero.
    spec fn is_zero_spec(self) -> bool;

    /// Whether the value is neither infinite nor undefined.
    spec fn is_finite_spec(self) -> bool;

    fn lt(self, rhs: Self) -> (r: bool)
        ensures
            r == self.lt_spec(rhs),
    ;

    fn le(self, rhs: Self) -> (r: bool)
        ensures
            r == self.le_spec(rhs),
    ;

    fn is_zero(self) -> (r: bool)
        ensures
            r == self.is_zero_spec(),
    ;

    fn is_finite(self) -> (r: bool)
        ensures
            r == self.is_finite_spec(),
    ;
}

/// Sum of squared magnitudes of the first `n` entries, accumulated left to right.
pub open spec fn sum_sq<T: ComplexOrReal<U>, U: RealScalar>(x: Seq<T>, n: nat) -> U
    decreases n,
{
    if n == 0 {
        U::zero_spec()
    } else {
        let a = x[n - 1].abs_spec();
        sum_sq::<T, U>(x, (n - 1) as nat).add_spec(a.mul_spec(a))
    }
}

/// The Euclidean norm as computed by [`norm`].
pub open spec fn norm_spec<T: ComplexOrReal<U>, U: RealScalar>(x: Seq<T>) -> U {
    sum_sq::<T, U>(x, x.len()).sqrt_spec()
}

/// Euclidean norm of a vector.
pub fn norm<T: ComplexOrReal<U>, U: RealScalar>(x: &Vec<T>) -> (r: U)
    ensures
        r == norm_spec::<T, U>(x@),
{
    let mut result = U::zero();
    let mut i: usize = 0;
    while i < x.len()
        invariant
            i <= x.len(),
            result == sum_sq::<T, U>(x@, i as nat),
        decreases x.len() - i,
    {
        let a = x[i].abs();
        result = result.add(a.mul(a));
        i += 1;
    }
    result.sqrt()
}

} // verus!
