//! Dense vectors of scalars: the elementwise operations the solvers are built from.

use crate::scalar::{ComplexOrReal, RealScalar};
use vstd::prelude::*;

verus! {

/// The contents of a list of vectors, as sequences.
pub open spec fn rows<T>(m: Seq<Vec<T>>) -> Seq<Seq<T>> {
    Seq::new(m.len(), |i: int| m[i]@)
}

/// The first `n` terms of the inner product `sum(conj(q[i]) * v[i])`,
/// accumulated left to right.
pub open spec fn dot_conj_spec<T: ComplexOrReal<U>, U: RealScalar>(q: Seq<T>, v: Seq<T>, n: nat) -> T
    decreases n,
{
    if n == 0 {
        T::zero_spec()
    } else {
        dot_conj_spec::<T, U>(q, v, (n - 1) as nat).add_spec(
            q[n - 1].conj_spec().mul_spec(v[n - 1]),
        )
    }
}

/// `v - q * h`, entry by entry.
pub open spec fn sub_scaled_spec<T: ComplexOrReal<U>, U: RealScalar>(v: Seq<T>, q: Seq<T>, h: T) -> Seq<T> {
    Seq::new(v.len(), |i: int| v[i].sub_spec(q[i].mul_spec(h)))
}

/// `x + v * y`, entry by entry.
pub open spec fn add_scaled_spec<T: ComplexOrReal<U>, U: RealScalar>(x: Seq<T>, v: Seq<T>, y: T) -> Seq<T> {
    Seq::new(x.len(), |i: int| x[i].add_spec(v[i].mul_spec(y)))
}

/// `v / d`, entry by entry.
pub open spec fn div_all_spec<T: ComplexOrReal<U>, U: RealScalar>(v: Seq<T>, d: T) -> Seq<T> {
    Seq::new(v.len(), |i: int| v[i].div_spec(d))
}

/// `v * f`, entry by entry.
pub open spec fn scaled_spec<T: ComplexOrReal<U>, U: RealScalar>(v: Seq<T>, f: T) -> Seq<T> {
    Seq::new(v.len(), |i: int| v[i].mul_spec(f))
}

/// `a - b`, entry by entry.
pub open spec fn difference_spec<T: ComplexOrReal<U>, U: RealScalar>(a: Seq<T>, b: Seq<T>) -> Seq<T> {
    Seq::new(a.len(), |i: int| a[i].sub_spec(b[i]))
}

/// Every entry has a finite magnitude.
pub open spec fn all_finite_spec<T: ComplexOrReal<U>, U: RealScalar>(v: Seq<T>) -> bool {
    forall|i: int| 0 <= i < v.len() ==> (#[trigger] v[i]).abs_spec().is_finite_spec()
}

/// The vector of `n` zeros.
pub open spec fn zeros_spec<T: ComplexOrReal<U>, U: RealScalar>(n: nat) -> Seq<T> {
    Seq::new(n, |i: int| T::zero_spec())
}

/// Inner product of `q` and `v`, conjugating the entries of `q`.
pub fn dot_conj<T: ComplexOrReal<U>, U: RealScalar>(q: &Vec<T>, v: &Vec<T>) -> (r: T)
    requires
        q.len() == v.len(),
    ensures
        r == dot_conj_spec::<T, U>(q@, v@, v@.len()),
{
    let mut acc = T::zero();
    let mut i: usize = 0;
    while i < v.len()
        invariant
            i <= v.len(),
            q.len() == v.len(),
            acc == dot_conj_spec::<T, U>(q@, v@, i as nat),
        decreases v.len() - i,
    {
        acc = acc.add(q[i].conj().mul(v[i]));
        i += 1;
    }
    acc
}

/// Removes from `v` the multiple `h` of `q`.
pub fn sub_scaled<T: ComplexOrReal<U>, U: RealScalar>(v: &Vec<T>, q: &Vec<T>, h: T) -> (r: Vec<T>)
    requires
        q.len() == v.len(),
    ensures
        r@ == sub_scaled_spec::<T, U>(v@, q@, h),
{
    let mut out: Vec<T> = Vec::new();
    let mut i: usize = 0;
    while i < v.len()
        invariant
            i <= v.len(),
            q.len() == v.len(),
            out@ == sub_scaled_spec::<T, U>(v@, q@, h).take(i as int),
        decreases v.len() - i,
    {
        out.push(v[i].sub(q[i].mul(h)));
        i += 1;
    }
    out
}

/// Adds to `x` the multiple `y` of `v`.
pub fn add_scaled<T: ComplexOrReal<U>, U: RealScalar>(x: &Vec<T>, v: &Vec<T>, y: T) -> (r: Vec<T>)
    requires
        x.len() == v.len(),
    ensures
        r@ == add_scaled_spec::<T, U>(x@, v@, y),
{
    let mut out: Vec<T> = Vec::new();
    let mut i: usize = 0;
    while i < x.len()
        invariant
            i <= x.len(),
            x.len() == v.len(),
            out@ == add_scaled_spec::<T, U>(x@, v@, y).take(i as int),
        decreases x.len() - i,
    {
        out.push(x[i].add(v[i].mul(y)));
        i += 1;
    }
    out
}

/// Divides every entry of `v` by `d`.
pub fn div_all<T: ComplexOrReal<U>, U: RealScalar>(v: &Vec<T>, d: T) -> (r: Vec<T>)
    ensures
        r@ == div_all_spec::<T, U>(v@, d),
{
    let mut out: Vec<T> = Vec::new();
    let mut i: usize = 0;
    while i < v.len()
        invariant
            i <= v.len(),
            out@ == div_all_spec::<T, U>(v@, d).take(i as int),
        decreases v.len() - i,
    {
        out.push(v[i].div(d));
        i += 1;
    }
    out
}

/// Multiplies every entry of `v` by `f`.
pub fn scaled<T: ComplexOrReal<U>, U: RealScalar>(v: &Vec<T>, f: T) -> (r: Vec<T>)
    ensures
        r@ == scaled_spec::<T, U>(v@, f),
{
    let mut out: Vec<T> = Vec::new();
    let mut i: usize = 0;
    while i < v.len()
        invariant
            i <= v.len(),
            out@ == scaled_spec::<T, U>(v@, f).take(i as int),
        decreases v.len() - i,
    {
        out.push(v[i].mul(f));
        i += 1;
    }
    out
}

/// The entrywise difference `a - b`.
pub fn difference<T: ComplexOrReal<U>, U: RealScalar>(a: &Vec<T>, b: &Vec<T>) -> (r: Vec<T>)
    requires
        a.len() == b.len(),
    ensures
        r@ == difference_spec::<T, U>(a@, b@),
{
    let mut out: Vec<T> = Vec::new();
    let mut i: usize = 0;
    while i < a.len()
        invariant
            i <= a.len(),
            a.len() == b.len(),
            out@ == difference_spec::<T, U>(a@, b@).take(i as int),
        decreases a.len() - i,
    {
        out.push(a[i].sub(b[i]));
        i += 1;
    }
    out
}

/// Whether every entry of `v` has a finite magnitude.
pub fn all_finite<T: ComplexOrReal<U>, U: RealScalar>(v: &Vec<T>) -> (r: bool)
    ensures
        r == all_finite_spec::<T, U>(v@),
{
    let mut i: usize = 0;
    while i < v.len()
        invariant
            i <= v.len(),
            forall|j: int| 0 <= j < i ==> (#[trigger] v@[j]).abs_spec().is_finite_spec(),
        decreases v.len() - i,
    {
        if !v[i].abs().is_finite() {
            return false;
        }
        i += 1;
    }
    true
}

/// A vector of `n` zeros.
pub fn zeros<T: ComplexOrReal<U>, U: RealScalar>(n: usize) -> (r: Vec<T>)
    ensures
        r@ == zeros_spec::<T, U>(n as nat),
{
    let mut out: Vec<T> = Vec::new();
    let mut i: usize = 0;
    while i < n
        invariant
            i <= n,
            out@ == zeros_spec::<T, U>(i as nat),
        decreases n - i,
    {
        out.push(T::zero());
        i += 1;
    }
    out
}

/// An independent copy of `v`.
pub fn duplicate<T: Copy>(v: &Vec<T>) -> (r: Vec<T>)
    ensures
        r@ == v@,
{
    let mut out: Vec<T> = Vec::new();
    let mut i: usize = 0;
    while i < v.len()
        invariant
            i <= v.len(),
            out@ == v@.take(i as int),
        decreases v.len() - i,
    {
        out.push(v[i]);
        i += 1;
    }
    out
}

} // verus!
