//! Plane rotations in exact arithmetic: a generated rotation sends the pair
//! it was generated for to a pair whose second component is zero, so that
//! the Hessenberg matrix of a cycle stays upper triangular.

use crate::scalar::{ComplexOrReal, RealScalar};
use vstd::prelude::*;

verus! {

/// All the laws of exact arithmetic that the zeroing of a component rests
/// on.
pub open spec fn exact_rotation<T: ComplexOrReal<U>, U: RealScalar>() -> bool {
    &&& crate::exact::field::exact_multiplication::<T, U>()
    &&& crate::exact::field::exact_division::<T, U>()
    &&& crate::exact::field::exact_negation::<T, U>()
    &&& crate::exact::field::exact_zero_magnitude::<T, U>()
}

/// `(-(a * c)) * x + c * y == 0` where `a * x == y`.
proof fn lemma_cancels<T: ComplexOrReal<U>, U: RealScalar>(a: T, c: T, x: T, y: T)
    requires
        exact_rotation::<T, U>(),
        a.mul_spec(x) == y,
    ensures
        a.mul_spec(c).neg_spec().mul_spec(x).add_spec(c.mul_spec(y)) == T::zero_spec(),
{
    crate::exact::field::lemma_neg_times::<T, U>(a.mul_spec(c), x);
    crate::exact::field::lemma_mul_commutes::<T, U>(a, c);
    crate::exact::field::lemma_mul_associates::<T, U>(c, a, x);
    crate::exact::field::lemma_neg_then_add::<T, U>(c.mul_spec(y));
}

/// The rotation generated for a pair zeroes its second component. In exact
/// arithmetic, rotating `(dx, dy)` by the rotation generated for it leaves
/// zero in the second place.
pub proof fn lemma_rotation_zeroes<T: ComplexOrReal<U>, U: RealScalar>(dx: T, dy: T)
    requires
        exact_rotation::<T, U>(),
    ensures
        ({
            let g = crate::givens::rotation_for::<T, U>(dx, dy);
            crate::givens::rotated::<T, U>(dx, dy, g.0, g.1).1 == T::zero_spec()
        }),
{
    let zero = T::zero_spec();
    let one = T::one_spec();
    if dy.abs_spec().is_zero_spec() {
        crate::exact::field::lemma_zero_magnitude_is_zero::<T, U>(dy);
        crate::exact::field::lemma_neg_times::<T, U>(zero, dx);
        crate::exact::field::lemma_zero_mul::<T, U>(dx);
        crate::exact::field::lemma_mul_commutes::<T, U>(one, zero);
        crate::exact::field::lemma_zero_mul::<T, U>(one);
        crate::exact::field::lemma_neg_then_add::<T, U>(zero);
    } else if dx.abs_spec().lt_spec(dy.abs_spec()) {
        let t = dx.div_spec(dy);
        let sn = crate::givens::leading_coefficient::<T, U>(t);
        if dy == zero {
            crate::exact::field::lemma_magnitude_of_zero::<T, U>();
        }
        crate::exact::field::lemma_div_then_mul::<T, U>(dx, dy);
        // (-sn) * dx + (t * sn) * dy, and (t * sn) * dy == sn * dx
        crate::exact::field::lemma_neg_times::<T, U>(sn, dx);
        crate::exact::field::lemma_mul_commutes::<T, U>(t, sn);
        crate::exact::field::lemma_mul_associates::<T, U>(sn, t, dy);
        crate::exact::field::lemma_neg_then_add::<T, U>(sn.mul_spec(dx));
    } else {
        let t = dy.div_spec(dx);
        let cs = crate::givens::leading_coefficient::<T, U>(t);
        if dx == zero {
            crate::exact::field::lemma_magnitude_above_zero::<T, U>(dy);
        }
        crate::exact::field::lemma_div_then_mul::<T, U>(dy, dx);
        lemma_cancels::<T, U>(t, cs, dx, dy);
    }
}

/// A step leaves the Hessenberg matrix upper triangular. In exact
/// arithmetic, the column a successful step of a cycle appends ends in
/// zero: its subdiagonal entry was rotated away.
pub proof fn lemma_step_zeroes_subdiagonal<T: ComplexOrReal<U>, U: RealScalar>(
    pre: crate::agmres::AGmresModel<T, U>,
    s: Seq<T>,
    w: Seq<T>,
)
    requires
        exact_rotation::<T, U>(),
        pre.wf(),
        pre.in_cycle(s),
        w.len() == pre.b.len(),
        crate::agmres::advance_spec::<T, U>(pre, s, w).2 is Ok,
    ensures
        ({
            let post = crate::agmres::advance_spec::<T, U>(pre, s, w).0;
            &&& post.arn.columns.len() == pre.arn.columns.len() + 1
            &&& post.arn.columns.last().len() == post.arn.columns.len() + 1
            &&& post.arn.columns.last().last() == T::zero_spec()
        }),
{
    let (grown, outcome) = crate::arnoldi::extend_spec::<T, U>(pre.arn, w);
    let i = pre.cs.len() as int;
    crate::arnoldi::lemma_extend_keeps_shape::<T, U>(pre.arn, w);
    crate::givens::lemma_rotate_prefix_len::<T, U>(grown.columns.last(), pre.cs, pre.sn, pre.cs.len());
    let raw = crate::givens::rotate_prefix::<T, U>(grown.columns.last(), pre.cs, pre.sn, pre.cs.len());
    lemma_rotation_zeroes::<T, U>(raw[i], raw[i + 1]);
}

/// All the laws of exact real arithmetic that the unit length of a
/// rotation rests on.
pub open spec fn exact_real_rotation<R: RealScalar>() -> bool {
    &&& crate::exact::field::exact_addition::<R, R>()
    &&& crate::exact::field::exact_multiplication::<R, R>()
    &&& crate::exact::field::exact_division::<R, R>()
    &&& crate::exact::field::exact_root::<R>()
    &&& crate::exact::field::exact_real_order::<R>()
    &&& crate::exact::field::exact_one::<R>()
}

/// `l * l + (t * l) * (t * l) == 1` for the coefficient `l` that goes
/// with the quotient `t`.
proof fn lemma_unit_from_quotient<R: RealScalar>(t: R)
    requires
        exact_real_rotation::<R>(),
    ensures
        ({
            let l = crate::givens::leading_coefficient::<R, R>(t);
            l.mul_spec(l).add_spec(t.mul_spec(l).mul_spec(t.mul_spec(l))) == R::one_spec()
        }),
{
    let one = R::one_spec();
    let tt = t.mul_spec(t);
    let sum = one.add_spec(tt);
    let sigma = sum.sqrt_spec();
    let l = one.div_spec(sigma);
    let ll = l.mul_spec(l);
    // sigma * sigma == 1 + t * t, and sigma is not zero
    crate::exact::field::lemma_zero_le_one::<R>();
    crate::exact::field::lemma_square_nonnegative::<R>(t);
    crate::exact::field::lemma_sum_nonnegative::<R>(one, tt);
    crate::exact::field::lemma_root_squared::<R>(sum);
    crate::exact::field::lemma_root_at_least_one::<R>(tt);
    crate::exact::field::lemma_one_above_zero::<R>();
    assert(sigma != R::zero_spec());
    // l * sigma == 1
    crate::exact::field::lemma_div_then_mul::<R, R>(one, sigma);
    // l * l + (t * l) * (t * l) == l * l + (t * t) * (l * l) == (1 + t * t) * (l * l)
    crate::exact::field::lemma_square_of_product::<R, R>(t, l);
    crate::exact::field::lemma_distribute_right::<R, R>(one, tt, ll);
    crate::exact::field::lemma_one_mul::<R, R>(ll);
    // (sigma * sigma) * (l * l) == (sigma * l) * (sigma * l) == 1 * 1
    crate::exact::field::lemma_square_of_product::<R, R>(sigma, l);
    crate::exact::field::lemma_mul_commutes::<R, R>(sigma, l);
    crate::exact::field::lemma_one_mul::<R, R>(one);
}

/// A generated pair is a rotation where the scalars are real. In exact
/// real arithmetic the squares of the two coefficients add up to one.
pub proof fn lemma_rotation_has_unit_length<R: RealScalar>(dx: R, dy: R)
    requires
        exact_real_rotation::<R>(),
    ensures
        ({
            let g = crate::givens::rotation_for::<R, R>(dx, dy);
            g.0.mul_spec(g.0).add_spec(g.1.mul_spec(g.1)) == R::one_spec()
        }),
{
    let one = R::one_spec();
    let zero = R::zero_spec();
    if dy.abs_spec().is_zero_spec() {
        crate::exact::field::lemma_one_mul::<R, R>(one);
        crate::exact::field::lemma_zero_mul::<R, R>(zero);
        crate::exact::field::lemma_add_zero::<R>(one);
    } else if dx.abs_spec().lt_spec(dy.abs_spec()) {
        let t = dx.div_spec(dy);
        let l = crate::givens::leading_coefficient::<R, R>(t);
        lemma_unit_from_quotient::<R>(t);
        crate::exact::field::lemma_add_commutes::<R, R>(
            l.mul_spec(l),
            t.mul_spec(l).mul_spec(t.mul_spec(l)),
        );
    } else {
        lemma_unit_from_quotient::<R>(dy.div_spec(dx));
    }
}

/// All the laws of exact real arithmetic that the keeping of lengths
/// rests on.
pub open spec fn exact_real_length<R: RealScalar>() -> bool {
    &&& crate::exact::field::exact_addition::<R, R>()
    &&& crate::exact::field::exact_multiplication::<R, R>()
    &&& crate::exact::field::exact_negation::<R, R>()
    &&& crate::exact::field::exact_double_negation::<R, R>()
    &&& crate::exact::field::exact_real_conjugation::<R>()
}

/// `((a + p) + (p + b)) + ((c + -p) + (-p + d)) == (a + d) + (c + b)`.
proof fn lemma_cross_terms_cancel<R: RealScalar>(a: R, b: R, c: R, d: R, p: R)
    requires
        exact_real_length::<R>(),
    ensures
        a.add_spec(p).add_spec(p.add_spec(b)).add_spec(
            c.add_spec(p.neg_spec()).add_spec(p.neg_spec().add_spec(d)),
        ) == a.add_spec(d).add_spec(c.add_spec(b)),
{
    let m = p.neg_spec();
    let zero = R::zero_spec();
    crate::exact::field::lemma_interchange_terms::<R, R>(
        a.add_spec(p),
        p.add_spec(b),
        c.add_spec(m),
        m.add_spec(d),
    );
    // (a + p) + (c + m) == (a + c) + (p + m) == a + c
    crate::exact::field::lemma_interchange_terms::<R, R>(a, p, c, m);
    crate::exact::field::lemma_add_commutes::<R, R>(p, m);
    crate::exact::field::lemma_neg_then_add::<R, R>(p);
    crate::exact::field::lemma_add_zero_right::<R, R>(a.add_spec(c));
    // (p + b) + (m + d) == (p + m) + (b + d) == b + d
    crate::exact::field::lemma_interchange_terms::<R, R>(p, b, m, d);
    crate::exact::field::lemma_zero_add::<R, R>(b.add_spec(d));
    // (a + c) + (b + d) == (a + c) + (d + b) == (a + d) + (c + b)
    crate::exact::field::lemma_add_commutes::<R, R>(b, d);
    crate::exact::field::lemma_interchange_terms::<R, R>(a, c, d, b);
}

/// `(x + y) * (x + y) == (x * x + y * x) + (x * y + y * y)`.
proof fn lemma_square_of_sum<R: RealScalar>(x: R, y: R)
    requires
        crate::exact::field::exact_multiplication::<R, R>(),
    ensures
        x.add_spec(y).mul_spec(x.add_spec(y)) == x.mul_spec(x).add_spec(y.mul_spec(x)).add_spec(
            x.mul_spec(y).add_spec(y.mul_spec(y)),
        ),
{
    crate::exact::field::lemma_distribute_left::<R, R>(x.add_spec(y), x, y);
    crate::exact::field::lemma_distribute_right::<R, R>(x, y, x);
    crate::exact::field::lemma_distribute_right::<R, R>(x, y, y);
}

/// What a pair of coefficients does to squared lengths. In exact real
/// arithmetic, the squares of the two components of a pair that went
/// through `(c, s)` add up to `c * c + s * s` times what the squares of
/// the components added up to before.
pub proof fn lemma_rotation_scales_length<R: RealScalar>(a: R, b: R, c: R, s: R)
    requires
        exact_real_length::<R>(),
    ensures
        ({
            let r = crate::givens::rotated::<R, R>(a, b, c, s);
            r.0.mul_spec(r.0).add_spec(r.1.mul_spec(r.1)) == c.mul_spec(c).add_spec(s.mul_spec(s)).mul_spec(
                a.mul_spec(a).add_spec(b.mul_spec(b)),
            )
        }),
{
    let x = c.mul_spec(a);
    let y = s.mul_spec(b);
    let z = s.mul_spec(a);
    let w = c.mul_spec(b);
    let n = z.neg_spec();
    let p = x.mul_spec(y);
    crate::exact::field::lemma_conj_is_identity::<R>(c);
    crate::exact::field::lemma_conj_is_identity::<R>(s);
    crate::exact::field::lemma_neg_times::<R, R>(s, a);
    // the first component squared: (x * x + p) + (p + y * y)
    lemma_square_of_sum::<R>(x, y);
    crate::exact::field::lemma_mul_commutes::<R, R>(y, x);
    // the second component squared: (z * z + -p) + (-p + w * w)
    lemma_square_of_sum::<R>(n, w);
    crate::exact::field::lemma_neg_times::<R, R>(z, n);
    crate::exact::field::lemma_mul_commutes::<R, R>(z, n);
    crate::exact::field::lemma_neg_times::<R, R>(z, z);
    crate::exact::field::lemma_neg_twice::<R, R>(z.mul_spec(z));
    crate::exact::field::lemma_neg_times::<R, R>(z, w);
    crate::exact::field::lemma_mul_commutes::<R, R>(w, n);
    // z * w == p
    crate::exact::field::lemma_interchange_factors::<R, R>(s, a, c, b);
    crate::exact::field::lemma_interchange_factors::<R, R>(c, a, s, b);
    crate::exact::field::lemma_mul_commutes::<R, R>(s, c);
    assert(z.mul_spec(w) == p);
    lemma_cross_terms_cancel::<R>(x.mul_spec(x), y.mul_spec(y), z.mul_spec(z), w.mul_spec(w), p);
    // (c * c + s * s) * (a * a + b * b) == (x * x + w * w) + (z * z + y * y)
    let aa = a.mul_spec(a);
    let bb = b.mul_spec(b);
    let cc = c.mul_spec(c);
    let ss = s.mul_spec(s);
    crate::exact::field::lemma_distribute_right::<R, R>(cc, ss, aa.add_spec(bb));
    crate::exact::field::lemma_distribute_left::<R, R>(cc, aa, bb);
    crate::exact::field::lemma_distribute_left::<R, R>(ss, aa, bb);
    crate::exact::field::lemma_square_of_product::<R, R>(c, a);
    crate::exact::field::lemma_square_of_product::<R, R>(c, b);
    crate::exact::field::lemma_square_of_product::<R, R>(s, a);
    crate::exact::field::lemma_square_of_product::<R, R>(s, b);
}

/// A generated rotation keeps lengths. In exact real arithmetic, whatever
/// pair goes through the rotation generated for `(dx, dy)` comes out with
/// the same sum of squares.
pub proof fn lemma_rotation_keeps_length<R: RealScalar>(dx: R, dy: R, a: R, b: R)
    requires
        exact_real_rotation::<R>(),
        exact_real_length::<R>(),
    ensures
        ({
            let g = crate::givens::rotation_for::<R, R>(dx, dy);
            let r = crate::givens::rotated::<R, R>(a, b, g.0, g.1);
            r.0.mul_spec(r.0).add_spec(r.1.mul_spec(r.1)) == a.mul_spec(a).add_spec(b.mul_spec(b))
        }),
{
    let g = crate::givens::rotation_for::<R, R>(dx, dy);
    lemma_rotation_has_unit_length::<R>(dx, dy);
    lemma_rotation_scales_length::<R>(a, b, g.0, g.1);
    crate::exact::field::lemma_one_mul::<R, R>(a.mul_spec(a).add_spec(b.mul_spec(b)));
}

} // verus!
