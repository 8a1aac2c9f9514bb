//! The residual estimate of a cycle in exact real arithmetic: it never
//! grows from one step to the next.

use crate::scalar::{ComplexOrReal, RealScalar};
use vstd::prelude::*;

verus! {

/// In exact real arithmetic the coefficient that goes with the larger
/// operand has magnitude at most one.
proof fn lemma_leading_coefficient_bound<R: RealScalar>(t: R)
    requires
        crate::exact::field::exact_real_order::<R>(),
    ensures
        crate::givens::leading_coefficient::<R, R>(t).abs_spec().le_spec(R::one_spec()),
{
    let y = t.mul_spec(t);
    crate::exact::field::lemma_real_square_nonnegative::<R>(t);
    crate::exact::field::lemma_root_at_least_one::<R>(y);
    crate::exact::field::lemma_reciprocal_at_most_one::<R>(R::one_spec().add_spec(y).sqrt_spec());
}

/// In exact real arithmetic the sine of a generated rotation has magnitude
/// at most one.
pub proof fn lemma_sine_bound<R: RealScalar>(dx: R, dy: R)
    requires
        crate::exact::field::exact_real_order::<R>(),
    ensures
        crate::givens::rotation_for::<R, R>(dx, dy).1.abs_spec().le_spec(R::one_spec()),
{
    let one = R::one_spec();
    if dy.abs_spec().is_zero_spec() {
        crate::exact::field::lemma_abs_of_zero::<R>();
        crate::exact::field::lemma_zero_le_one::<R>();
    } else if dx.abs_spec().lt_spec(dy.abs_spec()) {
        lemma_leading_coefficient_bound::<R>(dx.div_spec(dy));
    } else {
        let t = dy.div_spec(dx);
        let cs = crate::givens::leading_coefficient::<R, R>(t);
        lemma_leading_coefficient_bound::<R>(t);
        crate::exact::field::lemma_order_total::<R>(dx.abs_spec(), dy.abs_spec());
        crate::exact::field::lemma_quotient_at_most_one::<R>(dx, dy);
        crate::exact::field::lemma_abs_of_product::<R>(t, cs);
        crate::exact::field::lemma_abs_nonnegative::<R>(cs);
        crate::exact::field::lemma_factor_at_most_one::<R>(t.abs_spec(), cs.abs_spec());
        crate::exact::field::lemma_le_transitive::<R>(t.abs_spec().mul_spec(cs.abs_spec()), cs.abs_spec(), one);
    }
}

/// The residual estimate never grows. In exact real arithmetic, a step of
/// a cycle leaves a rotated right-hand side whose last entry is at most as
/// large in magnitude as the last entry before the step; the magnitude of
/// the new last entry is the new residual estimate.
pub proof fn lemma_residual_estimate_shrinks<R: RealScalar>(
    pre: crate::agmres::AGmresModel<R, R>,
    s: Seq<R>,
    w: Seq<R>,
)
    requires
        crate::exact::field::exact_real_order::<R>(),
        pre.in_cycle(s),
        crate::agmres::advance_spec::<R, R>(pre, s, w).2 is Ok,
    ensures
        ({
            let (post, s2, _) = crate::agmres::advance_spec::<R, R>(pre, s, w);
            &&& s2.len() == s.len() + 1
            &&& post.resid == s2.last().abs_spec()
            &&& post.resid.le_spec(s.last().abs_spec())
        }),
{
    let (grown, outcome) = crate::arnoldi::extend_spec::<R, R>(pre.arn, w);
    let i = pre.cs.len() as int;
    let raw = crate::givens::rotate_prefix::<R, R>(grown.columns.last(), pre.cs, pre.sn, pre.cs.len());
    let g = crate::givens::rotation_for::<R, R>(raw[i], raw[i + 1]);
    let s1 = s.push(R::zero_spec());
    let a = s[i];
    let turned = g.1.neg_spec().mul_spec(a);
    crate::exact::field::lemma_mul_zero::<R>(g.0);
    crate::exact::field::lemma_add_zero::<R>(turned);
    crate::exact::field::lemma_abs_of_product::<R>(g.1.neg_spec(), a);
    crate::exact::field::lemma_abs_of_negative::<R>(g.1);
    lemma_sine_bound::<R>(raw[i], raw[i + 1]);
    crate::exact::field::lemma_abs_nonnegative::<R>(a);
    crate::exact::field::lemma_factor_at_most_one::<R>(g.1.abs_spec(), a.abs_spec());
}

/// Steps that did not fail leave the state inside the cycle, and after at
/// least one step that was taken the residual estimate is the magnitude of
/// the last entry of the rotated right-hand side.
pub proof fn lemma_steps_stay_in_cycle<T: ComplexOrReal<U>, U: RealScalar>(
    start: crate::agmres::AGmresModel<T, U>,
    s0: Seq<T>,
    images: Seq<Seq<T>>,
    k: nat,
)
    requires
        start.in_cycle(s0),
        crate::agmres::run_steps::<T, U>(start, s0, images, k).2 is Ok,
    ensures
        ({
            let at = crate::agmres::run_steps::<T, U>(start, s0, images, k);
            &&& at.0.in_cycle(at.1)
            &&& k > 0 && crate::agmres::run_steps::<T, U>(start, s0, images, (k - 1) as nat).2 == Ok::<
                bool,
                crate::arnoldi::ArnoldiErr,
            >(false) ==> at.0.resid == at.1.last().abs_spec()
        }),
    decreases k,
{
    if k > 0 {
        lemma_steps_stay_in_cycle::<T, U>(start, s0, images, (k - 1) as nat);
    }
}

/// Within a cycle the residual estimates form a sequence that never grows:
/// in exact real arithmetic, the estimate after a step is at most the
/// estimate after the step before it.
pub proof fn lemma_residual_estimates_never_grow<R: RealScalar>(
    start: crate::agmres::AGmresModel<R, R>,
    s0: Seq<R>,
    images: Seq<Seq<R>>,
    j: nat,
)
    requires
        crate::exact::field::exact_real_order::<R>(),
        start.in_cycle(s0),
        j > 0,
        crate::agmres::run_steps::<R, R>(start, s0, images, (j - 1) as nat).2 == Ok::<
            bool,
            crate::arnoldi::ArnoldiErr,
        >(false),
        crate::agmres::run_steps::<R, R>(start, s0, images, j).2 == Ok::<bool, crate::arnoldi::ArnoldiErr>(
            false,
        ),
        crate::agmres::run_steps::<R, R>(start, s0, images, j + 1).2 is Ok,
    ensures
        crate::agmres::run_steps::<R, R>(start, s0, images, j + 1).0.resid.le_spec(
            crate::agmres::run_steps::<R, R>(start, s0, images, j).0.resid,
        ),
{
    let at = crate::agmres::run_steps::<R, R>(start, s0, images, j);
    lemma_steps_stay_in_cycle::<R, R>(start, s0, images, j);
    lemma_residual_estimate_shrinks::<R>(at.0, at.1, images[j as int]);
}

/// All the laws of exact real arithmetic that the bound of the residual
/// estimates by the residual norm rests on.
pub open spec fn exact_real_cycle<R: RealScalar>() -> bool {
    &&& crate::exact::field::exact_real_order::<R>()
    &&& crate::exact::field::exact_root::<R>()
    &&& crate::exact::field::exact_real_embedding::<R>()
}

/// The rotated right-hand side a cycle starts with holds the residual
/// norm, which is its own magnitude.
proof fn lemma_first_entry_is_the_residual_norm<R: RealScalar>(pre: crate::agmres::AGmresModel<R, R>)
    requires
        exact_real_cycle::<R>(),
        pre.initialized(),
    ensures
        R::from_real_spec(pre.beta).abs_spec() == pre.beta,
{
    let ss = crate::scalar::sum_sq::<R, R>(pre.r, pre.r.len());
    crate::exact::orthonormality::lemma_sum_sq_nonnegative::<R, R>(pre.r, pre.r.len());
    crate::exact::field::lemma_root_nonnegative::<R>(ss);
    crate::exact::field::lemma_embedding_is_identity::<R>(pre.beta);
    crate::exact::field::lemma_magnitude_of_nonnegative::<R>(pre.beta);
}

/// The estimates of a cycle never exceed the residual norm the cycle
/// began with. In exact real arithmetic, after any number of steps of a
/// cycle that began in the state `pre`, the last of which was taken and
/// did not fail, the residual estimate is at most `pre.beta`.
pub proof fn lemma_estimates_at_most_the_residual_norm<R: RealScalar>(
    pre: crate::agmres::AGmresModel<R, R>,
    images: Seq<Seq<R>>,
    k: nat,
)
    requires
        exact_real_cycle::<R>(),
        pre.wf(),
        pre.initialized(),
        k > 0,
        crate::agmres::run_steps::<R, R>(
            crate::agmres::cycle_start::<R, R>(pre),
            seq![R::from_real_spec(pre.beta)],
            images,
            (k - 1) as nat,
        ).2 == Ok::<bool, crate::arnoldi::ArnoldiErr>(false),
        crate::agmres::run_steps::<R, R>(
            crate::agmres::cycle_start::<R, R>(pre),
            seq![R::from_real_spec(pre.beta)],
            images,
            k,
        ).2 is Ok,
    ensures
        crate::agmres::run_steps::<R, R>(
            crate::agmres::cycle_start::<R, R>(pre),
            seq![R::from_real_spec(pre.beta)],
            images,
            k,
        ).0.resid.le_spec(pre.beta),
    decreases k,
{
    let start = crate::agmres::cycle_start::<R, R>(pre);
    let s0 = seq![R::from_real_spec(pre.beta)];
    assert(start.in_cycle(s0));
    if k == 1 {
        lemma_first_entry_is_the_residual_norm::<R>(pre);
        lemma_residual_estimate_shrinks::<R>(start, s0, images[0]);
    } else {
        let j = (k - 1) as nat;
        assert(crate::agmres::run_steps::<R, R>(start, s0, images, (j - 1) as nat).2 == Ok::<
            bool,
            crate::arnoldi::ArnoldiErr,
        >(false));
        lemma_estimates_at_most_the_residual_norm::<R>(pre, images, j);
        lemma_residual_estimates_never_grow::<R>(start, s0, images, j);
        crate::exact::field::lemma_le_transitive::<R>(
            crate::agmres::run_steps::<R, R>(start, s0, images, k).0.resid,
            crate::agmres::run_steps::<R, R>(start, s0, images, j).0.resid,
            pre.beta,
        );
    }
}

/// A cycle that succeeds leaves an estimate that is at most the residual
/// norm it began with. In exact real arithmetic, after a cycle of at least
/// one step from a state whose residual norm is not zero, `resid` is at
/// most the `beta` the cycle began with.
pub proof fn lemma_cycle_estimate_at_most_the_residual_norm<
    R: RealScalar,
    A: Fn(&Vec<R>) -> Vec<R>,
    M: Fn(&Vec<R>) -> Vec<R>,
>(
    op: &A,
    pc: Option<&M>,
    pre: crate::agmres::AGmresModel<R, R>,
    post: crate::agmres::AGmresModel<R, R>,
)
    requires
        exact_real_cycle::<R>(),
        pre.running(),
        !pre.beta.is_zero_spec(),
        pre.m > 0,
        crate::agmres::cycle_of::<R, R, A, M>(op, pc, pre, post, Ok(())),
    ensures
        post.resid.le_spec(pre.beta),
{
    let (qs, ws, xv, rv) = choose|qs: Seq<Vec<R>>, ws: Seq<Vec<R>>, xv: Vec<R>, rv: Vec<R>|
        crate::agmres::cycle_trace::<R, R, A, M>(op, pc, pre, qs, ws, xv, rv, post, Ok(()));
    let start = crate::agmres::cycle_start::<R, R>(pre);
    let s0 = seq![R::from_real_spec(pre.beta)];
    let images = crate::vector::rows(ws);
    let k = ws.len();
    assert(k > 0);
    assert(crate::agmres::run_steps::<R, R>(start, s0, images, (k - 1) as nat).2 == Ok::<
        bool,
        crate::arnoldi::ArnoldiErr,
    >(false));
    lemma_estimates_at_most_the_residual_norm::<R>(pre, images, k);
}

} // verus!
