//! Restarted GMRES with an adaptive restart length.
//!
//! A solve is a sequence of cycles. Each cycle rebuilds a Krylov basis from
//! the current residual, extends it step by step while keeping the
//! Hessenberg matrix triangular with plane rotations, and corrects the
//! iterate by the solution of the projected least-squares problem. Between
//! cycles the restart length is shortened when the residual shrank too
//! slowly.
//!
//! The restart length is never raised on fast convergence: it goes down by
//! the configured step while that stays at or above the minimum, and jumps
//! back to the maximum when it would not.

use crate::arnoldi::{ArnoldiErr, ArnoldiSpace, KrylovModel};
use crate::givens::{generate_plane_rotation, rotate_column, rotate_pair};
use crate::least_squares::update2;
use crate::operator::{apply, precondition};
use crate::scalar::{norm, ComplexOrReal, RealScalar};
use crate::vector::{difference, duplicate, zeros};
use vstd::prelude::*;

verus! {

/// Mathematical content of an [`AGmresState`].
pub struct AGmresModel<T, U> {
    pub m: nat,
    pub m_max: nat,
    pub m_min: nat,
    pub m_step: nat,
    pub cf: U,
    pub tol: U,
    pub x: Seq<T>,
    pub b: Seq<T>,
    pub cs: Seq<T>,
    pub sn: Seq<T>,
    pub beta: U,
    pub resid: U,
    pub r: Seq<T>,
    pub converged: bool,
    pub arn: KrylovModel<T>,
}

/// The state of a solve, inspectable and resumable between cycles.
pub struct AGmresState<T, U> where T: ComplexOrReal<U>, U: RealScalar {
    /// Current restart length.
    pub m: usize,
    /// Largest restart length, at most the dimension of the problem.
    pub m_max: usize,
    /// Smallest restart length.
    pub m_min: usize,
    /// By how much the restart length shrinks.
    pub m_step: usize,
    /// Residual ratio of one cycle above which convergence counts as slow.
    pub cf: U,
    /// Threshold on the squared residual norm.
    pub tol: U,
    /// Current iterate.
    pub x: Vec<T>,
    /// Right-hand side.
    pub b: Vec<T>,
    /// Cosines of the rotations of the current cycle, one per step taken.
    pub cs: Vec<T>,
    /// Sines of the rotations of the current cycle, one per step taken.
    pub sn: Vec<T>,
    /// Norm of the residual `r`.
    pub beta: U,
    /// Running estimate of the residual norm: the magnitude of the last
    /// entry of the rotated right-hand side. For real scalars it is the
    /// norm of the residual of the projected problem in exact arithmetic.
    /// For complex scalars the generated pairs are in general no rotations,
    /// and the estimate is then not the norm of a residual and can grow
    /// from one step to the next.
    pub resid: U,
    /// Preconditioned residual at the start of the current cycle.
    pub r: Vec<T>,
    /// Set once the residual is below the threshold; final.
    pub converged: bool,
    /// Krylov basis of the current cycle.
    pub arn: ArnoldiSpace<T, U>,
}

impl<T, U> View for AGmresState<T, U> where T: ComplexOrReal<U>, U: RealScalar {
    type V = AGmresModel<T, U>;

    open spec fn view(&self) -> AGmresModel<T, U> {
        AGmresModel {
            m: self.m as nat,
            m_max: self.m_max as nat,
            m_min: self.m_min as nat,
            m_step: self.m_step as nat,
            cf: self.cf,
            tol: self.tol,
            x: self.x@,
            b: self.b@,
            cs: self.cs@,
            sn: self.sn@,
            beta: self.beta,
            resid: self.resid,
            r: self.r@,
            converged: self.converged,
            arn: self.arn@,
        }
    }
}

impl<T, U> AGmresModel<T, U> where T: ComplexOrReal<U>, U: RealScalar {
    /// The invariant of a solve: the restart length lies between its
    /// bounds, the largest of which does not exceed the dimension of the
    /// problem; iterate, right-hand side and residual have that dimension;
    /// there are as many sines as cosines; the basis is well shaped.
    pub open spec fn wf(self) -> bool {
        &&& self.m_min <= self.m <= self.m_max
        &&& self.m_max <= self.b.len()
        &&& self.x.len() == self.b.len()
        &&& self.r.len() == self.b.len()
        &&& self.cs.len() == self.sn.len()
        &&& crate::arnoldi::well_shaped(self.arn)
    }

    /// The residual is in place: `beta` is the norm of `r`. This is what
    /// tells a state that was given a problem from one that was only
    /// created.
    pub open spec fn initialized(self) -> bool {
        self.beta == crate::scalar::norm_spec::<T, U>(self.r)
    }

    /// A cycle can be run: the invariant holds, the residual is in place,
    /// and the solve has not converged.
    pub open spec fn running(self) -> bool {
        &&& self.wf()
        &&& self.initialized()
        &&& !self.converged
    }

    /// Inside a cycle with rotated right-hand side `s`: the basis lives in
    /// the space of the problem and holds one vector more than there are
    /// rotations; `s` has one entry per basis vector.
    pub open spec fn in_cycle(self, s: Seq<T>) -> bool {
        &&& self.arn.basis.len() == self.cs.len() + 1
        &&& s.len() == self.cs.len() + 1
        &&& self.arn.basis[0].len() == self.b.len()
    }

    /// The same configuration: restart bounds and step, thresholds and
    /// right-hand side.
    pub open spec fn same_problem(self, other: Self) -> bool {
        &&& self.m_max == other.m_max
        &&& self.m_min == other.m_min
        &&& self.m_step == other.m_step
        &&& self.cf == other.cf
        &&& self.tol == other.tol
        &&& self.b == other.b
    }
}

/// The restart length that follows `m` after a slow cycle: `m - m_step`
/// where that is not below `m_min`, and `m_max` otherwise.
pub open spec fn shortened(m: nat, m_min: nat, m_max: nat, m_step: nat) -> nat {
    if m - m_step >= m_min {
        (m - m_step) as nat
    } else {
        m_max
    }
}

/// The length `m`, cut down to `limit`.
pub open spec fn capped(m: nat, limit: nat) -> nat {
    if m > limit {
        limit
    } else {
        m
    }
}

/// The state right after creation, before any residual was computed: the
/// largest restart length is cut down to the size of the problem, and the
/// restart length to the largest one.
pub open spec fn created<T: ComplexOrReal<U>, U: RealScalar>(
    problem_size: nat,
    m: nat,
    m_max: nat,
    m_min: nat,
    m_step: nat,
    cf: U,
    tol: U,
) -> AGmresModel<T, U> {
    AGmresModel {
        m: capped(m, capped(m_max, problem_size)),
        m_max: capped(m_max, problem_size),
        m_min,
        m_step,
        cf,
        tol,
        x: crate::vector::zeros_spec::<T, U>(problem_size),
        b: crate::vector::zeros_spec::<T, U>(problem_size),
        cs: Seq::empty(),
        sn: Seq::empty(),
        beta: U::zero_spec(),
        resid: U::zero_spec(),
        r: crate::vector::zeros_spec::<T, U>(problem_size),
        converged: false,
        arn: KrylovModel { basis: Seq::empty(), columns: Seq::empty() },
    }
}

/// The norm by which the first residual is scaled: that of the
/// preconditioned right-hand side, or one where that is zero.
pub open spec fn residual_scale<T: ComplexOrReal<U>, U: RealScalar>(mb: Seq<T>) -> U {
    let nb = crate::scalar::norm_spec::<T, U>(mb);
    if nb.is_zero_spec() {
        U::one_spec()
    } else {
        nb
    }
}

/// The state after it was given the initial guess `x`, the right-hand side
/// `b`, the preconditioned right-hand side `mb` and the preconditioned
/// residual `r` of the guess. The solve is over at once where the square of
/// the scaled residual norm is at most the tolerance.
pub open spec fn seeded<T: ComplexOrReal<U>, U: RealScalar>(
    pre: AGmresModel<T, U>,
    x: Seq<T>,
    b: Seq<T>,
    mb: Seq<T>,
    r: Seq<T>,
) -> AGmresModel<T, U> {
    let beta = crate::scalar::norm_spec::<T, U>(r);
    let resid = beta.div_spec(residual_scale::<T, U>(mb));
    AGmresModel { x, b, r, beta, resid, converged: resid.mul_spec(resid).le_spec(pre.tol), ..pre }
}

/// The state at the start of a cycle: the basis is the normalized residual
/// alone and no rotation is recorded.
pub open spec fn cycle_start<T: ComplexOrReal<U>, U: RealScalar>(pre: AGmresModel<T, U>) -> AGmresModel<
    T,
    U,
> {
    AGmresModel {
        cs: Seq::empty(),
        sn: Seq::empty(),
        arn: KrylovModel {
            basis: seq![
                crate::vector::div_all_spec::<T, U>(
                    pre.r,
                    T::from_real_spec(crate::scalar::norm_spec::<T, U>(pre.r)),
                ),
            ],
            columns: Seq::empty(),
        },
        ..pre
    }
}

/// One step of a cycle, given the image `w` of the last basis vector under
/// operator and preconditioner: the state and the rotated right-hand side
/// after the step, and whether the step ended the solve.
///
/// The basis is extended by `w`; a failure to do so is the outcome, with
/// nothing changed. Otherwise the new Hessenberg column goes through all
/// earlier rotations, a new rotation zeroes its subdiagonal entry, and the
/// same rotation is applied to the right-hand side, extended by a zero. The
/// magnitude of the new last entry is the residual estimate. Where its
/// square is below the tolerance the iterate is corrected from the
/// equations found so far and the solve has converged.
pub open spec fn advance_spec<T: ComplexOrReal<U>, U: RealScalar>(
    pre: AGmresModel<T, U>,
    s: Seq<T>,
    w: Seq<T>,
) -> (AGmresModel<T, U>, Seq<T>, Result<bool, ArnoldiErr>) {
    let (grown, outcome) = crate::arnoldi::extend_spec::<T, U>(pre.arn, w);
    match outcome {
        Err(e) => (pre, s, Err(e)),
        Ok(_) => {
            let i = pre.cs.len() as int;
            let raw = crate::givens::rotate_prefix::<T, U>(grown.columns.last(), pre.cs, pre.sn, pre.cs.len());
            let g = crate::givens::rotation_for::<T, U>(raw[i], raw[i + 1]);
            let col = crate::givens::rotate_pair_spec::<T, U>(raw, i, g.0, g.1);
            let s2 = crate::givens::rotate_pair_spec::<T, U>(s.push(T::zero_spec()), i, g.0, g.1);
            let resid = s2[i + 1].abs_spec();
            let done = resid.mul_spec(resid).lt_spec(pre.tol);
            let arn = KrylovModel { basis: grown.basis, columns: pre.arn.columns.push(col) };
            (
                AGmresModel {
                    arn,
                    cs: pre.cs.push(g.0),
                    sn: pre.sn.push(g.1),
                    resid,
                    x: if done {
                        crate::least_squares::updated_solution::<T, U>(pre.x, i, arn.columns, s2, arn.basis)
                    } else {
                        pre.x
                    },
                    converged: done,
                    ..pre
                },
                s2,
                Ok(done),
            )
        },
    }
}

/// The state after a cycle ran its full length: the iterate is corrected
/// from all equations of the cycle, or left alone where no step was taken.
pub open spec fn corrected<T: ComplexOrReal<U>, U: RealScalar>(pre: AGmresModel<T, U>, s: Seq<T>) -> AGmresModel<
    T,
    U,
> {
    AGmresModel {
        x: if pre.cs.len() == 0 {
            pre.x
        } else {
            crate::least_squares::updated_solution::<T, U>(
                pre.x,
                pre.cs.len() - 1,
                pre.arn.columns,
                s,
                pre.arn.basis,
            )
        },
        ..pre
    }
}

/// The state after the true residual `r` of the corrected iterate became
/// known, `r1` being the residual norm the cycle started from.
///
/// The solve has converged where the squared norm of `r` is below the
/// tolerance. Otherwise, where the norm shrank by less than the factor
/// `cf`, the restart length is shortened.
pub open spec fn resynced<T: ComplexOrReal<U>, U: RealScalar>(
    pre: AGmresModel<T, U>,
    r: Seq<T>,
    r1: U,
) -> AGmresModel<T, U> {
    let beta = crate::scalar::norm_spec::<T, U>(r);
    let done = beta.mul_spec(beta).lt_spec(pre.tol);
    AGmresModel {
        r,
        beta,
        converged: done,
        m: if !done && pre.cf.lt_spec(beta.div_spec(r1)) {
            shortened(pre.m, pre.m_min, pre.m_max, pre.m_step)
        } else {
            pre.m
        },
        ..pre
    }
}

/// `r` is a possible preconditioned residual of the guess `x`: the
/// preconditioner applied to `b` minus an image of `x` under the operator.
pub open spec fn residual_of<T: ComplexOrReal<U>, U: RealScalar, A: Fn(&Vec<T>) -> Vec<T>, M: Fn(&Vec<T>) -> Vec<T>>(
    op: &A,
    pc: Option<&M>,
    x: Vec<T>,
    b: Seq<T>,
    r: Vec<T>,
) -> bool {
    exists|image: Vec<T>, w: Vec<T>|
        #![trigger op.ensures((&x,), image), crate::operator::preconditioned(pc, w, r)]
        op.ensures((&x,), image) && w@ == crate::vector::difference_spec::<T, U>(b, image@)
            && crate::operator::preconditioned(pc, w, r)
}

impl<T, U> AGmresState<T, U> where T: ComplexOrReal<U>, U: RealScalar {
    /// The invariant of a solve, on the content of the state.
    pub open spec fn wf(&self) -> bool {
        self@.wf()
    }

    /// A state for a problem of `problem_size` unknowns, with zero iterate,
    /// right-hand side and residual. The largest restart length is cut down
    /// to the size of the problem, and the restart length with it. The
    /// invariant of a solve holds of the state unless the smallest restart
    /// length is more than the problem has unknowns.
    pub fn create(
        problem_size: usize,
        m: usize,
        m_max: usize,
        m_min: usize,
        m_step: usize,
        cf: U,
        tol: U,
    ) -> (r: Self)
        requires
            m_min <= m <= m_max,
        ensures
            r.wf() <==> m_min <= problem_size,
            r@ == created::<T, U>(
                problem_size as nat,
                m as nat,
                m_max as nat,
                m_min as nat,
                m_step as nat,
                cf,
                tol,
            ),
    {
        let m_max = if m_max > problem_size {
            problem_size
        } else {
            m_max
        };
        let m = if m > m_max {
            m_max
        } else {
            m
        };
        AGmresState {
            m,
            m_max,
            m_min,
            m_step,
            cf,
            tol,
            x: zeros::<T, U>(problem_size),
            b: zeros::<T, U>(problem_size),
            cs: Vec::new(),
            sn: Vec::new(),
            beta: U::zero(),
            resid: U::zero(),
            r: zeros::<T, U>(problem_size),
            converged: false,
            arn: ArnoldiSpace::empty(),
        }
    }

    /// Takes in the initial guess `x`, the right-hand side `b`, the
    /// preconditioned right-hand side `mb` and the preconditioned residual
    /// `r` of the guess.
    pub fn seed(&mut self, x: &Vec<T>, b: &Vec<T>, mb: &Vec<T>, r: Vec<T>)
        requires
            old(self).wf(),
            b.len() == old(self)@.b.len(),
            x.len() == b.len(),
            r.len() == b.len(),
        ensures
            final(self).wf(),
            final(self)@.initialized(),
            final(self)@ == seeded::<T, U>(old(self)@, x@, b@, mb@, r@),
    {
        let nb: U = norm::<T, U>(mb);
        let normb = if nb.is_zero() {
            U::one()
        } else {
            nb
        };
        self.b = duplicate(b);
        self.x = duplicate(x);
        self.beta = norm::<T, U>(&r);
        self.r = r;
        self.resid = self.beta.div(normb);
        self.converged = self.resid.mul(self.resid).le(self.tol);
    }

    /// Starts a cycle: the basis is rebuilt from the residual, the recorded
    /// rotations are dropped, and the rotated right-hand side, which is
    /// returned, holds the residual norm alone.
    pub fn begin_cycle(&mut self) -> (s: Vec<T>)
        requires
            old(self)@.running(),
            !old(self)@.beta.is_zero_spec(),
        ensures
            final(self)@.running(),
            final(self)@.in_cycle(s@),
            final(self)@ == cycle_start::<T, U>(old(self)@),
            s@ == seq![T::from_real_spec(old(self)@.beta)],
    {
        self.arn.reset(&self.r);
        self.cs = Vec::new();
        self.sn = Vec::new();
        let mut s: Vec<T> = Vec::new();
        s.push(T::from_real(self.beta));
        s
    }

    /// Takes one step of the current cycle, given the image `w` of the last
    /// basis vector under operator and preconditioner. Returns whether the
    /// step ended the solve.
    pub fn advance(&mut self, s: &mut Vec<T>, w: Vec<T>) -> (r: Result<bool, ArnoldiErr>)
        requires
            old(self)@.running(),
            old(self)@.in_cycle(old(s)@),
            w.len() == old(self)@.b.len(),
        ensures
            final(self).wf(),
            final(self)@.initialized(),
            r is Ok ==> final(self)@.in_cycle(final(s)@),
            (final(self)@, final(s)@, r) == advance_spec::<T, U>(old(self)@, old(s)@, w@),
    {
        let ghost pre = self@;
        match self.arn.extend(w) {
            Err(e) => {
                return Err(e);
            },
            Ok(_) => {},
        }
        let ghost grown = self.arn@;
        let i = self.cs.len();
        let mut col = self.arn.hessenberg_columns.pop().unwrap();
        proof {
            assert forall|k: int| 0 <= k < pre.arn.columns.len() implies crate::vector::rows(
                self.arn.hessenberg_columns@,
            )[k] == pre.arn.columns[k] by {
                assert(grown.columns[k] == pre.arn.columns[k]);
            }
            crate::givens::lemma_rotate_prefix_len::<T, U>(col@, pre.cs, pre.sn, pre.cs.len());
        }
        rotate_column::<T, U>(&mut col, &self.cs, &self.sn);
        let (c, sn) = generate_plane_rotation::<T, U>(col[i], col[i + 1]);
        rotate_pair::<T, U>(&mut col, i, c, sn);
        let ghost final_col = col@;
        self.arn.hessenberg_columns.push(col);
        self.cs.push(c);
        self.sn.push(sn);
        s.push(T::zero());
        rotate_pair::<T, U>(s, i, c, sn);
        self.resid = s[i + 1].abs();
        proof {
            assert(self.arn@.columns =~= pre.arn.columns.push(final_col));
        }
        if self.resid.mul(self.resid).lt(self.tol) {
            proof {
                assert forall|k: int| 0 <= k <= i implies (#[trigger] self.arn.hessenberg_columns[k]).len()
                    > k by {
                    assert(self.arn@.columns[k].len() == k + 2);
                }
                assert forall|j: int| 0 <= j <= i implies (#[trigger] self.arn.basis[j]).len()
                    == self.x.len() by {
                    assert(self.arn@.basis[j].len() == self.arn@.basis[0].len());
                }
            }
            update2::<T, U>(&mut self.x, i, &self.arn.hessenberg_columns, s, &self.arn.basis);
            self.converged = true;
            proof {
                crate::least_squares::lemma_updated_solution_len::<T, U>(
                    pre.x,
                    i as int,
                    self.arn@.columns,
                    s@,
                    self.arn@.basis,
                );
            }
            Ok(true)
        } else {
            Ok(false)
        }
    }

    /// Ends a cycle that ran its full length: corrects the iterate from
    /// all equations of the cycle.
    pub fn correct(&mut self, s: &Vec<T>)
        requires
            old(self)@.running(),
            old(self)@.in_cycle(s@),
        ensures
            final(self)@.running(),
            final(self)@.in_cycle(s@),
            final(self)@ == corrected::<T, U>(old(self)@, s@),
    {
        let steps = self.cs.len();
        if steps > 0 {
            let ghost pre = self@;
            proof {
                assert forall|k: int| 0 <= k <= steps - 1 implies (
                #[trigger] self.arn.hessenberg_columns[k]).len() > k by {
                    assert(self.arn@.columns[k].len() == k + 2);
                }
                assert forall|j: int| 0 <= j <= steps - 1 implies (#[trigger] self.arn.basis[j]).len()
                    == self.x.len() by {
                    assert(self.arn@.basis[j].len() == self.arn@.basis[0].len());
                }
            }
            update2::<T, U>(&mut self.x, steps - 1, &self.arn.hessenberg_columns, s, &self.arn.basis);
            proof {
                crate::least_squares::lemma_updated_solution_len::<T, U>(
                    pre.x,
                    steps - 1,
                    self.arn@.columns,
                    s@,
                    self.arn@.basis,
                );
            }
        }
    }

    /// Takes in the true residual `r` of the corrected iterate, decides
    /// whether the solve has converged and, if not, adapts the restart
    /// length; `r1` is the residual norm the cycle started from.
    pub fn resync(&mut self, r: Vec<T>, r1: U)
        requires
            old(self).wf(),
            !old(self).converged,
            r.len() == old(self)@.b.len(),
        ensures
            final(self).wf(),
            final(self)@.initialized(),
            final(self)@ == resynced::<T, U>(old(self)@, r@, r1),
    {
        self.beta = norm::<T, U>(&r);
        self.r = r;
        if self.beta.mul(self.beta).lt(self.tol) {
            self.converged = true;
            return ;
        }
        if self.cf.lt(self.beta.div(r1)) {
            if self.m >= self.m_step && self.m - self.m_step >= self.m_min {
                self.m -= self.m_step;
            } else {
                self.m = self.m_max;
            }
        }
    }

    /// Computes the residual of the guess `x` for the right-hand side `b`
    /// and takes both in. The solve is over at once where the guess is
    /// good enough.
    pub fn init<A, M>(&mut self, op: &A, x: &Vec<T>, b: &Vec<T>, pc: Option<&M>) where
        A: Fn(&Vec<T>) -> Vec<T>,
        M: Fn(&Vec<T>) -> Vec<T>,

        requires
            old(self).wf(),
            b.len() == old(self)@.b.len(),
            x.len() == b.len(),
            crate::operator::preserves_dimension(op, b.len() as nat),
            crate::operator::preconditioner_preserves_dimension(pc, b.len() as nat),
        ensures
            final(self).wf(),
            final(self)@.initialized(),
            exists|mb: Vec<T>, r: Vec<T>|
                #![trigger crate::operator::preconditioned(pc, *b, mb), residual_of::<T, U, A, M>(op, pc, *x, b@, r)]
                crate::operator::preconditioned(pc, *b, mb) && residual_of::<T, U, A, M>(op, pc, *x, b@, r)
                    && final(self)@ == seeded::<T, U>(old(self)@, x@, b@, mb@, r@),
    {
        let mb = precondition(pc, b);
        let image = op(x);
        let w = difference::<T, U>(b, &image);
        let r = precondition(pc, &w);
        let ghost r0 = r;
        self.seed(x, b, &mb, r);
        proof {
            assert(crate::operator::preconditioned(pc, *b, mb) && residual_of::<T, U, A, M>(
                op,
                pc,
                *x,
                b@,
                r0,
            ) && self@ == seeded::<T, U>(old(self)@, x@, b@, mb@, r0@));
        }
    }

    /// A state ready to solve `op(x) = b` from the guess `x`, starting with
    /// the largest restart length.
    pub fn new<A, M>(
        op: &A,
        x: &Vec<T>,
        b: &Vec<T>,
        pc: Option<&M>,
        m_max: usize,
        m_min: usize,
        m_step: usize,
        cf: U,
        tol: U,
    ) -> (st: Self) where A: Fn(&Vec<T>) -> Vec<T>, M: Fn(&Vec<T>) -> Vec<T>
        requires
            m_min <= m_max,
            m_min <= b.len(),
            x.len() == b.len(),
            crate::operator::preserves_dimension(op, b.len() as nat),
            crate::operator::preconditioner_preserves_dimension(pc, b.len() as nat),
        ensures
            st.wf(),
            st@.initialized(),
            exists|mb: Vec<T>, r: Vec<T>|
                #![trigger crate::operator::preconditioned(pc, *b, mb), residual_of::<T, U, A, M>(op, pc, *x, b@, r)]
                crate::operator::preconditioned(pc, *b, mb) && residual_of::<T, U, A, M>(op, pc, *x, b@, r)
                    && st@ == seeded::<T, U>(
                    created::<T, U>(
                        b@.len(),
                        m_max as nat,
                        m_max as nat,
                        m_min as nat,
                        m_step as nat,
                        cf,
                        tol,
                    ),
                    x@,
                    b@,
                    mb@,
                    r@,
                ),
    {
        let mut st = Self::create(b.len(), m_max, m_max, m_min, m_step, cf, tol);
        st.init(op, x, b, pc);
        st
    }

    /// Runs one cycle, unless the solve has converged: then nothing changes.
    /// This is [`agmres1`] as a method.
    pub fn next<A, M>(&mut self, op: &A, pc: Option<&M>) -> (r: Result<(), ArnoldiErr>) where
        A: Fn(&Vec<T>) -> Vec<T>,
        M: Fn(&Vec<T>) -> Vec<T>,

        requires
            old(self).wf(),
            old(self)@.initialized(),
            crate::operator::preserves_dimension(op, old(self)@.b.len()),
            crate::operator::preconditioner_preserves_dimension(pc, old(self)@.b.len()),
        ensures
            final(self).wf(),
            final(self)@.initialized(),
            old(self).converged ==> r is Ok && *final(self) == *old(self),
            !old(self).converged ==> cycle_of::<T, U, A, M>(op, pc, old(self)@, final(self)@, r),
    {
        agmres1(self, op, pc)
    }

    /// The residual `b - lhs(x)` of the current iterate for the operator `lhs`.
    pub fn calc_resid<A>(&self, lhs: &A, b: &Vec<T>) -> (r: Vec<T>) where A: Fn(&Vec<T>) -> Vec<T>
        requires
            b.len() == self.x.len(),
            crate::operator::preserves_dimension(lhs, b.len() as nat),
        ensures
            exists|image: Vec<T>| #[trigger]
                lhs.ensures((&self.x,), image) && r@ == crate::vector::difference_spec::<T, U>(b@, image@),
    {
        let image = lhs(&self.x);
        difference::<T, U>(b, &image)
    }
}

/// The state, the rotated right-hand side and the outcome after the first
/// `k` of the vectors `images` were fed, one per step, to a cycle that began
/// in the state `pre` with the right-hand side `s`. A step that fails or
/// converges is the last one: what follows it changes nothing.
pub open spec fn run_steps<T: ComplexOrReal<U>, U: RealScalar>(
    pre: AGmresModel<T, U>,
    s: Seq<T>,
    images: Seq<Seq<T>>,
    k: nat,
) -> (AGmresModel<T, U>, Seq<T>, Result<bool, ArnoldiErr>)
    decreases k,
{
    if k == 0 {
        (pre, s, Ok(false))
    } else {
        let before = run_steps::<T, U>(pre, s, images, (k - 1) as nat);
        if before.2 == Ok::<bool, ArnoldiErr>(false) {
            advance_spec::<T, U>(before.0, before.1, images[k - 1])
        } else {
            before
        }
    }
}

/// The steps of a cycle were fed what the operators answered: step `j` was
/// reached without failure or convergence, `qs[j]` is the last basis vector
/// at that point, and `ws[j]` is a possible image of it under operator and
/// preconditioner.
pub open spec fn steps_follow<T: ComplexOrReal<U>, U: RealScalar, A: Fn(&Vec<T>) -> Vec<T>, M: Fn(&Vec<T>) -> Vec<T>>(
    op: &A,
    pc: Option<&M>,
    start: AGmresModel<T, U>,
    s0: Seq<T>,
    qs: Seq<Vec<T>>,
    ws: Seq<Vec<T>>,
) -> bool {
    &&& qs.len() == ws.len()
    &&& forall|j: nat|
        j < ws.len() ==> {
            let at = #[trigger] run_steps::<T, U>(start, s0, crate::vector::rows(ws), j);
            &&& at.2 == Ok::<bool, ArnoldiErr>(false)
            &&& qs[j as int]@ == at.0.arn.basis.last()
            &&& crate::operator::applied(op, pc, qs[j as int], ws[j as int])
        }
}

/// A cycle from `pre` to `post` with result `r`, during which the operators
/// were asked about the vectors `qs` and answered `ws`, and, where the
/// cycle ran its full length, gave `rv` as the residual of the corrected
/// iterate `xv`.
///
/// The cycle starts from the normalized residual and takes one step per
/// answer, at most `m` of them. A step that fails ends the cycle with the
/// failure, and one that converges ends it with success; either way the
/// state is the one that step left. After `m` steps without either, the
/// iterate is corrected from all equations of the cycle, the true residual
/// is taken in, and the restart length is adapted.
pub open spec fn cycle_trace<T: ComplexOrReal<U>, U: RealScalar, A: Fn(&Vec<T>) -> Vec<T>, M: Fn(&Vec<T>) -> Vec<T>>(
    op: &A,
    pc: Option<&M>,
    pre: AGmresModel<T, U>,
    qs: Seq<Vec<T>>,
    ws: Seq<Vec<T>>,
    xv: Vec<T>,
    rv: Vec<T>,
    post: AGmresModel<T, U>,
    r: Result<(), ArnoldiErr>,
) -> bool {
    let start = cycle_start::<T, U>(pre);
    let s0 = seq![T::from_real_spec(pre.beta)];
    let end = run_steps::<T, U>(start, s0, crate::vector::rows(ws), ws.len());
    &&& ws.len() <= pre.m
    &&& steps_follow::<T, U, A, M>(op, pc, start, s0, qs, ws)
    &&& match end.2 {
        Err(e) => r == Err::<(), ArnoldiErr>(e) && post == end.0,
        Ok(true) => r == Ok::<(), ArnoldiErr>(()) && post == end.0,
        Ok(false) => {
            let fixed = corrected::<T, U>(end.0, end.1);
            &&& ws.len() == pre.m
            &&& r == Ok::<(), ArnoldiErr>(())
            &&& xv@ == fixed.x
            &&& residual_of::<T, U, A, M>(op, pc, xv, pre.b, rv)
            &&& post == resynced::<T, U>(fixed, rv@, pre.beta)
        },
    }
}

/// One cycle of the solve leads from `pre` to `post` with result `r`.
///
/// A residual of zero norm ends the solve at once, with nothing else
/// changed. Otherwise the cycle is one that [`cycle_trace`] describes, for
/// some answers of the operators.
pub open spec fn cycle_of<T: ComplexOrReal<U>, U: RealScalar, A: Fn(&Vec<T>) -> Vec<T>, M: Fn(&Vec<T>) -> Vec<T>>(
    op: &A,
    pc: Option<&M>,
    pre: AGmresModel<T, U>,
    post: AGmresModel<T, U>,
    r: Result<(), ArnoldiErr>,
) -> bool {
    if pre.beta.is_zero_spec() {
        r == Ok::<(), ArnoldiErr>(()) && post == (AGmresModel { converged: true, ..pre })
    } else {
        exists|qs: Seq<Vec<T>>, ws: Seq<Vec<T>>, xv: Vec<T>, rv: Vec<T>|
            cycle_trace::<T, U, A, M>(op, pc, pre, qs, ws, xv, rv, post, r)
    }
}

/// Steps that were fed the same vectors lead to the same state.
pub proof fn lemma_run_steps_prefix<T: ComplexOrReal<U>, U: RealScalar>(
    pre: AGmresModel<T, U>,
    s: Seq<T>,
    a: Seq<Seq<T>>,
    b: Seq<Seq<T>>,
    k: nat,
)
    requires
        k <= a.len(),
        k <= b.len(),
        forall|j: int| 0 <= j < k ==> a[j] == b[j],
    ensures
        run_steps::<T, U>(pre, s, a, k) == run_steps::<T, U>(pre, s, b, k),
    decreases k,
{
    if k > 0 {
        lemma_run_steps_prefix::<T, U>(pre, s, a, b, (k - 1) as nat);
    }
}

/// Runs one cycle of the solve, unless it has converged: then nothing
/// changes. A cycle is up to `m` Arnoldi steps from the current residual,
/// the correction of the iterate, and the adaptation of the restart length.
pub fn agmres1<T, U, A, M>(ags: &mut AGmresState<T, U>, op: &A, pc: Option<&M>) -> (r: Result<
    (),
    ArnoldiErr,
>) where T: ComplexOrReal<U>, U: RealScalar, A: Fn(&Vec<T>) -> Vec<T>, M: Fn(&Vec<T>) -> Vec<T>
    requires
        old(ags).wf(),
        old(ags)@.initialized(),
        crate::operator::preserves_dimension(op, old(ags)@.b.len()),
        crate::operator::preconditioner_preserves_dimension(pc, old(ags)@.b.len()),
    ensures
        final(ags).wf(),
        final(ags)@.initialized(),
        old(ags).converged ==> r is Ok && *final(ags) == *old(ags),
        !old(ags).converged ==> cycle_of::<T, U, A, M>(op, pc, old(ags)@, final(ags)@, r),
{
    if ags.converged {
        return Ok(());
    }
    if ags.beta.is_zero() {
        ags.converged = true;
        return Ok(());
    }
    let ghost pre = ags@;
    let mut s = ags.begin_cycle();
    let ghost start = ags@;
    let ghost s0 = s@;
    let ghost mut qs: Seq<Vec<T>> = Seq::empty();
    let ghost mut ws: Seq<Vec<T>> = Seq::empty();
    let r1 = ags.beta;
    let mut i: usize = 0;
    while i < ags.m
        invariant
            i <= ags.m,
            ags@.running(),
            ags@.in_cycle(s@),
            ags@.m == pre.m,
            ags@.b == pre.b,
            ags@.beta == pre.beta,
            r1 == pre.beta,
            pre == old(ags)@,
            !old(ags).converged,
            !pre.beta.is_zero_spec(),
            start == cycle_start::<T, U>(pre),
            s0 == seq![T::from_real_spec(pre.beta)],
            ws.len() == i,
            steps_follow::<T, U, A, M>(op, pc, start, s0, qs, ws),
            run_steps::<T, U>(start, s0, crate::vector::rows(ws), i as nat) == (
                ags@,
                s@,
                Ok::<bool, ArnoldiErr>(false),
            ),
            crate::operator::preserves_dimension(op, pre.b.len()),
            crate::operator::preconditioner_preserves_dimension(pc, pre.b.len()),
        decreases ags.m - i,
    {
        let last = ags.arn.basis.len() - 1;
        assert(ags@.arn.basis[last as int].len() == ags@.arn.basis[0].len());
        let ghost q = ags.arn.basis@[last as int];
        let w = apply(op, pc, &ags.arn.basis[last]);
        let ghost ws2 = ws.push(w);
        let ghost qs2 = qs.push(q);
        let outcome = ags.advance(&mut s, w);
        proof {
            let a = crate::vector::rows(ws);
            let a2 = crate::vector::rows(ws2);
            assert forall|j: nat| j < ws2.len() implies ({
                let at = #[trigger] run_steps::<T, U>(start, s0, a2, j);
                &&& at.2 == Ok::<bool, ArnoldiErr>(false)
                &&& qs2[j as int]@ == at.0.arn.basis.last()
                &&& crate::operator::applied(op, pc, qs2[j as int], ws2[j as int])
            }) by {
                lemma_run_steps_prefix::<T, U>(start, s0, a, a2, j);
                if j < i {
                }
            }
            lemma_run_steps_prefix::<T, U>(start, s0, a, a2, i as nat);
            ws = ws2;
            qs = qs2;
        }
        match outcome {
            Err(e) => {
                proof {
                    assert(cycle_trace::<T, U, A, M>(op, pc, pre, qs, ws, w, w, ags@, Err(e)));
                }
                return Err(e);
            },
            Ok(done) => {
                if done {
                    proof {
                        assert(cycle_trace::<T, U, A, M>(op, pc, pre, qs, ws, w, w, ags@, Ok(())));
                    }
                    return Ok(());
                }
            },
        }
        i += 1;
    }
    ags.correct(&s);
    let ghost xv = ags.x;
    let image = op(&ags.x);
    let w = difference::<T, U>(&ags.b, &image);
    let r = precondition(pc, &w);
    let ghost rv = r;
    ags.resync(r, r1);
    proof {
        assert(cycle_trace::<T, U, A, M>(op, pc, pre, qs, ws, xv, rv, ags@, Ok(())));
    }
    Ok(())
}

/// A cycle keeps the problem and the invariant of the solve; in
/// particular the restart length stays between its bounds. A cycle that
/// fails leaves iterate, restart length and the flag of convergence alone.
pub proof fn lemma_cycle_keeps_invariant<T: ComplexOrReal<U>, U: RealScalar, A: Fn(&Vec<T>) -> Vec<T>, M: Fn(&Vec<T>) -> Vec<T>>(
    op: &A,
    pc: Option<&M>,
    pre: AGmresModel<T, U>,
    post: AGmresModel<T, U>,
    r: Result<(), ArnoldiErr>,
)
    requires
        pre.wf(),
        !pre.converged,
        cycle_of::<T, U, A, M>(op, pc, pre, post, r),
    ensures
        post.same_problem(pre),
        post.m_min <= post.m <= post.m_max,
        post.m == pre.m || post.m == shortened(pre.m, pre.m_min, pre.m_max, pre.m_step),
        r is Err ==> post.x == pre.x && post.m == pre.m && post.converged == pre.converged,
{
    if !pre.beta.is_zero_spec() {
        let (qs, ws, xv, rv) = choose|qs: Seq<Vec<T>>, ws: Seq<Vec<T>>, xv: Vec<T>, rv: Vec<T>|
            cycle_trace::<T, U, A, M>(op, pc, pre, qs, ws, xv, rv, post, r);
        let start = cycle_start::<T, U>(pre);
        let s0 = seq![T::from_real_spec(pre.beta)];
        lemma_run_steps_keep::<T, U>(start, s0, crate::vector::rows(ws), ws.len());
    }
}

/// Steps keep the problem, the restart length and the residual the cycle
/// began with; the flag of convergence is raised by a step that converges
/// and by no other, and the iterate changes in no other.
pub proof fn lemma_run_steps_keep<T: ComplexOrReal<U>, U: RealScalar>(
    pre: AGmresModel<T, U>,
    s: Seq<T>,
    images: Seq<Seq<T>>,
    k: nat,
)
    requires
        !pre.converged,
    ensures
        ({
            let end = run_steps::<T, U>(pre, s, images, k);
            &&& end.0.same_problem(pre)
            &&& end.0.m == pre.m
            &&& end.0.r == pre.r
            &&& end.0.beta == pre.beta
            &&& end.0.converged <==> end.2 == Ok::<bool, ArnoldiErr>(true)
            &&& !end.0.converged ==> end.0.x == pre.x
        }),
    decreases k,
{
    if k > 0 {
        lemma_run_steps_keep::<T, U>(pre, s, images, (k - 1) as nat);
    }
}

/// A whole solve from `start`, budgeted with `max_iter` cycles, that went
/// through the states `states` and ended in the state `end` with `r`.
///
/// The first state is `start`, and each state that has not converged is
/// followed by the one a successful cycle made of it. The solve ends in
/// the last of them when that has converged or the budget is spent. It
/// ends with a failure when the cycle after the last of them failed, and
/// then in the state that cycle left.
pub open spec fn solve_trace<T: ComplexOrReal<U>, U: RealScalar, A: Fn(&Vec<T>) -> Vec<T>, M: Fn(&Vec<T>) -> Vec<T>>(
    op: &A,
    pc: Option<&M>,
    start: AGmresModel<T, U>,
    max_iter: nat,
    states: Seq<AGmresModel<T, U>>,
    end: AGmresModel<T, U>,
    r: Result<(), ArnoldiErr>,
) -> bool {
    &&& states.len() > 0
    &&& states[0] == start
    &&& states.len() - 1 <= max_iter
    &&& forall|j: int|
        0 <= j < states.len() - 1 ==> !(#[trigger] states[j]).converged && cycle_of::<T, U, A, M>(
            op,
            pc,
            states[j],
            states[j + 1],
            Ok(()),
        )
    &&& match r {
        Ok(_) => end == states.last() && (end.converged || states.len() - 1 == max_iter),
        Err(e) => !states.last().converged && states.len() - 1 < max_iter && cycle_of::<T, U, A, M>(
            op,
            pc,
            states.last(),
            end,
            Err(e),
        ),
    }
}

/// Solves `op(x) = b` from the guess `x`, running at most `max_iter` cycles.
///
/// The state the solve ended in is returned in any case, with its iterate
/// and its diagnostics. Where the result is `Ok`, the state tells by its
/// flag whether the solve has converged or the cycles ran out. A basis
/// that could not be extended ends the solve with the reason; the state is
/// then the one the failed cycle left, whose iterate is that of the last
/// cycle that succeeded.
pub fn agmres<T, U, A, M>(
    op: &A,
    x: &Vec<T>,
    b: &Vec<T>,
    pc: Option<&M>,
    max_iter: usize,
    m_max: usize,
    m_min: usize,
    m_step: usize,
    cf: U,
    tol: U,
) -> (r: (AGmresState<T, U>, Result<(), ArnoldiErr>)) where
    T: ComplexOrReal<U>,
    U: RealScalar,
    A: Fn(&Vec<T>) -> Vec<T>,
    M: Fn(&Vec<T>) -> Vec<T>,

    requires
        m_min <= m_max,
        m_min <= b.len(),
        x.len() == b.len(),
        crate::operator::preserves_dimension(op, b.len() as nat),
        crate::operator::preconditioner_preserves_dimension(pc, b.len() as nat),
    ensures
        r.0.wf(),
        r.0@.initialized(),
        exists|mb: Vec<T>, r0: Vec<T>, states: Seq<AGmresModel<T, U>>|
            #![trigger crate::operator::preconditioned(pc, *b, mb), residual_of::<T, U, A, M>(op, pc, *x, b@, r0), states.len()]
            crate::operator::preconditioned(pc, *b, mb) && residual_of::<T, U, A, M>(op, pc, *x, b@, r0)
                && solve_trace::<T, U, A, M>(
                op,
                pc,
                seeded::<T, U>(
                    created::<T, U>(
                        b@.len(),
                        m_max as nat,
                        m_max as nat,
                        m_min as nat,
                        m_step as nat,
                        cf,
                        tol,
                    ),
                    x@,
                    b@,
                    mb@,
                    r0@,
                ),
                max_iter as nat,
                states,
                r.0@,
                r.1,
            ),
{
    let mut ags = AGmresState::new(op, x, b, pc, m_max, m_min, m_step, cf, tol);
    let ghost start = ags@;
    let ghost fresh = created::<T, U>(
        b@.len(),
        m_max as nat,
        m_max as nat,
        m_min as nat,
        m_step as nat,
        cf,
        tol,
    );
    let ghost (mb, r0) = choose|mb: Vec<T>, r0: Vec<T>|
        #![trigger crate::operator::preconditioned(pc, *b, mb), residual_of::<T, U, A, M>(op, pc, *x, b@, r0)]
        crate::operator::preconditioned(pc, *b, mb) && residual_of::<T, U, A, M>(op, pc, *x, b@, r0)
            && start == seeded::<T, U>(fresh, x@, b@, mb@, r0@);
    let ghost mut states: Seq<AGmresModel<T, U>> = seq![start];
    if ags.converged {
        return (ags, Ok(()));
    }
    let mut j: usize = 0;
    while j < max_iter
        invariant
            j <= max_iter,
            ags.wf(),
            ags@.initialized(),
            !ags.converged,
            ags@.b.len() == b.len(),
            states.len() == j + 1,
            states[0] == start,
            states.last() == ags@,
            forall|k: int|
                0 <= k < states.len() - 1 ==> !(#[trigger] states[k]).converged && cycle_of::<T, U, A, M>(
                    op,
                    pc,
                    states[k],
                    states[k + 1],
                    Ok(()),
                ),
            crate::operator::preconditioned(pc, *b, mb),
            residual_of::<T, U, A, M>(op, pc, *x, b@, r0),
            start == seeded::<T, U>(fresh, x@, b@, mb@, r0@),
            fresh == created::<T, U>(
                b@.len(),
                m_max as nat,
                m_max as nat,
                m_min as nat,
                m_step as nat,
                cf,
                tol,
            ),
            crate::operator::preserves_dimension(op, b.len() as nat),
            crate::operator::preconditioner_preserves_dimension(pc, b.len() as nat),
        decreases max_iter - j,
    {
        let ghost before = ags@;
        let outcome = agmres1(&mut ags, op, pc);
        proof {
            lemma_cycle_keeps_invariant::<T, U, A, M>(op, pc, before, ags@, outcome);
        }
        match outcome {
            Err(e) => {
                return (ags, Err(e));
            },
            Ok(_) => {},
        }
        proof {
            let grown = states.push(ags@);
            assert forall|k: int| 0 <= k < grown.len() - 1 implies !(#[trigger] grown[k]).converged
                && cycle_of::<T, U, A, M>(op, pc, grown[k], grown[k + 1], Ok(())) by {
                if k < states.len() - 1 {
                }
            }
            states = grown;
        }
        if ags.converged {
            return (ags, Ok(()));
        }
        j += 1;
    }
    (ags, Ok(()))
}

} // verus!
