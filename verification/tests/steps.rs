use linear_solver::agmres::AGmresState;
use linear_solver::arnoldi::ArnoldiErr;
use linear_solver::givens::{apply_plane_rotation, generate_plane_rotation, rotate_column, rotate_pair};
use linear_solver::least_squares::{update, update2};
use linear_solver::operator::{apply, precondition};
use linear_solver::scalar::{ComplexOrReal, HasAbs, HasConj, RealScalar};

#[derive(Clone, Copy, Debug, PartialEq)]
struct Real(f64);

impl HasConj for Real {
    fn conj_spec(&self) -> Real {
        self.conj()
    }
    fn conj(&self) -> Real {
        *self
    }
}

impl HasAbs for Real {
    type Output = Real;
    fn abs_spec(&self) -> Real {
        self.abs()
    }
    fn abs(&self) -> Real {
        Real(self.0.abs())
    }
}

impl ComplexOrReal<Real> for Real {
    fn zero_spec() -> Real {
        Real::zero()
    }
    fn one_spec() -> Real {
        Real::one()
    }
    fn add_spec(self, rhs: Real) -> Real {
        self.add(rhs)
    }
    fn sub_spec(self, rhs: Real) -> Real {
        self.sub(rhs)
    }
    fn mul_spec(self, rhs: Real) -> Real {
        self.mul(rhs)
    }
    fn div_spec(self, rhs: Real) -> Real {
        self.div(rhs)
    }
    fn neg_spec(self) -> Real {
        self.neg()
    }
    fn sqrt_spec(self) -> Real {
        self.sqrt()
    }
    fn from_real_spec(x: Real) -> Real {
        x
    }
    fn zero() -> Real {
        Real(0.0)
    }
    fn one() -> Real {
        Real(1.0)
    }
    fn add(self, rhs: Real) -> Real {
        Real(self.0 + rhs.0)
    }
    fn sub(self, rhs: Real) -> Real {
        Real(self.0 - rhs.0)
    }
    fn mul(self, rhs: Real) -> Real {
        Real(self.0 * rhs.0)
    }
    fn div(self, rhs: Real) -> Real {
        Real(self.0 / rhs.0)
    }
    fn neg(self) -> Real {
        Real(-self.0)
    }
    fn sqrt(self) -> Real {
        Real(self.0.sqrt())
    }
    fn from_real(x: Real) -> Real {
        x
    }
}

impl RealScalar for Real {
    fn lt_spec(self, rhs: Real) -> bool {
        self.lt(rhs)
    }
    fn le_spec(self, rhs: Real) -> bool {
        self.le(rhs)
    }
    fn is_zero_spec(self) -> bool {
        self.is_zero()
    }
    fn is_finite_spec(self) -> bool {
        self.is_finite()
    }
    fn lt(self, rhs: Real) -> bool {
        self.0 < rhs.0
    }
    fn le(self, rhs: Real) -> bool {
        self.0 <= rhs.0
    }
    fn is_zero(self) -> bool {
        self.0 == 0.0
    }
    fn is_finite(self) -> bool {
        self.0.is_finite()
    }
}

fn reals(values: &[f64]) -> Vec<Real> {
    values.iter().map(|&v| Real(v)).collect()
}

fn floats(values: &[Real]) -> Vec<f64> {
    values.iter().map(|v| v.0).collect()
}

fn dense(rows: Vec<Vec<f64>>) -> impl Fn(&Vec<Real>) -> Vec<Real> {
    move |v: &Vec<Real>| {
        rows.iter()
            .map(|row| Real(row.iter().zip(v.iter()).map(|(a, x)| a * x.0).sum()))
            .collect()
    }
}

fn identity(v: &Vec<Real>) -> Vec<Real> {
    v.clone()
}

type Plain = fn(&Vec<Real>) -> Vec<Real>;

fn double(v: &Vec<Real>) -> Vec<Real> {
    v.iter().map(|x| Real(2.0 * x.0)).collect()
}

fn add_one(v: &Vec<Real>) -> Vec<Real> {
    v.iter().map(|x| Real(x.0 + 1.0)).collect()
}

#[test]
fn rotation_combines_both_components() {
    let (a, b) = apply_plane_rotation::<Real, Real>(Real(1.0), Real(2.0), Real(3.0), Real(4.0));
    assert_eq!(a, Real(11.0));
    assert_eq!(b, Real(2.0));
}

#[test]
fn zero_second_operand_gives_the_identity_rotation() {
    assert_eq!(generate_plane_rotation::<Real, Real>(Real(5.0), Real(0.0)), (Real(1.0), Real(0.0)));
    assert_eq!(generate_plane_rotation::<Real, Real>(Real(0.0), Real(-0.0)), (Real(1.0), Real(0.0)));
}

#[test]
fn larger_second_operand_divides_the_first_by_it() {
    let (cs, sn) = generate_plane_rotation::<Real, Real>(Real(3.0), Real(4.0));
    let t = 3.0f64 / 4.0;
    let want_sn = 1.0 / (1.0 + t * t).sqrt();
    assert_eq!(sn, Real(want_sn));
    assert_eq!(cs, Real(t * want_sn));
    assert!((cs.0 - 0.6).abs() < 1e-15 && (sn.0 - 0.8).abs() < 1e-15);
    let (cs, sn) = generate_plane_rotation::<Real, Real>(Real(0.0), Real(2.0));
    assert_eq!((cs, sn), (Real(0.0), Real(1.0)));
}

#[test]
fn larger_first_operand_divides_the_second_by_it() {
    let (cs, sn) = generate_plane_rotation::<Real, Real>(Real(4.0), Real(-3.0));
    let t = -3.0f64 / 4.0;
    let want_cs = 1.0 / (1.0 + t * t).sqrt();
    assert_eq!(cs, Real(want_cs));
    assert_eq!(sn, Real(t * want_cs));
    assert!((cs.0 - 0.8).abs() < 1e-15 && (sn.0 + 0.6).abs() < 1e-15);
    let (cs, sn) = generate_plane_rotation::<Real, Real>(Real(2.0), Real(2.0));
    assert_eq!(cs, sn);
}

#[test]
fn generated_rotation_zeroes_the_second_component() {
    for (dx, dy) in [(3.0, 4.0), (4.0, 3.0), (-1.5, 0.25), (1e-3, -7.0), (2.0, 0.0)] {
        let (cs, sn) = generate_plane_rotation::<Real, Real>(Real(dx), Real(dy));
        let (a, b) = apply_plane_rotation::<Real, Real>(Real(dx), Real(dy), cs, sn);
        assert!(b.0.abs() < 1e-15);
        assert!((a.0.abs() - f64::hypot(dx, dy)).abs() < 1e-12);
        assert!((cs.0 * cs.0 + sn.0 * sn.0 - 1.0).abs() < 1e-15);
    }
}

#[test]
fn column_goes_through_all_earlier_rotations() {
    let mut col = reals(&[1., 2., 3., 4.]);
    rotate_column::<Real, Real>(&mut col, &reals(&[0., 1.]), &reals(&[1., 0.]));
    assert_eq!(floats(&col), vec![2., -1., 3., 4.]);
    let mut col = reals(&[1., 2., 3., 4.]);
    rotate_column::<Real, Real>(&mut col, &reals(&[0., 0.]), &reals(&[1., 1.]));
    assert_eq!(floats(&col), vec![2., 3., 1., 4.]);
    let mut short = reals(&[5., 6.]);
    rotate_column::<Real, Real>(&mut short, &reals(&[]), &reals(&[]));
    assert_eq!(floats(&short), vec![5., 6.]);
}

#[test]
fn pair_is_rotated_in_place() {
    let mut v = reals(&[9., 1., 2., 9.]);
    rotate_pair::<Real, Real>(&mut v, 1, Real(3.0), Real(4.0));
    assert_eq!(floats(&v), vec![9., 11., 2., 9.]);
}

#[test]
fn back_substitution_corrects_the_iterate() {
    let columns = vec![reals(&[2., 9.]), reals(&[1., 4., 9.])];
    let s = reals(&[4., 8., 9.]);
    let basis = vec![reals(&[1., 0., 0.]), reals(&[0., 1., 0.]), reals(&[0., 0., 1.])];
    let mut x = reals(&[10., 20., 30.]);
    update2::<Real, Real>(&mut x, 1, &columns, &s, &basis);
    assert_eq!(floats(&x), vec![11., 22., 30.]);
    let mut x = reals(&[10., 20., 30.]);
    update2::<Real, Real>(&mut x, 0, &columns, &s, &basis);
    assert_eq!(floats(&x), vec![12., 20., 30.]);
}

#[test]
fn back_substitution_on_three_equations() {
    let columns = vec![reals(&[1., 0.]), reals(&[2., 1., 0.]), reals(&[3., 4., 2., 0.])];
    let s = reals(&[14., 11., 6., 0.]);
    let basis = vec![reals(&[1., 1.]), reals(&[0., 1.]), reals(&[2., 0.])];
    let mut x = reals(&[0., 0.]);
    update2::<Real, Real>(&mut x, 2, &columns, &s, &basis);
    assert_eq!(floats(&x), vec![7. + 3. * 2., 7. - 1.]);
}

#[test]
fn operator_then_preconditioner() {
    let v = reals(&[1., 2.]);
    assert_eq!(floats(&apply::<Real, Plain, Plain>(&(double as Plain), Some(&(add_one as Plain)), &v)), vec![3., 5.]);
    assert_eq!(floats(&apply::<Real, Plain, Plain>(&(add_one as Plain), Some(&(double as Plain)), &v)), vec![4., 6.]);
    assert_eq!(floats(&apply::<Real, Plain, Plain>(&(double as Plain), None, &v)), vec![2., 4.]);
    assert_eq!(floats(&precondition::<Real, Plain>(None, &v)), vec![1., 2.]);
    assert_eq!(floats(&precondition::<Real, Plain>(Some(&(double as Plain)), &v)), vec![2., 4.]);
}

fn fresh(m: usize, m_max: usize, m_min: usize, m_step: usize) -> AGmresState<Real, Real> {
    AGmresState::<Real, Real>::create(10, m, m_max, m_min, m_step, Real(0.4), Real(1e-8))
}

#[test]
fn slow_cycle_shortens_by_the_step() {
    let mut st = fresh(6, 8, 2, 3);
    st.resync(reals(&[3., 0., 0., 0., 0., 0., 0., 0., 0., 4.]), Real(10.0));
    assert_eq!(st.beta, Real(5.0));
    assert_eq!(st.m, 3);
    assert!(!st.converged);
    assert_eq!(floats(&st.r), vec![3., 0., 0., 0., 0., 0., 0., 0., 0., 4.]);
}

#[test]
fn shortening_down_to_the_minimum_is_allowed() {
    let mut st = fresh(5, 8, 2, 3);
    st.resync(reals(&[5., 0., 0., 0., 0., 0., 0., 0., 0., 0.]), Real(10.0));
    assert_eq!(st.m, 2);
}

#[test]
fn shortening_below_the_minimum_resets_to_the_maximum() {
    let mut st = fresh(4, 8, 2, 3);
    st.resync(reals(&[5., 0., 0., 0., 0., 0., 0., 0., 0., 0.]), Real(10.0));
    assert_eq!(st.m, 8);
    let mut st = fresh(2, 8, 2, 3);
    st.resync(reals(&[5., 0., 0., 0., 0., 0., 0., 0., 0., 0.]), Real(10.0));
    assert_eq!(st.m, 8);
}

#[test]
fn fast_cycle_keeps_the_restart_length() {
    let mut st = fresh(6, 8, 2, 3);
    st.resync(reals(&[4., 0., 0., 0., 0., 0., 0., 0., 0., 0.]), Real(10.0));
    assert_eq!(st.beta, Real(4.0));
    assert_eq!(st.m, 6);
    assert!(!st.converged);
    let mut st = fresh(6, 8, 2, 3);
    st.resync(reals(&[3., 0., 0., 0., 0., 0., 0., 0., 0., 0.]), Real(10.0));
    assert_eq!(st.m, 6);
}

#[test]
fn small_true_residual_ends_the_solve() {
    let mut st = fresh(6, 8, 2, 3);
    st.resync(reals(&[5e-5, 0., 0., 0., 0., 0., 0., 0., 0., 0.]), Real(1e-5));
    assert!(st.converged);
    assert_eq!(st.m, 6);
    assert_eq!(st.beta, Real(5e-5));
}

#[test]
fn seeding_scales_the_first_residual() {
    let mut st = AGmresState::<Real, Real>::create(2, 1, 2, 1, 1, Real(0.4), Real(0.25));
    st.seed(&reals(&[1., 2.]), &reals(&[7., 8.]), &reals(&[6., 8.]), reals(&[3., 4.]));
    assert_eq!(floats(&st.x), vec![1., 2.]);
    assert_eq!(floats(&st.b), vec![7., 8.]);
    assert_eq!(floats(&st.r), vec![3., 4.]);
    assert_eq!(st.beta, Real(5.0));
    assert_eq!(st.resid, Real(0.5));
    assert!(st.converged);
    let mut st = AGmresState::<Real, Real>::create(2, 1, 2, 1, 1, Real(0.4), Real(0.24));
    st.seed(&reals(&[1., 2.]), &reals(&[7., 8.]), &reals(&[6., 8.]), reals(&[3., 4.]));
    assert_eq!(st.resid, Real(0.5));
    assert!(!st.converged);
}

#[test]
fn zero_scale_counts_as_one() {
    let mut st = AGmresState::<Real, Real>::create(2, 1, 2, 1, 1, Real(0.4), Real(1e-8));
    st.seed(&reals(&[1., 2.]), &reals(&[0., 0.]), &reals(&[0., 0.]), reals(&[3., 4.]));
    assert_eq!(st.beta, Real(5.0));
    assert_eq!(st.resid, Real(5.0));
    assert!(!st.converged);
}

#[test]
fn residual_estimate_never_grows_within_a_cycle() {
    let n = 12;
    let a = move |v: &Vec<Real>| -> Vec<Real> {
        (0..n)
            .map(|i| {
                let mut sum = (i as f64 + 1.0) * v[i].0;
                if i + 1 < n {
                    sum += 0.5 * v[i + 1].0;
                }
                if i > 0 {
                    sum -= 0.25 * v[i - 1].0;
                }
                Real(sum)
            })
            .collect()
    };
    let b: Vec<Real> = (0..n).map(|i| Real(1.0 + i as f64)).collect();
    let x0 = reals(&vec![0.0; n]);
    let mut st = AGmresState::<Real, Real>::new::<_, Plain>(&a, &x0, &b, None, 10, 1, 1, Real(0.4), Real(1e-30));
    let mut s = st.begin_cycle();
    assert_eq!(floats(&s), vec![st.beta.0]);
    assert_eq!(st.arn.basis.len(), 1);
    let mut last = st.beta.0;
    for step in 0..10 {
        let image = a(&st.arn.basis[step]);
        assert_eq!(st.advance(&mut s, image), Ok(false));
        assert_eq!(s.len(), step + 2);
        assert_eq!(st.cs.len(), step + 1);
        assert_eq!(st.sn.len(), step + 1);
        assert_eq!(st.resid.0, s[step + 1].0.abs());
        assert!(st.resid.0 <= last * (1.0 + 1e-12));
        last = st.resid.0;
    }
    assert!(last < st.beta.0);
    st.correct(&s);
    let residual = st.calc_resid(&a, &b);
    let true_norm = residual.iter().map(|x| x.0 * x.0).sum::<f64>().sqrt();
    assert!((true_norm - last).abs() < 1e-9);
}

#[test]
fn step_that_converges_corrects_the_iterate() {
    let a = |v: &Vec<Real>| -> Vec<Real> { vec![Real(2.0 * v[0].0 + v[1].0), Real(v[1].0), Real(4.0 * v[2].0)] };
    let b = reals(&[4., 0., 0.]);
    let x0 = reals(&[0., 0., 0.]);
    let mut st = AGmresState::<Real, Real>::new::<_, Plain>(&a, &x0, &b, None, 2, 1, 1, Real(0.4), Real(1e-8));
    assert_eq!(st.beta, Real(4.0));
    assert_eq!(st.resid, Real(1.0));
    let mut s = st.begin_cycle();
    assert_eq!(floats(&st.arn.basis[0]), vec![1., 0., 0.]);
    let r = st.advance(&mut s, reals(&[2., 0., 1e-9]));
    assert_eq!(r, Ok(true));
    assert!(st.converged);
    assert!((st.x[0].0 - 2.0).abs() < 1e-12);
    assert_eq!(st.x[1].0, 0.0);
    assert!(st.resid.0 < 1e-4);
}

#[test]
fn step_that_fails_changes_nothing() {
    let a = |v: &Vec<Real>| -> Vec<Real> { v.clone() };
    let b = reals(&[4., 0., 0.]);
    let x0 = reals(&[0., 0., 0.]);
    let mut st = AGmresState::<Real, Real>::new::<_, Plain>(&a, &x0, &b, None, 2, 1, 1, Real(0.4), Real(1e-8));
    let mut s = st.begin_cycle();
    let r = st.advance(&mut s, reals(&[1., 0., 0.]));
    assert_eq!(r, Err(ArnoldiErr::HMM1Zero));
    assert_eq!(floats(&s), vec![4.0]);
    assert!(st.cs.is_empty() && st.sn.is_empty());
    assert_eq!(st.arn.basis.len(), 1);
    assert!(st.arn.hessenberg_columns.is_empty());
    assert_eq!(floats(&st.x), vec![0., 0., 0.]);
    assert!(!st.converged);
}

#[test]
fn correction_without_a_step_changes_nothing() {
    let a = |v: &Vec<Real>| -> Vec<Real> { v.iter().map(|x| Real(3.0 * x.0)).collect() };
    let b = reals(&[3., 6.]);
    let x0 = reals(&[0.5, 0.5]);
    let mut st = AGmresState::<Real, Real>::new::<_, Plain>(&a, &x0, &b, None, 1, 0, 1, Real(0.4), Real(1e-8));
    let s = st.begin_cycle();
    st.correct(&s);
    assert_eq!(floats(&st.x), vec![0.5, 0.5]);
    assert_eq!(floats(&st.calc_resid(&a, &b)), vec![1.5, 4.5]);
}

#[test]
fn back_substitution_reads_a_matrix_given_by_rows() {
    let h = vec![reals(&[2., 1., 7.]), reals(&[0., 4., 7.]), reals(&[0., 0., 7.])];
    let s = reals(&[4., 8., 9.]);
    let basis = vec![reals(&[1., 0., 0.]), reals(&[0., 1., 0.]), reals(&[0., 0., 1.])];
    let mut x = reals(&[10., 20., 30.]);
    update::<Real, Real>(&mut x, 1, &h, &s, &basis);
    assert_eq!(floats(&x), vec![11., 22., 30.]);
    let mut by_columns = reals(&[10., 20., 30.]);
    update2::<Real, Real>(&mut by_columns, 1, &vec![reals(&[2., 0.]), reals(&[1., 4., 0.])], &s, &basis);
    assert_eq!(floats(&by_columns), floats(&x));
}
