use linear_solver::agmres::{agmres, AGmresState};
use linear_solver::arnoldi::{ArnoldiErr, ArnoldiSpace};
use linear_solver::givens::{apply_plane_rotation, generate_plane_rotation};
use linear_solver::scalar::{norm, ComplexOrReal, HasAbs, HasConj, RealScalar};
use linear_solver::vector::dot_conj;
use num_complex::Complex;

#[derive(Clone, Copy, Debug, PartialEq)]
struct Real(f64);

impl HasConj for Real {
    fn conj_spec(&self) -> Real {
        self.conj()
    }
    fn conj(&self) -> Real {
        *self
    }
}

impl HasAbs for Real {
    type Output = Real;
    fn abs_spec(&self) -> Real {
        self.abs()
    }
    fn abs(&self) -> Real {
        Real(self.0.abs())
    }
}

impl ComplexOrReal<Real> for Real {
    fn zero_spec() -> Real {
        Real::zero()
    }
    fn one_spec() -> Real {
        Real::one()
    }
    fn add_spec(self, rhs: Real) -> Real {
        self.add(rhs)
    }
    fn sub_spec(self, rhs: Real) -> Real {
        self.sub(rhs)
    }
    fn mul_spec(self, rhs: Real) -> Real {
        self.mul(rhs)
    }
    fn div_spec(self, rhs: Real) -> Real {
        self.div(rhs)
    }
    fn neg_spec(self) -> Real {
        self.neg()
    }
    fn sqrt_spec(self) -> Real {
        self.sqrt()
    }
    fn from_real_spec(x: Real) -> Real {
        x
    }
    fn zero() -> Real {
        Real(0.0)
    }
    fn one() -> Real {
        Real(1.0)
    }
    fn add(self, rhs: Real) -> Real {
        Real(self.0 + rhs.0)
    }
    fn sub(self, rhs: Real) -> Real {
        Real(self.0 - rhs.0)
    }
    fn mul(self, rhs: Real) -> Real {
        Real(self.0 * rhs.0)
    }
    fn div(self, rhs: Real) -> Real {
        Real(self.0 / rhs.0)
    }
    fn neg(self) -> Real {
        Real(-self.0)
    }
    fn sqrt(self) -> Real {
        Real(self.0.sqrt())
    }
    fn from_real(x: Real) -> Real {
        x
    }
}

impl RealScalar for Real {
    fn lt_spec(self, rhs: Real) -> bool {
        self.lt(rhs)
    }
    fn le_spec(self, rhs: Real) -> bool {
        self.le(rhs)
    }
    fn is_zero_spec(self) -> bool {
        self.is_zero()
    }
    fn is_finite_spec(self) -> bool {
        self.is_finite()
    }
    fn lt(self, rhs: Real) -> bool {
        self.0 < rhs.0
    }
    fn le(self, rhs: Real) -> bool {
        self.0 <= rhs.0
    }
    fn is_zero(self) -> bool {
        self.0 == 0.0
    }
    fn is_finite(self) -> bool {
        self.0.is_finite()
    }
}

fn reals(values: &[f64]) -> Vec<Real> {
    values.iter().map(|&v| Real(v)).collect()
}

fn floats(values: &[Real]) -> Vec<f64> {
    values.iter().map(|v| v.0).collect()
}

fn dense(rows: Vec<Vec<f64>>) -> impl Fn(&Vec<Real>) -> Vec<Real> {
    move |v: &Vec<Real>| {
        rows.iter()
            .map(|row| Real(row.iter().zip(v.iter()).map(|(a, x)| a * x.0).sum()))
            .collect()
    }
}

fn identity(v: &Vec<Real>) -> Vec<Real> {
    v.clone()
}

#[derive(Clone, Copy, Debug, PartialEq)]
struct Cplx(Complex<f64>);

fn c(re: f64, im: f64) -> Cplx {
    Cplx(Complex::new(re, im))
}

impl HasConj for Cplx {
    fn conj_spec(&self) -> Cplx {
        self.conj()
    }
    fn conj(&self) -> Cplx {
        Cplx(self.0.conj())
    }
}

impl HasAbs for Cplx {
    type Output = Real;
    fn abs_spec(&self) -> Real {
        self.abs()
    }
    fn abs(&self) -> Real {
        Real(self.0.norm())
    }
}

impl ComplexOrReal<Real> for Cplx {
    fn zero_spec() -> Cplx {
        Cplx::zero()
    }
    fn one_spec() -> Cplx {
        Cplx::one()
    }
    fn add_spec(self, rhs: Cplx) -> Cplx {
        self.add(rhs)
    }
    fn sub_spec(self, rhs: Cplx) -> Cplx {
        self.sub(rhs)
    }
    fn mul_spec(self, rhs: Cplx) -> Cplx {
        self.mul(rhs)
    }
    fn div_spec(self, rhs: Cplx) -> Cplx {
        self.div(rhs)
    }
    fn neg_spec(self) -> Cplx {
        self.neg()
    }
    fn sqrt_spec(self) -> Cplx {
        self.sqrt()
    }
    fn from_real_spec(x: Real) -> Cplx {
        Cplx::from_real(x)
    }
    fn zero() -> Cplx {
        c(0.0, 0.0)
    }
    fn one() -> Cplx {
        c(1.0, 0.0)
    }
    fn add(self, rhs: Cplx) -> Cplx {
        Cplx(self.0 + rhs.0)
    }
    fn sub(self, rhs: Cplx) -> Cplx {
        Cplx(self.0 - rhs.0)
    }
    fn mul(self, rhs: Cplx) -> Cplx {
        Cplx(self.0 * rhs.0)
    }
    fn div(self, rhs: Cplx) -> Cplx {
        Cplx(self.0 / rhs.0)
    }
    fn neg(self) -> Cplx {
        Cplx(-self.0)
    }
    fn sqrt(self) -> Cplx {
        Cplx(self.0.sqrt())
    }
    fn from_real(x: Real) -> Cplx {
        c(x.0, 0.0)
    }
}

type PlainC = fn(&Vec<Cplx>) -> Vec<Cplx>;

fn finished<S>(outcome: (S, Result<(), ArnoldiErr>)) -> S {
    assert_eq!(outcome.1, Ok(()));
    outcome.0
}


fn complex_diagonal(n: usize) -> impl Fn(&Vec<Cplx>) -> Vec<Cplx> {
    move |v: &Vec<Cplx>| {
        v.iter()
            .enumerate()
            .map(|(i, x)| Cplx(Complex::new(i as f64 + 1.0, 0.5 * (i as f64 + 1.0)) * x.0))
            .take(n)
            .collect()
    }
}

#[test]
fn complex_norm_and_inner_product() {
    let v = vec![c(3.0, 4.0), c(0.0, 12.0)];
    assert_eq!(norm::<Cplx, Real>(&v), Real(13.0));
    let q = vec![c(0.0, 1.0), c(1.0, 1.0)];
    assert_eq!(dot_conj::<Cplx, Real>(&q, &v), c(4.0 + 12.0, -3.0 + 12.0));
}

#[test]
fn complex_rotation_conjugates_the_first_row() {
    let (a, b) = apply_plane_rotation::<Cplx, Real>(c(1.0, 0.0), c(0.0, 1.0), c(0.0, 2.0), c(3.0, 1.0));
    assert_eq!(a, c(1.0, 1.0));
    assert_eq!(b, c(-5.0, -1.0));
}

#[test]
fn complex_rotation_zeroes_the_second_component() {
    for (dx, dy) in [(c(1.0, 2.0), c(0.5, -0.25)), (c(0.1, 0.0), c(3.0, 4.0)), (c(2.0, -1.0), c(0.0, 0.0))] {
        let (cs, sn) = generate_plane_rotation::<Cplx, Real>(dx, dy);
        let (_, b) = apply_plane_rotation::<Cplx, Real>(dx, dy, cs, sn);
        assert!(b.0.norm() < 1e-14);
    }
    assert_eq!(generate_plane_rotation::<Cplx, Real>(c(2.0, -1.0), c(0.0, 0.0)), (c(1.0, 0.0), c(0.0, 0.0)));
}

#[test]
fn complex_basis_is_orthonormal() {
    let n = 6;
    let a = complex_diagonal(n);
    let seed: Vec<Cplx> = (0..n).map(|i| c(1.0, i as f64 - 2.0)).collect();
    let mut arn = ArnoldiSpace::<Cplx, Real>::new(&seed);
    for _ in 0..4 {
        arn.iter(&a).unwrap();
    }
    for i in 0..5 {
        for j in 0..5 {
            let d = dot_conj::<Cplx, Real>(&arn.basis[i], &arn.basis[j]).0;
            let want = if i == j { 1.0 } else { 0.0 };
            assert!((d - Complex::new(want, 0.0)).norm() < 1e-10);
        }
    }
    for k in 0..4 {
        let image = a(&arn.basis[k]);
        for row in 0..n {
            let mut sum = Complex::new(0.0, 0.0);
            for j in 0..=k + 1 {
                sum += arn.hessenberg_columns[k][j].0 * arn.basis[j][row].0;
            }
            assert!((image[row].0 - sum).norm() < 1e-10);
        }
    }
}

#[test]
fn complex_diagonal_system_converges() {
    let n = 8;
    let a = complex_diagonal(n);
    let want: Vec<Cplx> = (0..n).map(|i| c(1.0, -(i as f64))).collect();
    let b = a(&want);
    let x0 = vec![c(10.0, 0.0); n];
    let st = finished(agmres::<Cplx, Real, _, PlainC>(&a, &x0, &b, None, 500, 4, 1, 1, Real(0.4), Real(1e-20)));
    assert!(st.converged);
    for (got, w) in st.x.iter().zip(&want) {
        assert!((got.0 - w.0).norm() < 1e-8);
    }
    let residual = st.calc_resid(&a, &b);
    assert!(norm::<Cplx, Real>(&residual).0 < 1e-8);
}

#[test]
fn complex_zero_right_hand_side_converges_at_once() {
    let n = 3;
    let a = complex_diagonal(n);
    let zero = vec![c(0.0, 0.0); n];
    let st = AGmresState::<Cplx, Real>::new::<_, PlainC>(&a, &zero, &zero, None, 2, 1, 1, Real(0.4), Real(1e-20));
    assert!(st.converged);
    assert_eq!(st.x, zero);
}

#[test]
fn complex_run_on_real_data_matches_the_real_run() {
    let n = 8;
    let real_op = move |v: &Vec<Real>| -> Vec<Real> {
        v.iter().enumerate().map(|(i, x)| Real((i as f64 + 1.0) * x.0)).take(n).collect()
    };
    let complex_op = move |v: &Vec<Cplx>| -> Vec<Cplx> {
        v.iter().enumerate().map(|(i, x)| Cplx(x.0 * (i as f64 + 1.0))).take(n).collect()
    };
    let want: Vec<f64> = (0..n).map(|i| 1.0 + 0.5 * i as f64).collect();
    let b_real = real_op(&reals(&want));
    let b_complex: Vec<Cplx> = b_real.iter().map(|x| c(x.0, 0.0)).collect();
    let real = finished(agmres::<Real, Real, _, fn(&Vec<Real>) -> Vec<Real>>(
        &real_op,
        &reals(&vec![0.0; n]),
        &b_real,
        None,
        500,
        4,
        1,
        1,
        Real(0.4),
        Real(1e-20),
    ));
    let complex = finished(agmres::<Cplx, Real, _, PlainC>(
        &complex_op,
        &vec![c(0.0, 0.0); n],
        &b_complex,
        None,
        500,
        4,
        1,
        1,
        Real(0.4),
        Real(1e-20),
    ));
    assert!(real.converged && complex.converged);
    for ((r, z), w) in real.x.iter().zip(&complex.x).zip(&want) {
        assert!((r.0 - w).abs() < 1e-8);
        assert!((z.0.re - r.0).abs() < 1e-8);
        assert!(z.0.im.abs() < 1e-8);
    }
    assert!((real.beta.0 - complex.beta.0).abs() < 1e-8);
}
