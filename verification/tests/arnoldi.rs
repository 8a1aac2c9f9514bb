use linear_solver::arnoldi::{ArnoldiErr, ArnoldiSpace};
use linear_solver::scalar::{norm, ComplexOrReal, HasAbs, HasConj, RealScalar};
use linear_solver::vector::{
    add_scaled, all_finite, difference, div_all, dot_conj, duplicate, scaled, sub_scaled, zeros,
};

#[derive(Clone, Copy, Debug, PartialEq)]
struct Real(f64);

impl HasConj for Real {
    fn conj_spec(&self) -> Real {
        self.conj()
    }
    fn conj(&self) -> Real {
        *self
    }
}

impl HasAbs for Real {
    type Output = Real;
    fn abs_spec(&self) -> Real {
        self.abs()
    }
    fn abs(&self) -> Real {
        Real(self.0.abs())
    }
}

impl ComplexOrReal<Real> for Real {
    fn zero_spec() -> Real {
        Real::zero()
    }
    fn one_spec() -> Real {
        Real::one()
    }
    fn add_spec(self, rhs: Real) -> Real {
        self.add(rhs)
    }
    fn sub_spec(self, rhs: Real) -> Real {
        self.sub(rhs)
    }
    fn mul_spec(self, rhs: Real) -> Real {
        self.mul(rhs)
    }
    fn div_spec(self, rhs: Real) -> Real {
        self.div(rhs)
    }
    fn neg_spec(self) -> Real {
        self.neg()
    }
    fn sqrt_spec(self) -> Real {
        self.sqrt()
    }
    fn from_real_spec(x: Real) -> Real {
        x
    }
    fn zero() -> Real {
        Real(0.0)
    }
    fn one() -> Real {
        Real(1.0)
    }
    fn add(self, rhs: Real) -> Real {
        Real(self.0 + rhs.0)
    }
    fn sub(self, rhs: Real) -> Real {
        Real(self.0 - rhs.0)
    }
    fn mul(self, rhs: Real) -> Real {
        Real(self.0 * rhs.0)
    }
    fn div(self, rhs: Real) -> Real {
        Real(self.0 / rhs.0)
    }
    fn neg(self) -> Real {
        Real(-self.0)
    }
    fn sqrt(self) -> Real {
        Real(self.0.sqrt())
    }
    fn from_real(x: Real) -> Real {
        x
    }
}

impl RealScalar for Real {
    fn lt_spec(self, rhs: Real) -> bool {
        self.lt(rhs)
    }
    fn le_spec(self, rhs: Real) -> bool {
        self.le(rhs)
    }
    fn is_zero_spec(self) -> bool {
        self.is_zero()
    }
    fn is_finite_spec(self) -> bool {
        self.is_finite()
    }
    fn lt(self, rhs: Real) -> bool {
        self.0 < rhs.0
    }
    fn le(self, rhs: Real) -> bool {
        self.0 <= rhs.0
    }
    fn is_zero(self) -> bool {
        self.0 == 0.0
    }
    fn is_finite(self) -> bool {
        self.0.is_finite()
    }
}

fn reals(values: &[f64]) -> Vec<Real> {
    values.iter().map(|&v| Real(v)).collect()
}

fn floats(values: &[Real]) -> Vec<f64> {
    values.iter().map(|v| v.0).collect()
}

fn dense(rows: Vec<Vec<f64>>) -> impl Fn(&Vec<Real>) -> Vec<Real> {
    move |v: &Vec<Real>| {
        rows.iter()
            .map(|row| Real(row.iter().zip(v.iter()).map(|(a, x)| a * x.0).sum()))
            .collect()
    }
}

fn identity(v: &Vec<Real>) -> Vec<Real> {
    v.clone()
}

fn close(a: &[Real], b: &[f64]) -> bool {
    a.len() == b.len() && a.iter().zip(b).all(|(x, y)| (x.0 - y).abs() < 1e-12)
}

fn matrix(rows: &[Vec<Real>]) -> Vec<Vec<f64>> {
    rows.iter().map(|r| floats(r)).collect()
}

fn inner(a: &[Real], b: &[Real]) -> f64 {
    a.iter().zip(b).map(|(x, y)| x.0 * y.0).sum()
}

fn banded(n: usize) -> impl Fn(&Vec<Real>) -> Vec<Real> {
    let rows: Vec<Vec<f64>> = (0..n)
        .map(|i| {
            (0..n)
                .map(|j| {
                    if i == j {
                        1.0 + i as f64
                    } else if i + 1 == j {
                        0.5
                    } else if j + 1 == i {
                        -0.25
                    } else {
                        0.0
                    }
                })
                .collect()
        })
        .collect();
    dense(rows)
}

#[test]
fn norm_is_the_root_of_the_sum_of_squares() {
    assert_eq!(norm::<Real, Real>(&reals(&[3., -4.])), Real(5.0));
    assert_eq!(norm::<Real, Real>(&reals(&[])), Real(0.0));
    assert_eq!(norm::<Real, Real>(&reals(&[2., 3., 6.])), Real(7.0));
}

#[test]
fn elementwise_operations_give_exact_values() {
    let v = reals(&[1., 2., 3.]);
    let q = reals(&[4., 5., 6.]);
    assert_eq!(dot_conj::<Real, Real>(&q, &v), Real(32.0));
    assert_eq!(floats(&sub_scaled::<Real, Real>(&v, &q, Real(2.0))), vec![-7., -8., -9.]);
    assert_eq!(floats(&add_scaled::<Real, Real>(&v, &q, Real(2.0))), vec![9., 12., 15.]);
    assert_eq!(floats(&div_all::<Real, Real>(&q, Real(2.0))), vec![2., 2.5, 3.]);
    assert_eq!(floats(&scaled::<Real, Real>(&q, Real(0.5))), vec![2., 2.5, 3.]);
    assert_eq!(floats(&difference::<Real, Real>(&q, &v)), vec![3., 3., 3.]);
    assert_eq!(floats(&zeros::<Real, Real>(3)), vec![0., 0., 0.]);
    assert_eq!(floats(&duplicate(&v)), vec![1., 2., 3.]);
    assert!(zeros::<Real, Real>(0).is_empty());
}

#[test]
fn finiteness_is_asked_of_every_entry() {
    assert!(all_finite::<Real, Real>(&reals(&[1., -2., 0.])));
    assert!(all_finite::<Real, Real>(&reals(&[])));
    assert!(!all_finite::<Real, Real>(&reals(&[1., f64::NAN])));
    assert!(!all_finite::<Real, Real>(&reals(&[f64::INFINITY, 1.])));
    assert!(!all_finite::<Real, Real>(&reals(&[1., f64::NEG_INFINITY, 2.])));
}

#[test]
fn seed_is_normalized() {
    let arn = ArnoldiSpace::<Real, Real>::new(&reals(&[3., 4.]));
    assert_eq!(arn.basis.len(), 1);
    assert!(close(&arn.basis[0], &[0.6, 0.8]));
    assert!(arn.hessenberg_columns.is_empty());
}

#[test]
fn empty_space_has_nothing() {
    let arn = ArnoldiSpace::<Real, Real>::empty();
    assert!(arn.basis.is_empty());
    assert!(arn.hessenberg_columns.is_empty());
    assert!(arn.get_H().is_empty());
}

#[test]
fn reset_discards_earlier_steps() {
    let a = dense(vec![vec![2., 0.], vec![0., 1.]]);
    let mut arn = ArnoldiSpace::<Real, Real>::new(&reals(&[3., 4.]));
    arn.iter(&a).unwrap();
    assert_eq!(arn.basis.len(), 2);
    arn.reset(&reals(&[0., 5., 0.]));
    assert_eq!(arn.basis.len(), 1);
    assert_eq!(floats(&arn.basis[0]), vec![0., 1., 0.]);
    assert!(arn.hessenberg_columns.is_empty());
}

#[test]
fn one_step_on_a_small_diagonal_matrix() {
    let a = dense(vec![vec![2., 0.], vec![0., 1.]]);
    let mut arn = ArnoldiSpace::<Real, Real>::new(&reals(&[3., 4.]));
    assert_eq!(arn.iter(&a), Ok(()));
    assert_eq!(arn.basis.len(), 2);
    assert_eq!(arn.hessenberg_columns.len(), 1);
    assert!(close(&arn.hessenberg_columns[0], &[1.36, 0.48]));
    assert!(close(&arn.basis[1], &[0.8, -0.6]));
}

#[test]
fn extending_by_a_given_image_matches_a_step() {
    let a = dense(vec![vec![2., 0.], vec![0., 1.]]);
    let mut stepped = ArnoldiSpace::<Real, Real>::new(&reals(&[3., 4.]));
    stepped.iter(&a).unwrap();
    let mut fed = ArnoldiSpace::<Real, Real>::new(&reals(&[3., 4.]));
    let image = a(&fed.basis[0]);
    assert_eq!(fed.extend(image), Ok(()));
    assert_eq!(matrix(&fed.basis), matrix(&stepped.basis));
    assert_eq!(matrix(&fed.hessenberg_columns), matrix(&stepped.hessenberg_columns));
}

#[test]
fn full_basis_refuses_another_step() {
    let a = dense(vec![vec![2., 0.], vec![0., 1.]]);
    let mut arn = ArnoldiSpace::<Real, Real>::new(&reals(&[3., 4.]));
    arn.iter(&a).unwrap();
    let basis = matrix(&arn.basis);
    let columns = matrix(&arn.hessenberg_columns);
    assert_eq!(arn.iter(&a), Err(ArnoldiErr::NoMoreBase));
    assert_eq!(matrix(&arn.basis), basis);
    assert_eq!(matrix(&arn.hessenberg_columns), columns);
    let mut single = ArnoldiSpace::<Real, Real>::new(&reals(&[7.]));
    assert_eq!(single.iter(&(identity as fn(&Vec<Real>) -> Vec<Real>)), Err(ArnoldiErr::NoMoreBase));
}

#[test]
fn vanishing_remainder_is_a_breakdown() {
    let mut arn = ArnoldiSpace::<Real, Real>::new(&reals(&[2., 0., 0.]));
    assert_eq!(arn.iter(&(identity as fn(&Vec<Real>) -> Vec<Real>)), Err(ArnoldiErr::HMM1Zero));
    assert_eq!(arn.basis.len(), 1);
    assert_eq!(floats(&arn.basis[0]), vec![1., 0., 0.]);
    assert!(arn.hessenberg_columns.is_empty());
}

#[test]
fn error_messages() {
    assert_eq!(ArnoldiErr::HMM1Zero.message(), "H(m, m+1)=0");
    assert_eq!(ArnoldiErr::NoMoreBase.message(), "No more base");
}

#[test]
fn basis_stays_orthonormal() {
    let n = 8;
    let a = banded(n);
    let seed: Vec<Real> = (0..n).map(|i| Real(1.0 + (i as f64) * 0.5)).collect();
    let mut arn = ArnoldiSpace::<Real, Real>::new(&seed);
    for step in 0..6 {
        arn.iter(&a).unwrap();
        assert_eq!(arn.basis.len(), step + 2);
        assert_eq!(arn.hessenberg_columns.len(), step + 1);
        assert_eq!(arn.hessenberg_columns[step].len(), step + 2);
        for i in 0..arn.basis.len() {
            for j in 0..arn.basis.len() {
                let want = if i == j { 1.0 } else { 0.0 };
                assert!((inner(&arn.basis[i], &arn.basis[j]) - want).abs() < 1e-10);
            }
        }
    }
}

#[test]
fn columns_satisfy_the_hessenberg_relation() {
    let n = 8;
    let a = banded(n);
    let seed: Vec<Real> = (0..n).map(|i| Real(2.0 - (i as f64) * 0.25)).collect();
    let mut arn = ArnoldiSpace::<Real, Real>::new(&seed);
    for _ in 0..6 {
        arn.iter(&a).unwrap();
    }
    for k in 0..6 {
        let image = a(&arn.basis[k]);
        for row in 0..n {
            let mut sum = 0.0;
            for j in 0..=k + 1 {
                sum += arn.hessenberg_columns[k][j].0 * arn.basis[j][row].0;
            }
            assert!((image[row].0 - sum).abs() < 1e-10);
        }
    }
}

#[test]
fn dense_views_of_the_coefficients() {
    let a = banded(4);
    let mut arn = ArnoldiSpace::<Real, Real>::new(&reals(&[1., 2., 3., 4.]));
    for _ in 0..3 {
        arn.iter(&a).unwrap();
    }
    let c = matrix(&arn.hessenberg_columns);
    let square = matrix(&arn.get_H());
    assert_eq!(
        square,
        vec![
            vec![c[0][0], c[1][0], c[2][0]],
            vec![c[0][1], c[1][1], c[2][1]],
            vec![0.0, c[1][2], c[2][2]],
        ]
    );
    let tall = matrix(&arn.get_H_star());
    assert_eq!(
        tall,
        vec![
            vec![c[0][0], c[1][0], c[2][0]],
            vec![c[0][1], c[1][1], c[2][1]],
            vec![0.0, c[1][2], c[2][2]],
            vec![0.0, 0.0, c[2][3]],
        ]
    );
}

#[test]
fn dense_views_of_the_basis() {
    let a = banded(4);
    let mut arn = ArnoldiSpace::<Real, Real>::new(&reals(&[1., 2., 3., 4.]));
    for _ in 0..2 {
        arn.iter(&a).unwrap();
    }
    let q = matrix(&arn.basis);
    let narrow = matrix(&arn.get_Q());
    assert_eq!(narrow.len(), 4);
    for r in 0..4 {
        assert_eq!(narrow[r], vec![q[0][r], q[1][r]]);
    }
    let wide = matrix(&arn.get_Q_star());
    assert_eq!(wide.len(), 4);
    for r in 0..4 {
        assert_eq!(wide[r], vec![q[0][r], q[1][r], q[2][r]]);
    }
    let seed_only = ArnoldiSpace::<Real, Real>::new(&reals(&[0., 2.]));
    assert_eq!(matrix(&seed_only.get_Q()), vec![Vec::<f64>::new(), Vec::<f64>::new()]);
    assert_eq!(matrix(&seed_only.get_Q_star()), vec![vec![0.0], vec![1.0]]);
    assert!(seed_only.get_H().is_empty());
    assert_eq!(matrix(&seed_only.get_H_star()), vec![Vec::<f64>::new()]);
}

#[test]
fn coefficients_can_be_overwritten() {
    let a = banded(4);
    let mut arn = ArnoldiSpace::<Real, Real>::new(&reals(&[1., 2., 3., 4.]));
    for _ in 0..2 {
        arn.iter(&a).unwrap();
    }
    let last_subdiagonal = arn.hessenberg_columns[1][2];
    let basis = matrix(&arn.basis);
    arn.put_H(&vec![reals(&[1., 2.]), reals(&[3., 4.])]);
    assert_eq!(floats(&arn.hessenberg_columns[0]), vec![1., 3.]);
    assert_eq!(floats(&arn.hessenberg_columns[1]), vec![2., 4., last_subdiagonal.0]);
    assert_eq!(matrix(&arn.basis), basis);
}

#[test]
fn basis_can_be_overwritten() {
    let a = banded(3);
    let mut arn = ArnoldiSpace::<Real, Real>::new(&reals(&[1., 2., 3.]));
    for _ in 0..2 {
        arn.iter(&a).unwrap();
    }
    let last = floats(&arn.basis[2]);
    let columns = matrix(&arn.hessenberg_columns);
    arn.put_Q(&vec![reals(&[1., 2.]), reals(&[3., 4.]), reals(&[5., 6.])]);
    assert_eq!(floats(&arn.basis[0]), vec![1., 3., 5.]);
    assert_eq!(floats(&arn.basis[1]), vec![2., 4., 6.]);
    assert_eq!(floats(&arn.basis[2]), last);
    assert_eq!(matrix(&arn.hessenberg_columns), columns);
}

#[test]
fn residual_vector_round_trip() {
    let a = banded(3);
    let mut arn = ArnoldiSpace::<Real, Real>::new(&reals(&[1., 2., 3.]));
    arn.iter(&a).unwrap();
    let f = arn.get_f();
    let h = arn.hessenberg_columns[0][1].0;
    for i in 0..3 {
        assert_eq!(f[i].0, arn.basis[1][i].0 * h);
    }
    let first = floats(&arn.basis[0]);
    let diagonal = arn.hessenberg_columns[0][0];
    arn.put_f(&reals(&[0., 3., 4.]));
    assert_eq!(floats(&arn.basis[1]), vec![0., 0.6, 0.8]);
    assert_eq!(floats(&arn.hessenberg_columns[0]), vec![diagonal.0, 5.0]);
    assert_eq!(floats(&arn.basis[0]), first);
    assert_eq!(floats(&arn.get_f()), vec![0., 0.6 * 5.0, 0.8 * 5.0]);
}

#[test]
fn empty_space_has_a_rectangular_matrix_of_one_empty_row() {
    let arn = ArnoldiSpace::<Real, Real>::empty();
    assert_eq!(matrix(&arn.get_H_star()), vec![Vec::<f64>::new()]);
    assert!(arn.get_H().is_empty());
}

#[test]
fn nothing_is_overwritten_where_no_step_was_taken() {
    let mut seed_only = ArnoldiSpace::<Real, Real>::new(&reals(&[0., 2.]));
    seed_only.put_Q(&vec![reals(&[9.])]);
    assert_eq!(matrix(&seed_only.basis), vec![vec![0., 1.]]);
    seed_only.put_H(&vec![reals(&[9.])]);
    assert!(seed_only.hessenberg_columns.is_empty());
    let mut empty = ArnoldiSpace::<Real, Real>::empty();
    empty.put_Q(&vec![]);
    empty.put_H(&vec![]);
    assert!(empty.basis.is_empty() && empty.hessenberg_columns.is_empty());
}

#[test]
fn coefficients_are_read_from_the_leading_block() {
    let a = banded(4);
    let mut arn = ArnoldiSpace::<Real, Real>::new(&reals(&[1., 2., 3., 4.]));
    for _ in 0..2 {
        arn.iter(&a).unwrap();
    }
    let last_subdiagonal = arn.hessenberg_columns[1][2];
    arn.put_H(&vec![reals(&[1., 2., 7.]), reals(&[3., 4., 7.]), reals(&[7., 7., 7.])]);
    assert_eq!(floats(&arn.hessenberg_columns[0]), vec![1., 3.]);
    assert_eq!(floats(&arn.hessenberg_columns[1]), vec![2., 4., last_subdiagonal.0]);
}
