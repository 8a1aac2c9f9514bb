//! Incremental construction of an orthonormal Krylov basis and of the
//! Hessenberg coefficients that go with it.

use crate::scalar::{norm, ComplexOrReal, RealScalar};
use crate::vector::{all_finite, div_all, dot_conj, duplicate, scaled, sub_scaled};
use std::marker::PhantomData;
use vstd::prelude::*;

verus! {

/// Why a basis could not be extended.
#[derive(Debug, Clone, Copy, PartialEq, Eq, Structural)]
pub enum ArnoldiErr {
    /// The remainder left after orthogonalization could not be normalized.
    HMM1Zero,
    /// The basis already has as many vectors as the space has dimensions.
    NoMoreBase,
}

impl ArnoldiErr {
    /// A short description of the failure.
    pub fn message(&self) -> (s: String)
        ensures
            *self is HMM1Zero ==> s@ == "H(m, m+1)=0"@,
            *self is NoMoreBase ==> s@ == "No more base"@,
    {
        match self {
            ArnoldiErr::HMM1Zero => "H(m, m+1)=0".to_owned(),
            ArnoldiErr::NoMoreBase => "No more base".to_owned(),
        }
    }
}

/// Mathematical content of an [`ArnoldiSpace`].
pub struct KrylovModel<T> {
    /// The basis vectors, oldest first.
    pub basis: Seq<Seq<T>>,
    /// One column of coefficients for every basis vector but the first.
    pub columns: Seq<Seq<T>>,
}

/// Modified Gram-Schmidt against the first `j` vectors of `basis`: the
/// projection coefficients found so far, and what is left of `w`. Every
/// coefficient is measured on the remainder of the projections before it.
pub open spec fn mgs<T: ComplexOrReal<U>, U: RealScalar>(basis: Seq<Seq<T>>, w: Seq<T>, j: nat) -> (
    Seq<T>,
    Seq<T>,
)
    decreases j,
{
    if j == 0 {
        (Seq::empty(), w)
    } else {
        let (coeffs, v) = mgs::<T, U>(basis, w, (j - 1) as nat);
        let h = crate::vector::dot_conj_spec::<T, U>(basis[j - 1], v, v.len());
        (coeffs.push(h), crate::vector::sub_scaled_spec::<T, U>(v, basis[j - 1], h))
    }
}

/// The norm of what is left of `w` after orthogonalization, as a scalar.
pub open spec fn remainder_norm<T: ComplexOrReal<U>, U: RealScalar>(basis: Seq<Seq<T>>, w: Seq<T>) -> T {
    T::from_real_spec(crate::scalar::norm_spec::<T, U>(mgs::<T, U>(basis, w, basis.len()).1))
}

/// The Hessenberg column that `w` contributes: all projection coefficients,
/// then the norm of the remainder.
pub open spec fn next_column<T: ComplexOrReal<U>, U: RealScalar>(basis: Seq<Seq<T>>, w: Seq<T>) -> Seq<T> {
    mgs::<T, U>(basis, w, basis.len()).0.push(remainder_norm::<T, U>(basis, w))
}

/// The basis vector that `w` contributes: its normalized remainder.
pub open spec fn next_vector<T: ComplexOrReal<U>, U: RealScalar>(basis: Seq<Seq<T>>, w: Seq<T>) -> Seq<T> {
    crate::vector::div_all_spec::<T, U>(
        mgs::<T, U>(basis, w, basis.len()).1,
        remainder_norm::<T, U>(basis, w),
    )
}

/// What becomes of a space when `w`, the image of its last basis vector, is
/// orthogonalized against it, and how the attempt ends.
///
/// A full basis is left alone and reported as `NoMoreBase`. A remainder whose
/// normalization has an entry of non-finite magnitude is a breakdown: the
/// space is left alone and `HMM1Zero` is reported. Otherwise the space gains
/// one vector and one column.
pub open spec fn extend_spec<T: ComplexOrReal<U>, U: RealScalar>(pre: KrylovModel<T>, w: Seq<T>) -> (
    KrylovModel<T>,
    Result<(), ArnoldiErr>,
) {
    if pre.basis.len() >= pre.basis[0].len() {
        (pre, Err(ArnoldiErr::NoMoreBase))
    } else if crate::vector::all_finite_spec::<T, U>(next_vector::<T, U>(pre.basis, w)) {
        (
            KrylovModel {
                basis: pre.basis.push(next_vector::<T, U>(pre.basis, w)),
                columns: pre.columns.push(next_column::<T, U>(pre.basis, w)),
            },
            Ok(()),
        )
    } else {
        (pre, Err(ArnoldiErr::HMM1Zero))
    }
}

/// The coefficient columns laid out as a dense matrix of `nrows` rows, one
/// row per sequence. Entry `(r, c)` is entry `r` of column `c` on and above
/// the first subdiagonal, and zero below it.
pub open spec fn hessenberg_entries<T: ComplexOrReal<U>, U: RealScalar>(columns: Seq<Seq<T>>, nrows: nat) -> Seq<
    Seq<T>,
> {
    Seq::new(
        nrows,
        |r: int|
            Seq::new(
                columns.len(),
                |c: int|
                    if r <= c + 1 {
                        columns[c][r]
                    } else {
                        T::zero_spec()
                    },
            ),
    )
}

/// The first `ncols` basis vectors laid out as the columns of a dense
/// matrix, one row per sequence.
pub open spec fn basis_entries<T>(basis: Seq<Seq<T>>, ncols: nat) -> Seq<Seq<T>> {
    Seq::new(basis[0].len(), |r: int| Seq::new(ncols, |c: int| basis[c][r]))
}

/// The coefficient columns after the square matrix `h`, given row by row,
/// was written over them: entry `r` of column `c` becomes entry `(r, c)` of
/// `h`, except for the subdiagonal entry of the last column, which has no
/// counterpart in `h` and stays.
pub open spec fn columns_from<T>(columns: Seq<Seq<T>>, h: Seq<Seq<T>>) -> Seq<Seq<T>> {
    Seq::new(
        columns.len(),
        |c: int|
            Seq::new(
                columns[c].len(),
                |r: int|
                    if r < columns.len() {
                        h[r][c]
                    } else {
                        columns[c][r]
                    },
            ),
    )
}

/// The basis after the columns of the matrix `q`, given row by row, were
/// written over all its vectors but the last.
pub open spec fn basis_from<T>(basis: Seq<Seq<T>>, q: Seq<Seq<T>>) -> Seq<Seq<T>> {
    Seq::new(
        basis.len(),
        |c: int|
            if c < basis.len() - 1 {
                Seq::new(basis[c].len(), |r: int| q[r][c])
            } else {
                basis[c]
            },
    )
}

/// An orthonormal basis of a Krylov subspace, grown one vector at a time,
/// together with the coefficients each step produced.
pub struct ArnoldiSpace<T, U> where T: ComplexOrReal<U>, U: RealScalar {
    /// The basis vectors; the first is the normalized seed.
    pub basis: Vec<Vec<T>>,
    /// Column `k` has `k + 2` entries and was produced with basis vector `k + 1`.
    pub hessenberg_columns: Vec<Vec<T>>,
    pub phantom: PhantomData<U>,
}

impl<T, U> View for ArnoldiSpace<T, U> where T: ComplexOrReal<U>, U: RealScalar {
    type V = KrylovModel<T>;

    open spec fn view(&self) -> KrylovModel<T> {
        KrylovModel { basis: crate::vector::rows(self.basis@), columns: crate::vector::rows(self.hessenberg_columns@) }
    }
}

/// Shape conditions on the content of a space.
pub open spec fn well_shaped<T>(m: KrylovModel<T>) -> bool {
    &&& m.basis.len() == 0 ==> m.columns.len() == 0
    &&& m.basis.len() > 0 ==> m.columns.len() == m.basis.len() - 1
    &&& forall|i: int| 0 <= i < m.basis.len() ==> (#[trigger] m.basis[i]).len() == m.basis[0].len()
    &&& forall|k: int| 0 <= k < m.columns.len() ==> (#[trigger] m.columns[k]).len() == k + 2
    &&& m.basis.len() > 1 ==> m.basis.len() <= m.basis[0].len()
}

impl<T, U> ArnoldiSpace<T, U> where T: ComplexOrReal<U>, U: RealScalar {
    /// The shape invariant: all basis vectors have the dimension of the
    /// first, there is one column per vector after the first, column `k` has
    /// `k + 2` entries, and a basis of several vectors has no more of them
    /// than the space has dimensions.
    pub open spec fn wf(&self) -> bool {
        well_shaped(self@)
    }

    /// The dimension of the space the basis lives in.
    pub open spec fn dim(&self) -> nat
        recommends
            self@.basis.len() > 0,
    {
        self@.basis[0].len()
    }

    /// A space spanned by the normalized seed `b`, whose norm must not be
    /// zero.
    pub fn new(b: &Vec<T>) -> (r: Self)
        requires
            !crate::scalar::norm_spec::<T, U>(b@).is_zero_spec(),
        ensures
            r.wf(),
            r@.basis == seq![
                crate::vector::div_all_spec::<T, U>(
                    b@,
                    T::from_real_spec(crate::scalar::norm_spec::<T, U>(b@)),
                ),
            ],
            r@.columns == Seq::<Seq<T>>::empty(),
    {
        let q = div_all(b, T::from_real(norm(b)));
        let mut basis: Vec<Vec<T>> = Vec::new();
        basis.push(q);
        let r = ArnoldiSpace { basis, hessenberg_columns: Vec::new(), phantom: PhantomData };
        r
    }

    /// A space without any vector.
    pub fn empty() -> (r: Self)
        ensures
            r.wf(),
            r@.basis == Seq::<Seq<T>>::empty(),
            r@.columns == Seq::<Seq<T>>::empty(),
    {
        let r = ArnoldiSpace { basis: Vec::new(), hessenberg_columns: Vec::new(), phantom: PhantomData };
        r
    }

    /// Discards everything and starts over from the seed `b`, whose norm
    /// must not be zero.
    pub fn reset(&mut self, b: &Vec<T>)
        requires
            !crate::scalar::norm_spec::<T, U>(b@).is_zero_spec(),
        ensures
            final(self).wf(),
            final(self)@.basis == seq![
                crate::vector::div_all_spec::<T, U>(
                    b@,
                    T::from_real_spec(crate::scalar::norm_spec::<T, U>(b@)),
                ),
            ],
            final(self)@.columns == Seq::<Seq<T>>::empty(),
    {
        *self = Self::new(b);
    }

    /// Extends the space by the vector `w`, the image of the last basis
    /// vector under the operator.
    pub fn extend(&mut self, w: Vec<T>) -> (r: Result<(), ArnoldiErr>)
        requires
            old(self).wf(),
            old(self)@.basis.len() > 0,
            w.len() == old(self).dim(),
        ensures
            final(self).wf(),
            (final(self)@, r) == extend_spec::<T, U>(old(self)@, w@),
    {
        let n = self.basis[0].len();
        if self.basis.len() >= n {
            return Err(ArnoldiErr::NoMoreBase);
        }
        let ghost pre = self@;
        let mut coeffs: Vec<T> = Vec::new();
        let mut v = w;
        let mut j: usize = 0;
        while j < self.basis.len()
            invariant
                j <= self.basis.len(),
                self@ == pre,
                well_shaped(pre),
                pre.basis.len() > 0,
                v.len() == pre.basis[0].len(),
                (coeffs@, v@) == mgs::<T, U>(pre.basis, w@, j as nat),
            decreases self.basis.len() - j,
        {
            assert(self.basis@[j as int]@ == pre.basis[j as int]);
            let h = dot_conj(&self.basis[j], &v);
            coeffs.push(h);
            v = sub_scaled(&v, &self.basis[j], h);
            j += 1;
        }
        let h_sub = T::from_real(norm(&v));
        coeffs.push(h_sub);
        let q = div_all(&v, h_sub);
        if all_finite(&q) {
            self.basis.push(q);
            self.hessenberg_columns.push(coeffs);
            proof {
                assert(self@.basis =~= pre.basis.push(q@));
                assert(self@.columns =~= pre.columns.push(coeffs@));
                assert(mgs::<T, U>(pre.basis, w@, pre.basis.len()).0.len() == pre.basis.len()) by {
                    lemma_mgs_len::<T, U>(pre.basis, w@, pre.basis.len());
                }
            }
            Ok(())
        } else {
            Err(ArnoldiErr::HMM1Zero)
        }
    }

    /// Performs one Arnoldi step: applies `op` to the last basis vector and
    /// orthogonalizes the image against the basis.
    pub fn iter<A>(&mut self, op: &A) -> (r: Result<(), ArnoldiErr>) where A: Fn(&Vec<T>) -> Vec<T>
        requires
            old(self).wf(),
            old(self)@.basis.len() > 0,
            crate::operator::preserves_dimension(op, old(self).dim()),
        ensures
            final(self).wf(),
            old(self)@.basis.len() >= old(self).dim() ==> r == Err::<(), ArnoldiErr>(
                ArnoldiErr::NoMoreBase,
            ) && final(self)@ == old(self)@,
            old(self)@.basis.len() < old(self).dim() ==> exists|w: Vec<T>|
                op.ensures((&old(self).basis@.last(),), w) && (final(self)@, r) == extend_spec::<T, U>(
                    old(self)@,
                    w@,
                ),
    {
        let n = self.basis[0].len();
        if self.basis.len() >= n {
            return Err(ArnoldiErr::NoMoreBase);
        }
        let last = self.basis.len() - 1;
        assert(self.basis@[last as int]@ == self@.basis[last as int]);
        let w = op(&self.basis[last]);
        self.extend(w)
    }

    fn hessenberg_rows(&self, nrows: usize) -> (r: Vec<Vec<T>>)
        requires
            self.wf(),
            nrows <= self@.columns.len() + 1,
        ensures
            crate::vector::rows(r@) == hessenberg_entries::<T, U>(self@.columns, nrows as nat),
    {
        let ghost full = hessenberg_entries::<T, U>(self@.columns, nrows as nat);
        let ncols = self.hessenberg_columns.len();
        let mut out: Vec<Vec<T>> = Vec::new();
        let mut i: usize = 0;
        while i < nrows
            invariant
                i <= nrows,
                self.wf(),
                nrows <= self@.columns.len() + 1,
                ncols == self.hessenberg_columns.len(),
                full == hessenberg_entries::<T, U>(self@.columns, nrows as nat),
                crate::vector::rows(out@) == full.take(i as int),
            decreases nrows - i,
        {
            let mut row: Vec<T> = Vec::new();
            let mut c: usize = 0;
            while c < ncols
                invariant
                    c <= ncols,
                    i < nrows,
                    self.wf(),
                    nrows <= self@.columns.len() + 1,
                    ncols == self.hessenberg_columns.len(),
                    full == hessenberg_entries::<T, U>(self@.columns, nrows as nat),
                    row@ == full[i as int].take(c as int),
                decreases ncols - c,
            {
                assert(self.hessenberg_columns@[c as int]@ == self@.columns[c as int]);
                let entry = if i <= c + 1 {
                    self.hessenberg_columns[c][i]
                } else {
                    T::zero()
                };
                row.push(entry);
                c += 1;
            }
            let ghost before = crate::vector::rows(out@);
            assert(before.len() == i);
            out.push(row);
            proof {
                assert forall|j: int| 0 <= j < i + 1 implies crate::vector::rows(out@)[j] == full[j] by {
                    if j < i {
                        assert(crate::vector::rows(out@)[j] == before[j]);
                    }
                }
            }
            i += 1;
        }
        out
    }

    fn basis_columns(&self, ncols: usize) -> (r: Vec<Vec<T>>)
        requires
            self.wf(),
            self@.basis.len() > 0,
            ncols <= self@.basis.len(),
        ensures
            crate::vector::rows(r@) == basis_entries(self@.basis, ncols as nat),
    {
        let ghost full = basis_entries(self@.basis, ncols as nat);
        let nrows = self.basis[0].len();
        let mut out: Vec<Vec<T>> = Vec::new();
        let mut i: usize = 0;
        while i < nrows
            invariant
                i <= nrows,
                self.wf(),
                self@.basis.len() > 0,
                ncols <= self@.basis.len(),
                nrows == self@.basis[0].len(),
                full == basis_entries(self@.basis, ncols as nat),
                crate::vector::rows(out@) == full.take(i as int),
            decreases nrows - i,
        {
            let mut row: Vec<T> = Vec::new();
            let mut c: usize = 0;
            while c < ncols
                invariant
                    c <= ncols,
                    i < nrows,
                    self.wf(),
                    self@.basis.len() > 0,
                    ncols <= self@.basis.len(),
                    nrows == self@.basis[0].len(),
                    full == basis_entries(self@.basis, ncols as nat),
                    row@ == full[i as int].take(c as int),
                decreases ncols - c,
            {
                assert(self.basis@[c as int]@ == self@.basis[c as int]);
                row.push(self.basis[c][i]);
                c += 1;
            }
            let ghost before = crate::vector::rows(out@);
            assert(before.len() == i);
            out.push(row);
            proof {
                assert forall|j: int| 0 <= j < i + 1 implies crate::vector::rows(out@)[j] == full[j] by {
                    if j < i {
                        assert(crate::vector::rows(out@)[j] == before[j]);
                    }
                }
            }
            i += 1;
        }
        out
    }

    /// The square Hessenberg matrix of the steps taken so far, row by row:
    /// the coefficient columns without the last subdiagonal entry.
    pub fn get_H(&self) -> (r: Vec<Vec<T>>)
        requires
            self.wf(),
        ensures
            crate::vector::rows(r@) == hessenberg_entries::<T, U>(self@.columns, self@.columns.len()),
    {
        self.hessenberg_rows(self.hessenberg_columns.len())
    }

    /// The rectangular Hessenberg matrix of the steps taken so far, row by
    /// row: every coefficient column in full, one row more than columns.
    pub fn get_H_star(&self) -> (r: Vec<Vec<T>>)
        requires
            self.wf(),
        ensures
            crate::vector::rows(r@) == hessenberg_entries::<T, U>(self@.columns, self@.columns.len() + 1),
    {
        let nrows = if self.basis.len() == 0 {
            1
        } else {
            self.basis.len()
        };
        self.hessenberg_rows(nrows)
    }

    /// The basis vectors but the last as the columns of a matrix, row by row.
    pub fn get_Q(&self) -> (r: Vec<Vec<T>>)
        requires
            self.wf(),
            self@.basis.len() > 0,
        ensures
            crate::vector::rows(r@) == basis_entries(self@.basis, self@.columns.len()),
    {
        self.basis_columns(self.hessenberg_columns.len())
    }

    /// All basis vectors as the columns of a matrix, row by row.
    pub fn get_Q_star(&self) -> (r: Vec<Vec<T>>)
        requires
            self.wf(),
            self@.basis.len() > 0,
        ensures
            crate::vector::rows(r@) == basis_entries(self@.basis, self@.basis.len()),
    {
        self.basis_columns(self.basis.len())
    }

    /// Writes the leading square block of the matrix `h`, given row by
    /// row, over the stored coefficients. The block has as many rows as
    /// there are columns stored. The subdiagonal entry of the last column
    /// stays.
    pub fn put_H(&mut self, h: &Vec<Vec<T>>)
        requires
            old(self).wf(),
            h.len() >= old(self)@.columns.len(),
            forall|r: int|
                0 <= r < old(self)@.columns.len() ==> (#[trigger] h[r]).len() >= old(self)@.columns.len(),
        ensures
            final(self).wf(),
            final(self)@.basis == old(self)@.basis,
            final(self)@.columns == columns_from(old(self)@.columns, crate::vector::rows(h@)),
    {
        let ghost pre = self@;
        let ghost target = columns_from(pre.columns, crate::vector::rows(h@));
        let n = self.hessenberg_columns.len();
        let mut c: usize = 0;
        while c < n
            invariant
                c <= n,
                n <= h.len(),
                n == pre.columns.len(),
                well_shaped(pre),
                forall|r: int| 0 <= r < n ==> (#[trigger] h[r]).len() >= n,
                self@.basis == pre.basis,
                self@.columns.len() == n,
                target == columns_from(pre.columns, crate::vector::rows(h@)),
                forall|k: int| 0 <= k < c ==> #[trigger] self@.columns[k] == target[k],
                forall|k: int| c <= k < n ==> #[trigger] self@.columns[k] == pre.columns[k],
            decreases n - c,
        {
            let height = self.hessenberg_columns[c].len();
            assert(self.hessenberg_columns@[c as int]@ == self@.columns[c as int]);
            let mut col: Vec<T> = Vec::new();
            let mut r: usize = 0;
            while r < height
                invariant
                    r <= height,
                    c < n,
                    n <= h.len(),
                    n == pre.columns.len(),
                    height == pre.columns[c as int].len(),
                    height == c + 2,
                    forall|i: int| 0 <= i < n ==> (#[trigger] h[i]).len() >= n,
                    self.hessenberg_columns@[c as int]@ == pre.columns[c as int],
                    c < self.hessenberg_columns.len(),
                    target == columns_from(pre.columns, crate::vector::rows(h@)),
                    col@ == target[c as int].take(r as int),
                decreases height - r,
            {
                let entry = if r < n {
                    h[r][c]
                } else {
                    self.hessenberg_columns[c][r]
                };
                col.push(entry);
                r += 1;
            }
            let ghost before = self@;
            self.hessenberg_columns.set(c, col);
            proof {
                assert forall|k: int| 0 <= k < c + 1 implies #[trigger] self@.columns[k] == target[k] by {
                    if k < c {
                        assert(self@.columns[k] == before.columns[k]);
                    }
                }
                assert forall|k: int| c + 1 <= k < n implies #[trigger] self@.columns[k]
                    == pre.columns[k] by {
                    assert(self@.columns[k] == before.columns[k]);
                }
            }
            c += 1;
        }
    }

    /// Writes the columns of the matrix `q`, given row by row, over the
    /// basis vectors but the last. Where there is no vector but the last,
    /// nothing is read or written.
    pub fn put_Q(&mut self, q: &Vec<Vec<T>>)
        requires
            old(self).wf(),
            old(self)@.columns.len() > 0 ==> q.len() == old(self).dim() && forall|r: int|
                0 <= r < q.len() ==> (#[trigger] q[r]).len() >= old(self)@.columns.len(),
        ensures
            final(self).wf(),
            final(self)@.columns == old(self)@.columns,
            final(self)@.basis == basis_from(old(self)@.basis, crate::vector::rows(q@)),
    {
        let ghost pre = self@;
        let ghost target = basis_from(pre.basis, crate::vector::rows(q@));
        let n = self.hessenberg_columns.len();
        if n == 0 {
            proof {
                assert(target =~= pre.basis);
            }
            return ;
        }
        let dim = self.basis[0].len();
        let mut c: usize = 0;
        while c < n
            invariant
                c <= n,
                n == pre.columns.len(),
                well_shaped(pre),
                pre.basis.len() > 0,
                dim == pre.basis[0].len(),
                q.len() == dim,
                forall|r: int| 0 <= r < q.len() ==> (#[trigger] q[r]).len() >= n,
                self@.columns == pre.columns,
                self@.basis.len() == pre.basis.len(),
                target == basis_from(pre.basis, crate::vector::rows(q@)),
                forall|k: int| 0 <= k < c ==> #[trigger] self@.basis[k] == target[k],
                forall|k: int| c <= k < pre.basis.len() ==> #[trigger] self@.basis[k] == pre.basis[k],
            decreases n - c,
        {
            let mut col: Vec<T> = Vec::new();
            let mut r: usize = 0;
            while r < dim
                invariant
                    r <= dim,
                    c < n,
                    q.len() == dim,
                    pre.basis.len() == n + 1,
                    pre.basis[c as int].len() == dim,
                    forall|i: int| 0 <= i < q.len() ==> (#[trigger] q[i]).len() >= n,
                    target == basis_from(pre.basis, crate::vector::rows(q@)),
                    col@ == target[c as int].take(r as int),
                decreases dim - r,
            {
                col.push(q[r][c]);
                r += 1;
            }
            let ghost before = self@;
            self.basis.set(c, col);
            proof {
                assert forall|k: int| 0 <= k < c + 1 implies #[trigger] self@.basis[k] == target[k] by {
                    if k < c {
                        assert(self@.basis[k] == before.basis[k]);
                    }
                }
                assert forall|k: int| c + 1 <= k < pre.basis.len() implies #[trigger] self@.basis[k]
                    == pre.basis[k] by {
                    assert(self@.basis[k] == before.basis[k]);
                }
            }
            c += 1;
        }
    }

    /// The residual vector of the factorization: the last basis vector
    /// times the last subdiagonal coefficient.
    pub fn get_f(&self) -> (r: Vec<T>)
        requires
            self.wf(),
            self@.columns.len() > 0,
        ensures
            r@ == crate::vector::scaled_spec::<T, U>(
                self@.basis.last(),
                self@.columns.last()[self@.columns.len() as int],
            ),
    {
        let n = self.hessenberg_columns.len();
        assert(self.hessenberg_columns@[n - 1]@ == self@.columns[n - 1]);
        let f = self.hessenberg_columns[n - 1][n];
        scaled::<T, U>(&self.basis[n], f)
    }

    /// Replaces the residual vector of the factorization by `f`: the last
    /// basis vector becomes `f` normalized, and the last subdiagonal
    /// coefficient its norm.
    pub fn put_f(&mut self, f: &Vec<T>)
        requires
            old(self).wf(),
            old(self)@.columns.len() > 0,
            f.len() == old(self).dim(),
        ensures
            final(self).wf(),
            final(self)@.basis == old(self)@.basis.update(
                old(self)@.basis.len() - 1,
                crate::vector::div_all_spec::<T, U>(
                    f@,
                    T::from_real_spec(crate::scalar::norm_spec::<T, U>(f@)),
                ),
            ),
            final(self)@.columns == old(self)@.columns.update(
                old(self)@.columns.len() - 1,
                old(self)@.columns.last().update(
                    old(self)@.columns.len() as int,
                    T::from_real_spec(crate::scalar::norm_spec::<T, U>(f@)),
                ),
            ),
    {
        let ghost pre = self@;
        let n = self.hessenberg_columns.len();
        let nn = T::from_real(norm(f));
        let v = div_all(f, nn);
        assert(self.hessenberg_columns@[n - 1]@ == self@.columns[n - 1]);
        let mut col = duplicate(&self.hessenberg_columns[n - 1]);
        col.set(n, nn);
        self.basis.set(n, v);
        self.hessenberg_columns.set(n - 1, col);
        proof {
            assert forall|i: int| 0 <= i < self@.basis.len() implies (#[trigger] self@.basis[i]).len()
                == self@.basis[0].len() by {
                assert(pre.basis[i].len() == pre.basis[0].len());
            }
            assert forall|k: int| 0 <= k < self@.columns.len() implies (#[trigger] self@.columns[k]).len()
                == k + 2 by {
                assert(pre.columns[k].len() == k + 2);
            }
        }
    }
}

/// Orthogonalizing against `j` vectors yields `j` coefficients and keeps the
/// length of the remainder.
pub proof fn lemma_mgs_len<T: ComplexOrReal<U>, U: RealScalar>(basis: Seq<Seq<T>>, w: Seq<T>, j: nat)
    ensures
        mgs::<T, U>(basis, w, j).0.len() == j,
        mgs::<T, U>(basis, w, j).1.len() == w.len(),
    decreases j,
{
    if j > 0 {
        lemma_mgs_len::<T, U>(basis, w, (j - 1) as nat);
    }
}

/// A step that succeeds appends one vector and one column, and leaves a
/// well-shaped space well shaped.
pub proof fn lemma_extend_keeps_shape<T: ComplexOrReal<U>, U: RealScalar>(pre: KrylovModel<T>, w: Seq<T>)
    requires
        well_shaped(pre),
        pre.basis.len() > 0,
        w.len() == pre.basis[0].len(),
        extend_spec::<T, U>(pre, w).1 is Ok,
    ensures
        ({
            let post = extend_spec::<T, U>(pre, w).0;
            &&& well_shaped(post)
            &&& post.basis == pre.basis.push(next_vector::<T, U>(pre.basis, w))
            &&& post.columns == pre.columns.push(next_column::<T, U>(pre.basis, w))
            &&& post.basis[0] == pre.basis[0]
        }),
{
    lemma_mgs_len::<T, U>(pre.basis, w, pre.basis.len());
}

/// The space after the first `k` of the vectors `images` were fed to it,
/// one per step.
pub open spec fn grown<T: ComplexOrReal<U>, U: RealScalar>(
    pre: KrylovModel<T>,
    images: Seq<Seq<T>>,
    k: nat,
) -> KrylovModel<T>
    decreases k,
{
    if k == 0 {
        pre
    } else {
        extend_spec::<T, U>(grown::<T, U>(pre, images, (k - 1) as nat), images[k - 1]).0
    }
}

/// There are at least `k` vectors in `images`, and each of the first `k`
/// steps was fed one of the right length, succeeded, and produced a
/// subdiagonal coefficient other than zero.
pub open spec fn steps_succeed<T: ComplexOrReal<U>, U: RealScalar>(
    pre: KrylovModel<T>,
    images: Seq<Seq<T>>,
    k: nat,
) -> bool {
    &&& k <= images.len()
    &&& forall|j: nat|
        j < k ==> {
            let at = #[trigger] grown::<T, U>(pre, images, j);
            &&& images[j as int].len() == pre.basis[0].len()
            &&& extend_spec::<T, U>(at, images[j as int]).1 is Ok
            &&& remainder_norm::<T, U>(at.basis, images[j as int]) != T::zero_spec()
        }
}

/// Steps that succeed keep the shape and append: after `k` steps the space
/// has `k` more vectors and columns than at the start.
pub proof fn lemma_grown_shape<T: ComplexOrReal<U>, U: RealScalar>(
    pre: KrylovModel<T>,
    images: Seq<Seq<T>>,
    k: nat,
)
    requires
        well_shaped(pre),
        pre.basis.len() > 0,
        steps_succeed::<T, U>(pre, images, k),
    ensures
        ({
            let late = grown::<T, U>(pre, images, k);
            &&& well_shaped(late)
            &&& late.basis.len() == pre.basis.len() + k
            &&& late.columns.len() == pre.columns.len() + k
            &&& late.basis[0] == pre.basis[0]
        }),
    decreases k,
{
    if k > 0 {
        let j = (k - 1) as nat;
        let before = grown::<T, U>(pre, images, j);
        lemma_grown_shape::<T, U>(pre, images, j);
        lemma_extend_keeps_shape::<T, U>(before, images[j as int]);
    }
}

/// Steps that succeed never touch what is there: the vectors and columns
/// the space had after `j` steps are the same after `k >= j` steps.
pub proof fn lemma_grown_appends<T: ComplexOrReal<U>, U: RealScalar>(
    pre: KrylovModel<T>,
    images: Seq<Seq<T>>,
    j: nat,
    k: nat,
)
    requires
        well_shaped(pre),
        pre.basis.len() > 0,
        j <= k,
        steps_succeed::<T, U>(pre, images, k),
    ensures
        ({
            let early = grown::<T, U>(pre, images, j);
            let late = grown::<T, U>(pre, images, k);
            &&& early.basis.len() <= late.basis.len()
            &&& early.columns.len() <= late.columns.len()
            &&& forall|i: int| 0 <= i < early.basis.len() ==> late.basis[i] == early.basis[i]
            &&& forall|i: int| 0 <= i < early.columns.len() ==> late.columns[i] == early.columns[i]
        }),
    decreases k,
{
    if j < k {
        let m = (k - 1) as nat;
        let before = grown::<T, U>(pre, images, m);
        lemma_grown_appends::<T, U>(pre, images, j, m);
        lemma_grown_shape::<T, U>(pre, images, m);
    }
}

} // verus!
