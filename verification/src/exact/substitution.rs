//! Back substitution in exact arithmetic: the weights it finds satisfy the
//! equations of the triangular system.

use crate::scalar::{ComplexOrReal, RealScalar};
use vstd::prelude::*;

verus! {

/// All the laws of exact arithmetic that back substitution rests on.
pub open spec fn exact_substitution<T: ComplexOrReal<U>, U: RealScalar>() -> bool {
    &&& crate::exact::field::exact_addition::<T, U>()
    &&& crate::exact::field::exact_multiplication::<T, U>()
    &&& crate::exact::field::exact_division::<T, U>()
}

/// The part of equation `j` that the unknowns `i`, `i + 1`, ..., `k`
/// account for: the sum of `h[l][j] * y[l]` over these `l`, where `h[l]`
/// is column `l` of the system.
pub open spec fn row_tail<T: ComplexOrReal<U>, U: RealScalar>(
    h: Seq<Seq<T>>,
    y: Seq<T>,
    j: int,
    i: int,
    k: int,
) -> T
    decreases k + 1 - i,
{
    if i > k {
        T::zero_spec()
    } else {
        h[i][j].mul_spec(y[i]).add_spec(row_tail::<T, U>(h, y, j, i + 1, k))
    }
}

/// The part of an equation that some unknowns account for depends on
/// these unknowns alone.
pub proof fn lemma_row_tail_agrees<T: ComplexOrReal<U>, U: RealScalar>(
    h: Seq<Seq<T>>,
    y1: Seq<T>,
    y2: Seq<T>,
    j: int,
    i: int,
    k: int,
)
    requires
        forall|l: int| i <= l <= k ==> y1[l] == y2[l],
    ensures
        row_tail::<T, U>(h, y1, j, i, k) == row_tail::<T, U>(h, y2, j, i, k),
    decreases k + 1 - i,
{
    if i <= k {
        lemma_row_tail_agrees::<T, U>(h, y1, y2, j, i + 1, k);
    }
}

/// `(a - p) + (p + r) == a + r`.
proof fn lemma_put_back<T: ComplexOrReal<U>, U: RealScalar>(a: T, p: T, r: T)
    requires
        crate::exact::field::exact_addition::<T, U>(),
    ensures
        a.sub_spec(p).add_spec(p.add_spec(r)) == a.add_spec(r),
{
    crate::exact::field::lemma_add_associates::<T, U>(a.sub_spec(p), p, r);
    crate::exact::field::lemma_sub_then_add::<T, U>(a, p);
}

/// After the stages for the unknowns `k` down to `k - t + 1`, each
/// equation above them is met by what is left of its right-hand side
/// together with the part these unknowns account for, and each of their
/// own equations is met by the unknowns.
proof fn lemma_stages<T: ComplexOrReal<U>, U: RealScalar>(h: Seq<Seq<T>>, s: Seq<T>, k: int, t: nat)
    requires
        exact_substitution::<T, U>(),
        0 <= k < s.len(),
        t <= k + 1,
        forall|i: int| 0 <= i <= k ==> (#[trigger] h[i])[i] != T::zero_spec(),
    ensures
        ({
            let y = crate::least_squares::back_substituted::<T, U>(h, s, k, t);
            let i = k - t + 1;
            &&& y.len() == s.len()
            &&& forall|j: int|
                0 <= j < i ==> y[j].add_spec(#[trigger] row_tail::<T, U>(h, y, j, i, k)) == s[j]
            &&& forall|j: int| i <= j <= k ==> #[trigger] row_tail::<T, U>(h, y, j, j, k) == s[j]
        }),
    decreases t,
{
    let y = crate::least_squares::back_substituted::<T, U>(h, s, k, t);
    let i = k - t + 1;
    if t == 0 {
        assert forall|j: int| 0 <= j < i implies y[j].add_spec(#[trigger] row_tail::<T, U>(h, y, j, i, k))
            == s[j] by {
            crate::exact::field::lemma_add_commutes::<T, U>(y[j], T::zero_spec());
            crate::exact::field::lemma_zero_add::<T, U>(y[j]);
        }
    } else {
        let y0 = crate::least_squares::back_substituted::<T, U>(h, s, k, (t - 1) as nat);
        lemma_stages::<T, U>(h, s, k, (t - 1) as nat);
        let yi = y0[i].div_spec(h[i][i]);
        assert(y == crate::least_squares::eliminate::<T, U>(h[i], y0, i));
        assert(y[i] == yi);
        assert forall|j: int| 0 <= j < i implies y[j].add_spec(#[trigger] row_tail::<T, U>(h, y, j, i, k))
            == s[j] by {
            lemma_row_tail_agrees::<T, U>(h, y, y0, j, i + 1, k);
            let rest = row_tail::<T, U>(h, y0, j, i + 1, k);
            assert(y0[j].add_spec(rest) == s[j]);
            assert(y[j] == y0[j].sub_spec(h[i][j].mul_spec(yi)));
            lemma_put_back::<T, U>(y0[j], h[i][j].mul_spec(yi), rest);
        }
        assert forall|j: int| i <= j <= k implies #[trigger] row_tail::<T, U>(h, y, j, j, k) == s[j] by {
            if j == i {
                lemma_row_tail_agrees::<T, U>(h, y, y0, i, i + 1, k);
                let rest = row_tail::<T, U>(h, y0, i, i + 1, k);
                assert(y0[i].add_spec(rest) == s[i]);
                crate::exact::field::lemma_mul_commutes::<T, U>(h[i][i], yi);
                crate::exact::field::lemma_div_then_mul::<T, U>(y0[i], h[i][i]);
            } else {
                lemma_row_tail_agrees::<T, U>(h, y, y0, j, j, k);
                assert(row_tail::<T, U>(h, y0, j, j, k) == s[j]);
            }
        }
    }
}

/// The weights solve the system. In exact arithmetic, where no diagonal
/// entry of the first `k + 1` columns is zero, the weights `y` that back
/// substitution finds satisfy every one of the first `k + 1` equations:
/// the sum of `h[i][j] * y[i]` over `i` from `j` to `k` is `s[j]`.
pub proof fn lemma_weights_solve_the_system<T: ComplexOrReal<U>, U: RealScalar>(
    h: Seq<Seq<T>>,
    s: Seq<T>,
    k: int,
    j: int,
)
    requires
        exact_substitution::<T, U>(),
        0 <= j <= k < s.len(),
        forall|i: int| 0 <= i <= k ==> (#[trigger] h[i])[i] != T::zero_spec(),
    ensures
        row_tail::<T, U>(h, crate::least_squares::back_substituted::<T, U>(h, s, k, (k + 1) as nat), j, j, k)
            == s[j],
{
    lemma_stages::<T, U>(h, s, k, (k + 1) as nat);
}

} // verus!
