//! Solution of the triangularized least-squares problem by back
//! substitution, and the update of the iterate it yields.

use crate::scalar::{ComplexOrReal, RealScalar};
use crate::vector::{add_scaled, duplicate};
use vstd::prelude::*;

verus! {

/// One stage of back substitution: unknown `i` is found by dividing by the
/// diagonal entry of column `i`, and its contribution is removed from every
/// equation above.
pub open spec fn eliminate<T: ComplexOrReal<U>, U: RealScalar>(col: Seq<T>, y: Seq<T>, i: int) -> Seq<T> {
    let yi = y[i].div_spec(col[i]);
    Seq::new(
        y.len(),
        |j: int|
            if j < i {
                y[j].sub_spec(col[j].mul_spec(yi))
            } else if j == i {
                yi
            } else {
                y[j]
            },
    )
}

/// The right-hand side `s` after the `t` stages for the unknowns `k`,
/// `k - 1`, ..., `k - t + 1`, in this order.
pub open spec fn back_substituted<T: ComplexOrReal<U>, U: RealScalar>(
    h: Seq<Seq<T>>,
    s: Seq<T>,
    k: int,
    t: nat,
) -> Seq<T>
    decreases t,
{
    if t == 0 {
        s
    } else {
        eliminate::<T, U>(h[k - t + 1], back_substituted::<T, U>(h, s, k, (t - 1) as nat), k - t + 1)
    }
}

/// `x` plus the first `j` vectors of `v`, vector `i` weighted by `y[i]`,
/// added one after the other.
pub open spec fn combined<T: ComplexOrReal<U>, U: RealScalar>(
    x: Seq<T>,
    v: Seq<Seq<T>>,
    y: Seq<T>,
    j: nat,
) -> Seq<T>
    decreases j,
{
    if j == 0 {
        x
    } else {
        crate::vector::add_scaled_spec::<T, U>(combined::<T, U>(x, v, y, (j - 1) as nat), v[j - 1], y[j - 1])
    }
}

/// The iterate `x` corrected by the solution of the first `k + 1` equations
/// of the upper triangular system whose columns are `h` and whose right-hand
/// side is `s`, expanded in the vectors `v`.
pub open spec fn updated_solution<T: ComplexOrReal<U>, U: RealScalar>(
    x: Seq<T>,
    k: int,
    h: Seq<Seq<T>>,
    s: Seq<T>,
    v: Seq<Seq<T>>,
) -> Seq<T> {
    combined::<T, U>(x, v, back_substituted::<T, U>(h, s, k, (k + 1) as nat), (k + 1) as nat)
}

/// Adding weighted vectors keeps the length of the iterate.
pub proof fn lemma_combined_len<T: ComplexOrReal<U>, U: RealScalar>(
    x: Seq<T>,
    v: Seq<Seq<T>>,
    y: Seq<T>,
    j: nat,
)
    ensures
        combined::<T, U>(x, v, y, j).len() == x.len(),
    decreases j,
{
    if j > 0 {
        lemma_combined_len::<T, U>(x, v, y, (j - 1) as nat);
    }
}

/// Correcting an iterate keeps its length.
pub proof fn lemma_updated_solution_len<T: ComplexOrReal<U>, U: RealScalar>(
    x: Seq<T>,
    k: int,
    h: Seq<Seq<T>>,
    s: Seq<T>,
    v: Seq<Seq<T>>,
)
    ensures
        updated_solution::<T, U>(x, k, h, s, v).len() == x.len(),
{
    lemma_combined_len::<T, U>(
        x,
        v,
        back_substituted::<T, U>(h, s, k, (k + 1) as nat),
        (k + 1) as nat,
    );
}

/// Solves the first `k + 1` equations of the triangular system given by the
/// columns `h` and the right-hand side `s`, and adds to `x` the first
/// `k + 1` vectors of `v` weighted by the solution.
pub fn update2<T: ComplexOrReal<U>, U: RealScalar>(
    x: &mut Vec<T>,
    k: usize,
    h: &Vec<Vec<T>>,
    s: &Vec<T>,
    v: &Vec<Vec<T>>,
)
    requires
        k < h.len(),
        k < s.len(),
        k < v.len(),
        forall|i: int| 0 <= i <= k ==> (#[trigger] h[i]).len() > i,
        forall|j: int| 0 <= j <= k ==> (#[trigger] v[j]).len() == old(x).len(),
    ensures
        final(x)@ == updated_solution::<T, U>(
            old(x)@,
            k as int,
            crate::vector::rows(h@),
            s@,
            crate::vector::rows(v@),
        ),
{
    let ghost hs = crate::vector::rows(h@);
    let ghost vs = crate::vector::rows(v@);
    let mut y = duplicate(s);
    let mut t: usize = 0;
    while t <= k
        invariant
            t <= k + 1,
            k < h.len(),
            k < s.len(),
            y.len() == s.len(),
            hs == crate::vector::rows(h@),
            forall|i: int| 0 <= i <= k ==> (#[trigger] h[i]).len() > i,
            y@ == back_substituted::<T, U>(hs, s@, k as int, t as nat),
        decreases k + 1 - t,
    {
        let i = k - t;
        let ghost before = y@;
        let yi = y[i].div(h[i][i]);
        y.set(i, yi);
        let mut j: usize = i;
        while j > 0
            invariant
                j <= i,
                i <= k,
                k < h.len(),
                k < s.len(),
                y.len() == s.len(),
                before.len() == s.len(),
                h[i as int].len() > i,
                yi == before[i as int].div_spec(h[i as int]@[i as int]),
                forall|l: int|
                    0 <= l < y.len() ==> #[trigger] y@[l] == if j <= l < i {
                        before[l].sub_spec(h[i as int]@[l].mul_spec(yi))
                    } else if l == i {
                        yi
                    } else {
                        before[l]
                    },
            decreases j,
        {
            j -= 1;
            let reduced = y[j].sub(h[i][j].mul(yi));
            y.set(j, reduced);
        }
        t += 1;
    }
    let ghost solved = y@;
    let ghost x0 = x@;
    let mut j: usize = 0;
    while j <= k
        invariant
            j <= k + 1,
            k < v.len(),
            k < y.len(),
            y@ == solved,
            vs == crate::vector::rows(v@),
            x.len() == x0.len(),
            forall|c: int| 0 <= c <= k ==> (#[trigger] v[c]).len() == x0.len(),
            x@ == combined::<T, U>(x0, vs, solved, j as nat),
        decreases k + 1 - j,
    {
        let next = add_scaled(x, &v[j], y[j]);
        *x = next;
        j += 1;
    }
}

/// The first `ncols` columns of a matrix that is given row by row.
pub open spec fn columns_of<T>(h: Seq<Seq<T>>, ncols: nat) -> Seq<Seq<T>> {
    Seq::new(ncols, |c: int| Seq::new(h.len(), |r: int| h[r][c]))
}

/// Does what [`update2`] does for a triangular matrix `h` that is given
/// row by row.
pub fn update<T: ComplexOrReal<U>, U: RealScalar>(
    x: &mut Vec<T>,
    k: usize,
    h: &Vec<Vec<T>>,
    s: &Vec<T>,
    v: &Vec<Vec<T>>,
)
    requires
        k < h.len(),
        k < s.len(),
        k < v.len(),
        forall|r: int| 0 <= r < h.len() ==> (#[trigger] h[r]).len() > k,
        forall|j: int| 0 <= j <= k ==> (#[trigger] v[j]).len() == old(x).len(),
    ensures
        final(x)@ == updated_solution::<T, U>(
            old(x)@,
            k as int,
            columns_of(crate::vector::rows(h@), (k + 1) as nat),
            s@,
            crate::vector::rows(v@),
        ),
{
    let ghost target = columns_of(crate::vector::rows(h@), (k + 1) as nat);
    let mut columns: Vec<Vec<T>> = Vec::new();
    let mut c: usize = 0;
    while c <= k
        invariant
            c <= k + 1,
            k < h.len(),
            forall|r: int| 0 <= r < h.len() ==> (#[trigger] h[r]).len() > k,
            target == columns_of(crate::vector::rows(h@), (k + 1) as nat),
            columns.len() == c,
            forall|j: int| 0 <= j < c ==> (#[trigger] columns[j])@ == target[j],
        decreases k + 1 - c,
    {
        let mut column: Vec<T> = Vec::new();
        let mut r: usize = 0;
        while r < h.len()
            invariant
                r <= h.len(),
                c <= k,
                forall|i: int| 0 <= i < h.len() ==> (#[trigger] h[i]).len() > k,
                target == columns_of(crate::vector::rows(h@), (k + 1) as nat),
                column@ == target[c as int].take(r as int),
            decreases h.len() - r,
        {
            column.push(h[r][c]);
            r += 1;
        }
        columns.push(column);
        c += 1;
    }
    proof {
        assert(crate::vector::rows(columns@) =~= target);
    }
    update2::<T, U>(x, k, &columns, s, v);
}

} // verus!
