use vstd::prelude::*;

use crate::error::SplineError;

verus! {

/// Checks that `f` holds one value per node of the grid spanned by `x` and
/// `y`, and that each row and each column has enough points for a spline.
///
/// A wrong length is reported first, with the length found and the one owed.
pub fn check_grid<T>(x: &Vec<T>, y: &Vec<T>, f: &Vec<T>) -> (r: Result<(), SplineError>)
    ensures
        r is Ok <==> f.len() == x.len() * y.len() && x.len() >= 2 && y.len() >= 2,
        f.len() != x.len() * y.len() ==> r == Err::<(), SplineError>(
            SplineError::DimensionMismatch {
                actual: f.len(),
                expected: (x.len() * y.len()) as u128,
            },
        ),
        f.len() == x.len() * y.len() && (x.len() < 2 || y.len() < 2) ==> r == Err::<(), SplineError>(
            SplineError::InsufficientData,
        ),
{
    let p = x.len();
    let q = y.len();
    assert((p as int) * (q as int) <= u128::MAX) by (nonlinear_arith)
        requires
            p <= usize::MAX,
            q <= usize::MAX,
            usize::MAX < 0x1_0000_0000_0000_0000int,
    ;
    let expected: u128 = (p as u128) * (q as u128);
    if (f.len() as u128) != expected {
        return Err(SplineError::DimensionMismatch { actual: f.len(), expected });
    }
    if p < 2 || q < 2 {
        return Err(SplineError::InsufficientData);
    }
    Ok(())
}

/// The points of row `row` of the row-major grid values `f`: each position
/// of `x` with the value at that column.
pub fn row_points<T: Copy>(x: &Vec<T>, f: &Vec<T>, row: usize) -> (r: Vec<(T, T)>)
    requires
        (row + 1) * x.len() <= f.len(),
    ensures
        r.len() == x.len(),
        forall|c: int| 0 <= c < x.len() ==> #[trigger] r@[c] == (x@[c], f@[row * x.len() + c]),
{
    let p = x.len();
    let mut r: Vec<(T, T)> = Vec::new();
    let mut c: usize = 0;
    while c < p
        invariant
            p == x.len(),
            (row + 1) * p <= f.len(),
            c <= p,
            r.len() == c,
            forall|k: int| 0 <= k < c ==> #[trigger] r@[k] == (x@[k], f@[row * p + k]),
        decreases p - c,
    {
        assert(row * p + c < f.len()) by (nonlinear_arith)
            requires
                (row + 1) * p <= f.len(),
                c < p,
        ;
        r.push((x[c], f[row * p + c]));
        c += 1;
    }
    r
}

/// The points of column `col` of the row-major grid values `f`, a grid with
/// `width` columns: each position of `y` with the value at that row.
pub fn column_points<T: Copy>(y: &Vec<T>, f: &Vec<T>, width: usize, col: usize) -> (r: Vec<(T, T)>)
    requires
        col < width,
        y.len() * width <= f.len(),
    ensures
        r.len() == y.len(),
        forall|k: int| 0 <= k < y.len() ==> #[trigger] r@[k] == (y@[k], f@[k * width + col]),
{
    let q = y.len();
    let mut r: Vec<(T, T)> = Vec::new();
    let mut k: usize = 0;
    while k < q
        invariant
            q == y.len(),
            col < width,
            q * width <= f.len(),
            k <= q,
            r.len() == k,
            forall|m: int| 0 <= m < k ==> #[trigger] r@[m] == (y@[m], f@[m * width + col]),
        decreases q - k,
    {
        assert(k * width + col < f.len()) by (nonlinear_arith)
            requires
                q * width <= f.len(),
                k < q,
                col < width,
        ;
        r.push((y[k], f[k * width + col]));
        k += 1;
    }
    r
}

} // verus!
