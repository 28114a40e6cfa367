use vstd::prelude::*;

use crate::mat::DenseRowMatrix;

verus! {

/// Builds a dense matrix whose element at `(r, c)` is what `f` answers
/// for that position.  Weight generators hand in `f`; anything `f`
/// promises of its results carries over to the matrix elements.
pub fn generate_dense<F: Fn(usize, usize) -> i64>(rows: usize, cols: usize, f: F) -> (m:
    DenseRowMatrix)
    requires
        forall|r: usize, c: usize| r < rows && c < cols ==> #[trigger] call_requires(f, (r, c)),
    ensures
        m.wf(),
        m.rows == rows,
        m.cols == cols,
        forall|r: usize, c: usize|
            r < rows && c < cols ==> #[trigger] call_ensures(f, (r, c), m.values@[r as int]@[c as int]),
{
    let mut values: Vec<Vec<i64>> = Vec::new();
    let mut r: usize = 0;
    while r < rows
        invariant
            r <= rows,
            forall|rr: usize, cc: usize|
                rr < rows && cc < cols ==> #[trigger] call_requires(f, (rr, cc)),
            values@.len() == r,
            forall|k: int| 0 <= k < r ==> (#[trigger] values@[k]@).len() == cols,
            forall|rr: usize, cc: usize|
                rr < r && cc < cols ==> #[trigger] call_ensures(
                    f,
                    (rr, cc),
                    values@[rr as int]@[cc as int],
                ),
        decreases rows - r,
    {
        let mut row: Vec<i64> = Vec::new();
        let mut c: usize = 0;
        while c < cols
            invariant
                c <= cols,
                r < rows,
                forall|rr: usize, cc: usize|
                    rr < rows && cc < cols ==> #[trigger] call_requires(f, (rr, cc)),
                row@.len() == c,
                forall|cc: usize|
                    cc < c ==> #[trigger] call_ensures(f, (r, cc), row@[cc as int]),
            decreases cols - c,
        {
            let v = f(r, c);
            row.push(v);
            c += 1;
        }
        values.push(row);
        r += 1;
    }
    DenseRowMatrix { rows, cols, values }
}

} // verus!
