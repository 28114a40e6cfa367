use vstd::prelude::*;

verus! {

/// The mathematical view of a vector of machine integers.
pub open spec fn ints(s: Seq<i64>) -> Seq<int> {
    Seq::new(s.len(), |i: int| s[i] as int)
}

/// Whether a mathematical integer fits in the scalar type.
pub open spec fn in_i64(x: int) -> bool {
    i64::MIN <= x <= i64::MAX
}

/// Dot product of the first `k` positions of two vectors.
pub open spec fn dot_prefix(a: Seq<int>, b: Seq<int>, k: int) -> int
    decreases k,
{
    if k <= 0 {
        0
    } else {
        dot_prefix(a, b, k - 1) + a[k - 1] * b[k - 1]
    }
}

/// Full dot product of two vectors of equal length.
pub open spec fn dot(a: Seq<int>, b: Seq<int>) -> int {
    dot_prefix(a, b, a.len() as int)
}

/// Every step of a running dot-product accumulation, started at `acc0`,
/// stays representable: each elementwise product fits, and so does every
/// partial sum.
pub open spec fn dot_steps_ok(acc0: int, a: Seq<int>, b: Seq<int>) -> bool {
    &&& forall|k: int| 0 <= k < a.len() ==> in_i64(#[trigger] (a[k] * b[k]))
    &&& forall|k: int| 0 <= k <= a.len() ==> in_i64(acc0 + #[trigger] dot_prefix(a, b, k))
}

/// Dot product of a sparse row, given as parallel index/value sequences,
/// with a dense vector, over the first `k` stored pairs.
pub open spec fn sdot_prefix(idx: Seq<usize>, vals: Seq<int>, b: Seq<int>, k: int) -> int
    decreases k,
{
    if k <= 0 {
        0
    } else {
        sdot_prefix(idx, vals, b, k - 1) + vals[k - 1] * b[idx[k - 1] as int]
    }
}

/// Full sparse-dense dot product.
pub open spec fn sdot(idx: Seq<usize>, vals: Seq<int>, b: Seq<int>) -> int {
    sdot_prefix(idx, vals, b, idx.len() as int)
}

/// Every step of a running sparse accumulation, started at `acc0`, is in
/// bounds and representable.
pub open spec fn sdot_steps_ok(acc0: int, idx: Seq<usize>, vals: Seq<int>, b: Seq<int>) -> bool {
    &&& idx.len() == vals.len()
    &&& forall|k: int| 0 <= k < idx.len() ==> (#[trigger] idx[k]) < b.len()
    &&& forall|k: int| 0 <= k < idx.len() ==> in_i64(#[trigger] (vals[k] * b[idx[k] as int]))
    &&& forall|k: int| 0 <= k <= idx.len() ==> in_i64(acc0 + #[trigger] sdot_prefix(idx, vals, b, k))
}

/// Multiplies every element of `c` by `scl`, in place.
pub fn scale_in_place(scl: i64, c: &mut Vec<i64>)
    requires
        forall|k: int| 0 <= k < old(c)@.len() ==> in_i64(#[trigger] (old(c)@[k] * scl)),
    ensures
        final(c)@.len() == old(c)@.len(),
        forall|k: int| 0 <= k < old(c)@.len() ==> final(c)@[k] == #[trigger] (old(c)@[k] * scl),
{
    let mut i: usize = 0;
    while i < c.len()
        invariant
            i <= c@.len(),
            c@.len() == old(c)@.len(),
            forall|k: int| 0 <= k < old(c)@.len() ==> in_i64(#[trigger] (old(c)@[k] * scl)),
            forall|k: int| i <= k < c@.len() ==> c@[k] == old(c)@[k],
            forall|k: int| 0 <= k < i ==> c@[k] == #[trigger] (old(c)@[k] * scl),
        decreases c@.len() - i,
    {
        let v = c[i];
        c[i] = v * scl;
        i += 1;
    }
}

/// Adds the dot product of `a` and `b` into the accumulator `acc`.
pub fn dense_dot_product(a: &Vec<i64>, b: &Vec<i64>, acc: &mut i64)
    requires
        a@.len() == b@.len(),
        dot_steps_ok(*old(acc) as int, ints(a@), ints(b@)),
    ensures
        *final(acc) == *old(acc) + dot(ints(a@), ints(b@)),
{
    let ghost av = ints(a@);
    let ghost bv = ints(b@);
    let mut i: usize = 0;
    while i < a.len()
        invariant
            i <= a@.len(),
            a@.len() == b@.len(),
            av == ints(a@),
            bv == ints(b@),
            dot_steps_ok(*old(acc) as int, av, bv),
            *acc == *old(acc) + dot_prefix(av, bv, i as int),
        decreases a@.len() - i,
    {
        assert(in_i64(av[i as int] * bv[i as int]));
        assert(in_i64(*old(acc) + dot_prefix(av, bv, i + 1)));
        let p = a[i] * b[i];
        *acc = *acc + p;
        i += 1;
    }
}

/// Adds the dot product of a sparse row `(cols, values)` with the dense
/// vector `b` into the accumulator `acc`.
pub fn sparse_dense_dot_product(cols: &Vec<usize>, values: &Vec<i64>, b: &Vec<i64>, acc: &mut i64)
    requires
        sdot_steps_ok(*old(acc) as int, cols@, ints(values@), ints(b@)),
    ensures
        *final(acc) == *old(acc) + sdot(cols@, ints(values@), ints(b@)),
{
    let ghost vv = ints(values@);
    let ghost bv = ints(b@);
    let mut i: usize = 0;
    while i < cols.len()
        invariant
            i <= cols@.len(),
            cols@.len() == values@.len(),
            vv == ints(values@),
            bv == ints(b@),
            sdot_steps_ok(*old(acc) as int, cols@, vv, bv),
            *acc == *old(acc) + sdot_prefix(cols@, vv, bv, i as int),
        decreases cols@.len() - i,
    {
        assert(in_i64(vv[i as int] * bv[cols@[i as int] as int]));
        assert(in_i64(*old(acc) + sdot_prefix(cols@, vv, bv, i + 1)));
        let c = cols[i];
        let p = values[i] * b[c];
        *acc = *acc + p;
        i += 1;
    }
}

/// A matrix in compressed row form: per row, parallel sequences of column
/// indices and stored values.  The reservoir's recurrent connectivity is
/// kept this way, so one state update costs time proportional to the
/// number of stored entries.
pub struct SparseRowMatrix {
    pub rows: usize,
    pub cols: usize,
    pub col_indices: Vec<Vec<usize>>,
    pub col_values: Vec<Vec<i64>>,
}

impl SparseRowMatrix {
    /// Column indices of stored entries in row `r`.
    pub open spec fn row_idx(self, r: int) -> Seq<usize> {
        self.col_indices@[r]@
    }

    /// Stored values of row `r`.
    pub open spec fn row_vals(self, r: int) -> Seq<int> {
        ints(self.col_values@[r]@)
    }

    /// Structural invariant: one index row and one value row per matrix
    /// row, of equal length, all indices in range and distinct within a
    /// row.
    pub open spec fn wf(self) -> bool {
        &&& self.col_indices@.len() == self.rows
        &&& self.col_values@.len() == self.rows
        &&& forall|r: int|
            0 <= r < self.rows ==> (#[trigger] self.row_idx(r)).len() == self.row_vals(r).len()
        &&& forall|r: int, k: int|
            0 <= r < self.rows && 0 <= k < self.row_idx(r).len() ==> (#[trigger] self.row_idx(
                r,
            )[k]) < self.cols
        &&& forall|r: int, k1: int, k2: int|
            0 <= r < self.rows && 0 <= k1 < self.row_idx(r).len() && 0 <= k2 < self.row_idx(
                r,
            ).len() && k1 != k2 ==> (#[trigger] self.row_idx(r)[k1]) != (#[trigger] self.row_idx(
                r,
            )[k2])
    }

    /// The sparse product of row `r` with the vector `c`.
    pub open spec fn row_dot(self, r: int, c: Seq<int>) -> int {
        sdot(self.row_idx(r), self.row_vals(r), c)
    }

    /// Every row's accumulation into `tgt0` stays representable.
    pub open spec fn mul_ok(self, c: Seq<int>, tgt0: Seq<i64>) -> bool {
        forall|r: int|
            0 <= r < self.rows ==> sdot_steps_ok(
                tgt0[r] as int,
                #[trigger] self.row_idx(r),
                self.row_vals(r),
                c,
            )
    }

    /// For each row `r`, adds the dot product of row `r` with `c` into
    /// `tgt[r]`.  Accumulates: the caller pre-zeroes `tgt` if overwrite
    /// semantics are wanted.
    pub fn mul_in_place(&self, c: &Vec<i64>, tgt: &mut Vec<i64>)
        requires
            self.wf(),
            self.cols == c@.len(),
            self.rows == old(tgt)@.len(),
            self.mul_ok(ints(c@), old(tgt)@),
        ensures
            final(tgt)@.len() == old(tgt)@.len(),
            forall|r: int|
                0 <= r < self.rows ==> final(tgt)@[r] == old(tgt)@[r] + #[trigger] self.row_dot(
                    r,
                    ints(c@),
                ),
    {
        let mut r: usize = 0;
        while r < self.rows
            invariant
                r <= self.rows,
                self.wf(),
                self.cols == c@.len(),
                self.rows == old(tgt)@.len(),
                self.mul_ok(ints(c@), old(tgt)@),
                tgt@.len() == old(tgt)@.len(),
                forall|k: int| r <= k < self.rows ==> tgt@[k] == old(tgt)@[k],
                forall|k: int|
                    0 <= k < r ==> tgt@[k] == old(tgt)@[k] + #[trigger] self.row_dot(k, ints(c@)),
            decreases self.rows - r,
        {
            let mut acc = tgt[r];
            assert(acc == old(tgt)@[r as int]);
            assert(sdot_steps_ok(
                old(tgt)@[r as int] as int,
                self.row_idx(r as int),
                self.row_vals(r as int),
                ints(c@),
            ));
            sparse_dense_dot_product(&self.col_indices[r], &self.col_values[r], c, &mut acc);
            tgt[r] = acc;
            r += 1;
        }
    }
}

/// Whether one of the first `k` stored pairs names column `c`.
pub open spec fn pair_has(idx: Seq<usize>, k: int, c: int) -> bool {
    exists|t: int| 0 <= t < k && idx[t] == c
}

/// The value that the first `k` stored pairs give column `c`; 0 where
/// none names it.
pub open spec fn pair_entry(idx: Seq<usize>, vals: Seq<int>, k: int, c: int) -> int {
    if pair_has(idx, k, c) {
        vals[choose|t: int| 0 <= t < k && idx[t] == c]
    } else {
        0
    }
}

/// A dot product of a vector that is zero on its first `m` positions is 0.
proof fn lemma_dot_prefix_zero(a: Seq<int>, b: Seq<int>, m: int)
    requires
        forall|j: int| 0 <= j < m ==> a[j] == 0,
    ensures
        dot_prefix(a, b, m) == 0,
    decreases m,
{
    if m > 0 {
        lemma_dot_prefix_zero(a, b, m - 1);
    }
}

/// Dot products agree on vectors that agree position by position.
proof fn lemma_dot_prefix_congruent(a1: Seq<int>, a2: Seq<int>, b: Seq<int>, m: int)
    requires
        forall|j: int| 0 <= j < m ==> a1[j] == a2[j],
    ensures
        dot_prefix(a1, b, m) == dot_prefix(a2, b, m),
    decreases m,
{
    if m > 0 {
        lemma_dot_prefix_congruent(a1, a2, b, m - 1);
    }
}

/// Raising one position of a vector by `d` raises its dot product with
/// `b` by `d * b[c]`.
proof fn lemma_dot_prefix_one_diff(a1: Seq<int>, a2: Seq<int>, b: Seq<int>, m: int, c: int, d: int)
    requires
        0 <= c < m,
        a1[c] == a2[c] + d,
        forall|j: int| 0 <= j < m && j != c ==> a1[j] == a2[j],
    ensures
        dot_prefix(a1, b, m) == dot_prefix(a2, b, m) + d * b[c],
    decreases m,
{
    if c == m - 1 {
        lemma_dot_prefix_congruent(a1, a2, b, m - 1);
        assert(a1[m - 1] * b[m - 1] == (a2[m - 1] + d) * b[m - 1]);
        assert((a2[m - 1] + d) * b[m - 1] == a2[m - 1] * b[m - 1] + d * b[m - 1])
            by (nonlinear_arith);
    } else {
        lemma_dot_prefix_one_diff(a1, a2, b, m - 1, c, d);
    }
}

/// Correcting a weight vector by `-f * x` moves its dot product with `x`
/// by `-f * (x · x)`.
pub proof fn lemma_dot_prefix_linear(w: Seq<int>, x: Seq<int>, f: int, w2: Seq<int>, m: int)
    requires
        forall|j: int| 0 <= j < m ==> w2[j] == w[j] - f * x[j],
    ensures
        dot_prefix(w2, x, m) == dot_prefix(w, x, m) - f * dot_prefix(x, x, m),
    decreases m,
{
    if m > 0 {
        lemma_dot_prefix_linear(w, x, f, w2, m - 1);
        assert((w[m - 1] - f * x[m - 1]) * x[m - 1] == w[m - 1] * x[m - 1] - f * (x[m - 1] * x[m
            - 1])) by (nonlinear_arith);
        assert(f * (dot_prefix(x, x, m - 1) + x[m - 1] * x[m - 1]) == f * dot_prefix(x, x, m - 1)
            + f * (x[m - 1] * x[m - 1])) by (nonlinear_arith);
    }
}

/// The sparse accumulation over the first `k` stored pairs equals the
/// dense dot product of the column vector those pairs describe.
proof fn lemma_sdot_prefix_as_dense(idx: Seq<usize>, vals: Seq<int>, b: Seq<int>, k: int)
    requires
        0 <= k <= idx.len(),
        idx.len() == vals.len(),
        forall|t: int| 0 <= t < idx.len() ==> (#[trigger] idx[t]) < b.len(),
        forall|t1: int, t2: int|
            0 <= t1 < idx.len() && 0 <= t2 < idx.len() && t1 != t2 ==> (#[trigger] idx[t1])
                != (#[trigger] idx[t2]),
    ensures
        sdot_prefix(idx, vals, b, k) == dot_prefix(
            Seq::new(b.len(), |c: int| pair_entry(idx, vals, k, c)),
            b,
            b.len() as int,
        ),
    decreases k,
{
    let ek = Seq::new(b.len(), |c: int| pair_entry(idx, vals, k, c));
    if k == 0 {
        assert(forall|c: int| 0 <= c < b.len() ==> ek[c] == 0);
        lemma_dot_prefix_zero(ek, b, b.len() as int);
    } else {
        lemma_sdot_prefix_as_dense(idx, vals, b, k - 1);
        let ep = Seq::new(b.len(), |c: int| pair_entry(idx, vals, k - 1, c));
        let c0 = idx[k - 1] as int;
        assert(pair_has(idx, k, c0));
        assert(ek[c0] == vals[k - 1]) by {
            let t = choose|t: int| 0 <= t < k && idx[t] == c0;
            assert(idx[t] == idx[k - 1]);
            assert(t == k - 1);
        }
        assert(ep[c0] == 0) by {
            if pair_has(idx, k - 1, c0) {
                let t = choose|t: int| 0 <= t < k - 1 && idx[t] == c0;
                assert(idx[t] == idx[k - 1] && t != k - 1);
            }
        }
        assert forall|c: int| 0 <= c < b.len() && c != c0 implies ek[c] == ep[c] by {
            if pair_has(idx, k, c) {
                let t = choose|t: int| 0 <= t < k && idx[t] == c;
                assert(t != k - 1);
                assert(pair_has(idx, k - 1, c));
                let t2 = choose|t: int| 0 <= t < k - 1 && idx[t] == c;
                assert(idx[t] == idx[t2]);
                assert(t == t2);
            } else {
                assert(!pair_has(idx, k - 1, c));
            }
        }
        lemma_dot_prefix_one_diff(ek, ep, b, b.len() as int, c0, vals[k - 1]);
    }
}

/// A dense row-major matrix.  The trainable readout weights are kept this
/// way and edited element-wise during learning.
pub struct DenseRowMatrix {
    pub rows: usize,
    pub cols: usize,
    pub values: Vec<Vec<i64>>,
}

impl DenseRowMatrix {
    /// Row `r` as a mathematical vector.
    pub open spec fn row(self, r: int) -> Seq<int> {
        ints(self.values@[r]@)
    }

    /// Structural invariant: `rows` rows, each of exactly `cols` elements.
    pub open spec fn wf(self) -> bool {
        &&& self.values@.len() == self.rows
        &&& forall|r: int| 0 <= r < self.rows ==> (#[trigger] self.values@[r]@).len() == self.cols
    }

    /// The product of row `r` with the vector `c`.
    pub open spec fn row_dot(self, r: int, c: Seq<int>) -> int {
        dot(self.row(r), c)
    }

    /// Every row's accumulation into `tgt0` stays representable.
    pub open spec fn mul_ok(self, c: Seq<int>, tgt0: Seq<i64>) -> bool {
        forall|r: int|
            0 <= r < self.rows ==> dot_steps_ok(tgt0[r] as int, #[trigger] self.row(r), c)
    }

    /// Builds a `rows` by `cols` matrix with every element equal to `v`.
    pub fn new(rows: usize, cols: usize, v: i64) -> (m: DenseRowMatrix)
        ensures
            m.wf(),
            m.rows == rows,
            m.cols == cols,
            forall|r: int, c: int| 0 <= r < rows && 0 <= c < cols ==> #[trigger] m.values@[r]@[c] == v,
    {
        let mut values: Vec<Vec<i64>> = Vec::new();
        let mut r: usize = 0;
        while r < rows
            invariant
                r <= rows,
                values@.len() == r,
                forall|k: int| 0 <= k < r ==> (#[trigger] values@[k]@).len() == cols,
                forall|k: int, c: int|
                    0 <= k < r && 0 <= c < cols ==> #[trigger] values@[k]@[c] == v,
            decreases rows - r,
        {
            let mut row: Vec<i64> = Vec::new();
            let mut c: usize = 0;
            while c < cols
                invariant
                    c <= cols,
                    row@.len() == c,
                    forall|k: int| 0 <= k < c ==> #[trigger] row@[k] == v,
                decreases cols - c,
            {
                row.push(v);
                c += 1;
            }
            values.push(row);
            r += 1;
        }
        DenseRowMatrix { rows, cols, values }
    }

    /// For each row `r`, adds the dot product of row `r` with `c` into
    /// `tgt[r]`.  Accumulates: the caller pre-zeroes `tgt` if overwrite
    /// semantics are wanted.
    pub fn mul_in_place(&self, c: &Vec<i64>, tgt: &mut Vec<i64>)
        requires
            self.wf(),
            self.cols == c@.len(),
            self.rows == old(tgt)@.len(),
            self.mul_ok(ints(c@), old(tgt)@),
        ensures
            final(tgt)@.len() == old(tgt)@.len(),
            forall|r: int|
                0 <= r < self.rows ==> final(tgt)@[r] == old(tgt)@[r] + #[trigger] self.row_dot(
                    r,
                    ints(c@),
                ),
    {
        let mut r: usize = 0;
        while r < self.rows
            invariant
                r <= self.rows,
                self.wf(),
                self.cols == c@.len(),
                self.rows == old(tgt)@.len(),
                self.mul_ok(ints(c@), old(tgt)@),
                tgt@.len() == old(tgt)@.len(),
                forall|k: int| r <= k < self.rows ==> tgt@[k] == old(tgt)@[k],
                forall|k: int|
                    0 <= k < r ==> tgt@[k] == old(tgt)@[k] + #[trigger] self.row_dot(k, ints(c@)),
            decreases self.rows - r,
        {
            let mut acc = tgt[r];
            assert(acc == old(tgt)@[r as int]);
            assert(dot_steps_ok(old(tgt)@[r as int] as int, self.row(r as int), ints(c@)));
            dense_dot_product(&self.values[r], c, &mut acc);
            tgt[r] = acc;
            r += 1;
        }
    }

    /// A mutable reference to one element, used by the learning rules to
    /// edit readout weights in place.
    pub fn get_mut(&mut self, r: usize, c: usize) -> (element: &mut i64)
        requires
            r < old(self).values@.len(),
            c < old(self).values@[r as int]@.len(),
        ensures
            *element == old(self).values@[r as int]@[c as int],
            final(self).rows == old(self).rows,
            final(self).cols == old(self).cols,
            final(self).values@.len() == old(self).values@.len(),
            forall|k: int|
                0 <= k < old(self).values@.len() && k != r ==> final(self).values@[k]
                    == old(self).values@[k],
            final(self).values@[r as int]@ == old(self).values@[r as int]@.update(
                c as int,
                *final(element),
            ),
    {
        &mut self.values[r][c]
    }
}

impl SparseRowMatrix {
    /// Whether row `r` stores an entry for column `c`.
    pub open spec fn has_entry(self, r: int, c: int) -> bool {
        pair_has(self.row_idx(r), self.row_idx(r).len() as int, c)
    }

    /// The matrix element at `(r, c)`: the stored value, or 0 where none
    /// is stored.
    pub open spec fn entry(self, r: int, c: int) -> int {
        pair_entry(self.row_idx(r), self.row_vals(r), self.row_idx(r).len() as int, c)
    }

    /// The dense matrix `d` holds exactly the elements this sparse
    /// matrix describes.
    pub open spec fn represents(self, d: DenseRowMatrix) -> bool {
        &&& self.rows == d.rows
        &&& self.cols == d.cols
        &&& forall|r: int, c: int|
            0 <= r < self.rows && 0 <= c < self.cols ==> #[trigger] d.row(r)[c] == self.entry(r, c)
    }
}

/// Sparse versus dense equivalence: when a sparse matrix and a dense one
/// describe the same elements, every row's product with a given vector
/// agrees, so `mul_in_place` adds the same values into the target either
/// way.
pub proof fn lemma_sparse_dense_equiv(sm: SparseRowMatrix, dm: DenseRowMatrix, x: Seq<int>)
    requires
        sm.wf(),
        dm.wf(),
        sm.represents(dm),
        x.len() == sm.cols,
    ensures
        forall|r: int| 0 <= r < sm.rows ==> #[trigger] sm.row_dot(r, x) == dm.row_dot(r, x),
{
    assert forall|r: int| 0 <= r < sm.rows implies #[trigger] sm.row_dot(r, x) == dm.row_dot(
        r,
        x,
    ) by {
        let idx = sm.row_idx(r);
        let vals = sm.row_vals(r);
        lemma_sdot_prefix_as_dense(idx, vals, x, idx.len() as int);
        let ek = Seq::new(x.len(), |c: int| pair_entry(idx, vals, idx.len() as int, c));
        assert(forall|c: int| 0 <= c < x.len() ==> ek[c] == #[trigger] dm.row(r)[c]);
        lemma_dot_prefix_congruent(ek, dm.row(r), x, x.len() as int);
        assert(dm.row(r).len() == x.len());
    }
}

} // verus!
