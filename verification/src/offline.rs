use vstd::prelude::*;

use crate::mat::{DenseRowMatrix, dot_steps_ok, in_i64, ints};
use crate::{Activation, ESN, sq_err_i, sq_err_i_ok, sq_err_ok, sq_err_prefix};

verus! {

/// An immutable snapshot of one time step: the input presented, the
/// target wanted, and the reservoir state reached — copied, because the
/// reservoir mutates afterwards.
pub struct TrainingRecord {
    pub input: Vec<i64>,
    pub target: Vec<i64>,
    pub state: Vec<i64>,
}

impl TrainingRecord {
    /// Snapshots the model's current input and internal state together
    /// with the given target.
    pub fn from_model<A: Activation>(esn: &ESN<A>, target: Vec<i64>) -> (r: TrainingRecord)
        ensures
            r.input@ == esn.input_state@,
            r.target@ == target@,
            r.state@ == esn.internal_state@,
    {
        TrainingRecord {
            input: crate::copy_vec(&esn.input_state),
            target,
            state: crate::copy_vec(&esn.internal_state),
        }
    }
}

/// The ordered sequence of recorded steps: append-only while running,
/// consumed read-only by the offline solver.
pub struct TrainingData(pub Vec<TrainingRecord>);

/// The rows of a row-major matrix of machine scalars, as mathematics.
pub open spec fn rows_view(a: Seq<Vec<i64>>) -> Seq<Seq<int>> {
    Seq::new(a.len(), |i: int| ints(a[i]@))
}

/// Overwrites row `i` of `w` with `cols` consecutive elements of `x`
/// starting at `offset`.  No other row is touched.
fn set_row_from(w: &mut DenseRowMatrix, i: usize, x: &Vec<i64>, offset: usize)
    requires
        old(w).wf(),
        i < old(w).rows,
        offset + old(w).cols <= x@.len(),
    ensures
        final(w).wf(),
        final(w).rows == old(w).rows,
        final(w).cols == old(w).cols,
        forall|k: int|
            0 <= k < old(w).values@.len() && k != i ==> final(w).values@[k] == old(w).values@[k],
        forall|j: int|
            0 <= j < old(w).cols ==> final(w).values@[i as int]@[j] == x@[offset + j],
{
    let xlen = x.len();
    let cols = w.cols;
    let mut j: usize = 0;
    while j < cols
        invariant
            j <= cols,
            old(w).wf(),
            i < old(w).rows,
            cols == old(w).cols,
            xlen == x@.len(),
            offset + cols <= x@.len(),
            w.rows == old(w).rows,
            w.cols == old(w).cols,
            w.values@.len() == old(w).values@.len(),
            forall|k: int|
                0 <= k < old(w).values@.len() && k != i ==> w.values@[k] == old(w).values@[k],
            w.values@[i as int]@.len() == old(w).cols,
            forall|jj: int|
                0 <= jj < j ==> w.values@[i as int]@[jj] == x@[offset + jj],
            forall|jj: int|
                j <= jj < old(w).cols ==> w.values@[i as int]@[jj] == old(w).values@[i as int]@[jj],
        decreases cols - j,
    {
        let v = x[offset + j];
        let e = w.get_mut(i, j);
        *e = v;
        j += 1;
    }
    assert forall|k: int| 0 <= k < old(w).rows implies (#[trigger] w.values@[k]@).len()
        == old(w).cols by {
        if k != i {
            assert(w.values@[k] == old(w).values@[k]);
        }
    }
}

/// The error surfaced when the offline normal-equations system cannot be
/// inverted.
#[derive(Debug, Clone, Copy, PartialEq, Eq, Structural)]
pub enum TrainError {
    SingularSystem,
}

impl TrainingData {
    /// All records agree on the input, target and state sizes.
    pub open spec fn td_wf(self) -> bool {
        forall|k: int|
            0 <= k < self.0@.len() ==> (#[trigger] self.0@[k]).input@.len()
                == self.0@[0].input@.len() && self.0@[k].target@.len() == self.0@[0].target@.len()
                && self.0@[k].state@.len() == self.0@[0].state@.len()
    }

    pub fn new() -> (r: TrainingData)
        ensures
            r.0@.len() == 0,
    {
        TrainingData(Vec::new())
    }

    /// Appends a snapshot of the model and the given target.
    pub fn push_state<A: Activation>(&mut self, esn: &ESN<A>, target: Vec<i64>)
        ensures
            final(self).0@.len() == old(self).0@.len() + 1,
            forall|k: int| 0 <= k < old(self).0@.len() ==> final(self).0@[k] == old(self).0@[k],
            final(self).0@.last().input@ == esn.input_state@,
            final(self).0@.last().target@ == target@,
            final(self).0@.last().state@ == esn.internal_state@,
    {
        self.0.push(TrainingRecord::from_model(esn, target));
    }

    pub fn record_count(&self) -> (r: usize)
        ensures
            r == self.0@.len(),
    {
        self.0.len()
    }

    pub fn input_size(&self) -> (r: usize)
        requires
            self.0@.len() > 0,
        ensures
            r == self.0@[0].input@.len(),
    {
        self.0[0].input.len()
    }

    pub fn target_size(&self) -> (r: usize)
        requires
            self.0@.len() > 0,
        ensures
            r == self.0@[0].target@.len(),
    {
        self.0[0].target.len()
    }

    pub fn state_size(&self) -> (r: usize)
        requires
            self.0@.len() > 0,
        ensures
            r == self.0@[0].state@.len(),
    {
        self.0[0].state.len()
    }

    /// Feature `j` of retained record `r`: the reservoir-state snapshot
    /// first, then the input snapshot.
    pub open spec fn design(self, skip: int, r: int, j: int) -> int {
        let rec = self.0@[skip + r];
        if j < rec.state@.len() {
            rec.state@[j] as int
        } else {
            rec.input@[j - rec.state@.len()] as int
        }
    }

    /// Target channel `t` of retained record `r`.
    pub open spec fn goal(self, skip: int, t: int, r: int) -> int {
        self.0@[skip + r].target@[t] as int
    }

    /// Entry `(i, j)` of the normal-equations matrix over the first `m`
    /// retained records.
    pub open spec fn gram_prefix(self, skip: int, i: int, j: int, m: int) -> int
        decreases m,
    {
        if m <= 0 {
            0
        } else {
            self.gram_prefix(skip, i, j, m - 1) + self.design(skip, m - 1, i) * self.design(
                skip,
                m - 1,
                j,
            )
        }
    }

    /// Entry `(i, j)` of the normal-equations matrix over all retained
    /// records.
    pub open spec fn gram(self, skip: int, i: int, j: int) -> int {
        self.gram_prefix(skip, i, j, self.0@.len() - skip)
    }

    /// Entry `j` of the right-hand side for channel `t` over the first
    /// `m` retained records.
    pub open spec fn moment_prefix(self, skip: int, t: int, j: int, m: int) -> int
        decreases m,
    {
        if m <= 0 {
            0
        } else {
            self.moment_prefix(skip, t, j, m - 1) + self.design(skip, m - 1, j) * self.goal(
                skip,
                t,
                m - 1,
            )
        }
    }

    /// Entry `j` of the right-hand side for channel `t` over all
    /// retained records.
    pub open spec fn moment(self, skip: int, t: int, j: int) -> int {
        self.moment_prefix(skip, t, j, self.0@.len() - skip)
    }

    /// The number of features: state size plus input size.
    pub open spec fn feat(self) -> int {
        self.0@[0].state@.len() as int + self.0@[0].input@.len() as int
    }

    /// The whole normal-equations matrix.
    pub open spec fn gram_mat(self, skip: int) -> Seq<Seq<int>> {
        Seq::new(self.feat() as nat, |i: int| Seq::new(self.feat() as nat, |j: int| self.gram(skip, i, j)))
    }

    /// The whole right-hand side for channel `t`.
    pub open spec fn moment_vec(self, skip: int, t: int) -> Seq<int> {
        Seq::new(self.feat() as nat, |j: int| self.moment(skip, t, j))
    }

    /// Every accumulation step of the normal-equations build is
    /// representable.
    pub open spec fn gram_ok(self, skip: int) -> bool {
        &&& forall|i: int, j: int, m: int|
            0 <= i < self.feat() && 0 <= j < self.feat() && 0 <= m < self.0@.len() - skip
                ==> in_i64(#[trigger] (self.design(skip, m, i) * self.design(skip, m, j)))
        &&& forall|i: int, j: int, m: int|
            0 <= i < self.feat() && 0 <= j < self.feat() && 0 <= m <= self.0@.len() - skip
                ==> in_i64(#[trigger] self.gram_prefix(skip, i, j, m))
        &&& forall|t: int, j: int, m: int|
            0 <= t < self.0@[0].target@.len() && 0 <= j < self.feat() && 0 <= m < self.0@.len()
                - skip ==> in_i64(#[trigger] (self.design(skip, m, j) * self.goal(skip, t, m)))
        &&& forall|t: int, j: int, m: int|
            0 <= t < self.0@[0].target@.len() && 0 <= j < self.feat() && 0 <= m <= self.0@.len()
                - skip ==> in_i64(#[trigger] self.moment_prefix(skip, t, j, m))
    }

    /// Feature `j` of retained record `r`, read from the records.
    fn design_at(&self, skip: usize, r: usize, j: usize) -> (v: i64)
        requires
            self.td_wf(),
            self.0@.len() > 0,
            skip + r < self.0@.len(),
            j < self.feat(),
        ensures
            v as int == self.design(skip as int, r as int, j as int),
    {
        let n = self.0.len();
        assert(skip + r < n);
        let rec = &self.0[skip + r];
        if j < rec.state.len() {
            rec.state[j]
        } else {
            rec.input[j - rec.state.len()]
        }
    }

    /// Builds the normal-equations matrix `XᵗX` over the retained
    /// records (the first `skip` are discarded as transient).  The design
    /// matrix `X` has one row per retained record, holding the
    /// reservoir-state snapshot first and the input snapshot after it.
    /// A double-precision linear solver takes the result from here; this
    /// build itself is exact.
    pub fn normal_matrix(&self, skip: usize) -> (g: Vec<Vec<i64>>)
        requires
            self.0@.len() > 0,
            skip <= self.0@.len(),
            self.td_wf(),
            self.feat() <= usize::MAX,
            self.gram_ok(skip as int),
        ensures
            g@.len() == self.feat(),
            forall|a: int| 0 <= a < self.feat() ==> (#[trigger] g@[a]@).len() == self.feat(),
            rows_view(g@) == self.gram_mat(skip as int),
    {
        let cnt = self.0.len();
        let ss = self.state_size();
        let nin = self.input_size();
        let kk = ss + nin;
        let m = cnt - skip;

        let mut gram: Vec<Vec<i64>> = Vec::new();
        let mut i: usize = 0;
        while i < kk
            invariant
                i <= kk,
                self.0@.len() > 0,
                skip <= self.0@.len(),
                self.td_wf(),
                self.gram_ok(skip as int),
                kk == self.feat(),
                m == self.0@.len() - skip,
                gram@.len() == i,
                forall|a: int| 0 <= a < i ==> (#[trigger] gram@[a]@).len() == kk,
                forall|a: int, b: int|
                    0 <= a < i && 0 <= b < kk ==> #[trigger] gram@[a]@[b] as int == self.gram(
                        skip as int,
                        a,
                        b,
                    ),
            decreases kk - i,
        {
            let mut row: Vec<i64> = Vec::new();
            let mut j: usize = 0;
            while j < kk
                invariant
                    j <= kk,
                    i < kk,
                    self.0@.len() > 0,
                    skip <= self.0@.len(),
                    self.td_wf(),
                    self.gram_ok(skip as int),
                    kk == self.feat(),
                    m == self.0@.len() - skip,
                    row@.len() == j,
                    forall|b: int|
                        0 <= b < j ==> #[trigger] row@[b] as int == self.gram(
                            skip as int,
                            i as int,
                            b,
                        ),
                decreases kk - j,
            {
                let mut acc: i64 = 0;
                let mut rr: usize = 0;
                while rr < m
                    invariant
                        rr <= m,
                        i < kk,
                        j < kk,
                        self.0@.len() > 0,
                        skip <= self.0@.len(),
                        self.td_wf(),
                        self.gram_ok(skip as int),
                        kk == self.feat(),
                        m == self.0@.len() - skip,
                        acc as int == self.gram_prefix(skip as int, i as int, j as int, rr as int),
                    decreases m - rr,
                {
                    assert(in_i64(self.gram_prefix(skip as int, i as int, j as int, rr + 1)));
                    let x = self.design_at(skip, rr, i);
                    let y = self.design_at(skip, rr, j);
                    acc = acc + x * y;
                    rr += 1;
                }
                row.push(acc);
                j += 1;
            }
            gram.push(row);
            i += 1;
        }
        assert(rows_view(gram@) =~= self.gram_mat(skip as int)) by {
            assert forall|a: int| 0 <= a < kk implies rows_view(gram@)[a] =~= self.gram_mat(
                skip as int,
            )[a] by {
                assert(forall|b: int|
                    0 <= b < kk ==> ints(gram@[a]@)[b] == #[trigger] gram@[a]@[b] as int);
            }
            assert(rows_view(gram@).len() == self.gram_mat(skip as int).len());
            assert(forall|a: int|
                0 <= a < kk ==> #[trigger] rows_view(gram@)[a] == self.gram_mat(skip as int)[a]);
        }
        gram
    }

    /// Builds the normal-equations right-hand side `Xᵗy` for output
    /// channel `t` over the retained records.
    pub fn normal_rhs(&self, skip: usize, t: usize) -> (b: Vec<i64>)
        requires
            self.0@.len() > 0,
            skip <= self.0@.len(),
            self.td_wf(),
            self.feat() <= usize::MAX,
            t < self.0@[0].target@.len(),
            self.gram_ok(skip as int),
        ensures
            b@.len() == self.feat(),
            ints(b@) == self.moment_vec(skip as int, t as int),
    {
        let cnt = self.0.len();
        let ss = self.state_size();
        let nin = self.input_size();
        let kk = ss + nin;
        let m = cnt - skip;

        let mut rhs: Vec<i64> = Vec::new();
        let mut j: usize = 0;
        while j < kk
            invariant
                j <= kk,
                self.0@.len() > 0,
                skip <= self.0@.len(),
                self.td_wf(),
                self.gram_ok(skip as int),
                t < self.0@[0].target@.len(),
                kk == self.feat(),
                m == self.0@.len() - skip,
                rhs@.len() == j,
                forall|b: int|
                    0 <= b < j ==> #[trigger] rhs@[b] as int == self.moment(
                        skip as int,
                        t as int,
                        b,
                    ),
            decreases kk - j,
        {
            let mut acc: i64 = 0;
            let mut rr: usize = 0;
            while rr < m
                invariant
                    rr <= m,
                    j < kk,
                    self.0@.len() > 0,
                    skip <= self.0@.len(),
                    self.td_wf(),
                    self.gram_ok(skip as int),
                    t < self.0@[0].target@.len(),
                    kk == self.feat(),
                    m == self.0@.len() - skip,
                    acc as int == self.moment_prefix(skip as int, t as int, j as int, rr as int),
                decreases m - rr,
            {
                assert(in_i64(self.moment_prefix(skip as int, t as int, j as int, rr + 1)));
                let x = self.design_at(skip, rr, j);
                let n = self.0.len();
                let rec = &self.0[skip + rr];
                let g = rec.target[t];
                acc = acc + x * g;
                rr += 1;
            }
            rhs.push(acc);
            j += 1;
        }
        assert(ints(rhs@) =~= self.moment_vec(skip as int, t as int));
        rhs
    }

    /// Writes a solved readout vector for output channel `t` into row
    /// `t` of the two readout matrices: the first `state_size` entries
    /// become the state-readout weights, the rest the direct input
    /// weights.  No other row is touched.
    pub fn apply_solution(
        &self,
        t: usize,
        w: &Vec<i64>,
        output_weights: &mut DenseRowMatrix,
        input_output_weights: &mut DenseRowMatrix,
    )
        requires
            self.0@.len() > 0,
            self.td_wf(),
            w@.len() == self.feat(),
            old(output_weights).wf(),
            t < old(output_weights).rows,
            old(output_weights).cols == self.0@[0].state@.len(),
            old(input_output_weights).wf(),
            t < old(input_output_weights).rows,
            old(input_output_weights).cols == self.0@[0].input@.len(),
        ensures
            final(output_weights).wf(),
            final(output_weights).rows == old(output_weights).rows,
            final(output_weights).cols == old(output_weights).cols,
            forall|k: int|
                0 <= k < old(output_weights).values@.len() && k != t ==> final(output_weights).values@[k] == old(output_weights).values@[k],
            forall|i: int|
                0 <= i < self.0@[0].state@.len() ==> #[trigger] final(output_weights).values@[
                    t as int
                ]@[i] == w@[i],
            final(input_output_weights).wf(),
            final(input_output_weights).rows == old(input_output_weights).rows,
            final(input_output_weights).cols == old(input_output_weights).cols,
            forall|k: int|
                0 <= k < old(input_output_weights).values@.len() && k != t ==> final(input_output_weights).values@[k] == old(input_output_weights).values@[k],
            forall|i: int|
                0 <= i < self.0@[0].input@.len() ==> #[trigger] final(input_output_weights).values@[
                    t as int
                ]@[i] == w@[self.0@[0].state@.len() + i],
    {
        set_row_from(output_weights, t, w, 0);
        let ss = self.state_size();
        set_row_from(input_output_weights, t, w, ss);
    }

    /// The recorded inputs, in order, as mathematics.
    pub open spec fn inputs_of(self) -> Seq<Seq<int>> {
        Seq::new(self.0@.len(), |k: int| ints(self.0@[k].input@))
    }

    /// The deterministic evaluation pass: resets the reservoir, replays
    /// every recorded input through `update` without teacher forcing, and
    /// returns the per-record squared error against the recorded target.
    /// No learning happens here.
    pub fn test<A: Activation>(&self, esn: &mut ESN<A>) -> (errs: Vec<i64>)
        requires
            old(esn).wf(),
            forall|k: int|
                0 <= k < self.0@.len() ==> (#[trigger] self.0@[k]).input@.len() == old(
                    esn,
                ).input_size() && self.0@[k].target@.len() == old(esn).output_size(),
            forall|k: int|
                0 <= k < self.0@.len() ==> old(esn).replay_ok(
                    old(esn).run_st(self.inputs_of(), k),
                    #[trigger] self.inputs_of()[k],
                ),
            forall|k: int|
                0 <= k < self.0@.len() ==> sq_err_i_ok(
                    (old(esn).run_st(self.inputs_of(), k + 1)).2,
                    (#[trigger] self.0@[k]).target@,
                ),
        ensures
            final(esn).wf(),
            errs@.len() == self.0@.len(),
            forall|k: int|
                0 <= k < self.0@.len() ==> (#[trigger] errs@[k]) as int == sq_err_i(
                    (old(esn).run_st(self.inputs_of(), k + 1)).2,
                    self.0@[k].target@,
                ),
            final(esn).st() == old(esn).run_st(self.inputs_of(), self.0@.len() as int),
            final(esn).alpha == old(esn).alpha,
            final(esn).activation == old(esn).activation,
            final(esn).internal_weights == old(esn).internal_weights,
            final(esn).input_weights == old(esn).input_weights,
            final(esn).feedback_weights == old(esn).feedback_weights,
            final(esn).output_weights == old(esn).output_weights,
            final(esn).input_output_weights == old(esn).input_output_weights,
            final(esn).state_a@.len() == old(esn).state_a@.len(),
            forall|i: int| 0 <= i < final(esn).state_a@.len() ==> final(esn).state_a@[i] == 1i64,
            final(esn).state_b@.len() == old(esn).state_b@.len(),
            forall|i: int| 0 <= i < final(esn).state_b@.len() ==> final(esn).state_b@[i] == 0i64,
    {
        let ghost inputs = self.inputs_of();
        esn.reset();

        let mut errs: Vec<i64> = Vec::new();
        let n = self.0.len();
        let mut k: usize = 0;
        while k < n
            invariant
                n == self.0@.len(),
                k <= n,
                old(esn).wf(),
                forall|kk: int|
                    0 <= kk < self.0@.len() ==> (#[trigger] self.0@[kk]).input@.len() == old(
                        esn,
                    ).input_size() && self.0@[kk].target@.len() == old(esn).output_size(),
                forall|kk: int|
                    0 <= kk < self.0@.len() ==> old(esn).replay_ok(
                        old(esn).run_st(inputs, kk),
                        #[trigger] inputs[kk],
                    ),
                forall|kk: int|
                    0 <= kk < self.0@.len() ==> sq_err_i_ok(
                        (old(esn).run_st(inputs, kk + 1)).2,
                        (#[trigger] self.0@[kk]).target@,
                    ),
                inputs == self.inputs_of(),
                esn.wf(),
                esn.st() == old(esn).run_st(inputs, k as int),
                esn.alpha == old(esn).alpha,
                esn.activation == old(esn).activation,
                esn.internal_weights == old(esn).internal_weights,
                esn.input_weights == old(esn).input_weights,
                esn.feedback_weights == old(esn).feedback_weights,
                esn.output_weights == old(esn).output_weights,
                esn.input_output_weights == old(esn).input_output_weights,
                esn.state_a@.len() == old(esn).state_a@.len(),
                forall|i: int| 0 <= i < esn.state_a@.len() ==> esn.state_a@[i] == 1i64,
                esn.state_b@.len() == old(esn).state_b@.len(),
                forall|i: int| 0 <= i < esn.state_b@.len() ==> esn.state_b@[i] == 0i64,
                errs@.len() == k,
                forall|j: int|
                    0 <= j < k ==> (#[trigger] errs@[j]) as int == sq_err_i(
                        (old(esn).run_st(inputs, j + 1)).2,
                        self.0@[j].target@,
                    ),
            decreases n - k,
        {
            let record = &self.0[k];
            let ghost s = old(esn).run_st(inputs, k as int);
            let ghost inp = inputs[k as int];
            assert(inp == ints(record.input@));
            assert(old(esn).replay_ok(s, inp));

            // The replay conditions carry over to the live reservoir:
            // its weights equal the entry-state ones and its adaptation
            // parameters stand at identity.
            assert forall|r: int| 0 <= r < esn.internal_size() implies in_i64(
                esn.state_a@[r] * #[trigger] esn.pre3(s.0, inp, s.2, r),
            ) && in_i64(esn.act_in(s.0, inp, s.2, r)) by {
                assert(esn.pre3(s.0, inp, s.2, r) == old(esn).pre3(s.0, inp, s.2, r));
                assert(dot_steps_ok(
                    old(esn).pre2(s.0, inp, r),
                    old(esn).feedback_weights.row(r),
                    s.2,
                ));
                assert(in_i64(
                    old(esn).pre2(s.0, inp, r) + crate::mat::dot_prefix(
                        old(esn).feedback_weights.row(r),
                        s.2,
                        old(esn).feedback_weights.row(r).len() as int,
                    ),
                ));
                assert(esn.state_a@[r] == 1i64 && esn.state_b@[r] == 0i64);
            }
            assert forall|r: int| 0 <= r < esn.internal_size() implies #[trigger] esn.act_out(
                s.0,
                inp,
                s.2,
                r,
            ) == old(esn).activation.spec_apply(old(esn).pre3(s.0, inp, s.2, r)) by {
                assert(esn.state_a@[r] == 1i64 && esn.state_b@[r] == 0i64);
                assert(esn.act_in(s.0, inp, s.2, r) == esn.pre3(s.0, inp, s.2, r));
            }
            assert forall|r: int| 0 <= r < esn.internal_size() implies #[trigger] esn.next_internal_at(
                s.0,
                inp,
                s.2,
                r,
            ) == old(esn).replay_ni_at(s, inp, r) by {
                assert(esn.act_out(s.0, inp, s.2, r) == old(esn).activation.spec_apply(
                    old(esn).pre3(s.0, inp, s.2, r),
                ));
            }
            assert(esn.next_internal(s.0, inp, s.2) =~= old(esn).replay_ni(s, inp));
            assert forall|r: int| 0 <= r < esn.internal_size() implies in_i64(
                s.0[r] * (1 - esn.alpha),
            ) by {
                let p3 = old(esn).pre3(s.0, inp, s.2, r);
                assert(in_i64(s.0[r] * (1 - old(esn).alpha)));
            }
            assert(esn.update_ok(s, inp, s.2));
            assert(esn.fb_of(None) == s.2) by {
                assert(ints(esn.output_state@) == s.2);
            }
            assert(esn.update_ok(esn.st(), ints(record.input@), esn.fb_of(None)));

            esn.update(&record.input, None);

            proof {
                let stepped = old(esn).replay_step(s, inp);
                assert(esn.st().0 =~= stepped.0);
                assert(esn.st().1 =~= stepped.1);
                assert(esn.st().2 =~= stepped.2);
                assert(esn.st() == old(esn).run_st(inputs, k + 1));
            }

            assert(sq_err_ok(esn.output_state@, record.target@)) by {
                assert(sq_err_i_ok((old(esn).run_st(inputs, k + 1)).2, record.target@));
                assert(ints(esn.output_state@) == (old(esn).run_st(inputs, k + 1)).2);
                assert forall|j: int| 0 <= j <= record.target@.len() implies in_i64(
                    #[trigger] sq_err_prefix(esn.output_state@, record.target@, j),
                ) by {
                    crate::lemma_sq_err_ints(esn.output_state@, record.target@, j);
                }
                assert forall|j: int| 0 <= j < record.target@.len() implies in_i64(
                    (#[trigger] esn.output_state@[j]) - record.target@[j],
                ) && in_i64(
                    (esn.output_state@[j] - record.target@[j]) * (esn.output_state@[j]
                        - record.target@[j]),
                ) by {
                    assert(esn.output_state@[j] as int == (old(esn).run_st(inputs, k + 1)).2[j]);
                }
            }
            let e = esn.error_square_sum(&record.target);
            proof {
                crate::lemma_sq_err_ints(
                    esn.output_state@,
                    record.target@,
                    record.target@.len() as int,
                );
                assert(e as int == sq_err_i((old(esn).run_st(inputs, k + 1)).2, record.target@));
            }
            errs.push(e);
            k += 1;
        }
        errs
    }
}

} // verus!
