use vstd::prelude::*;

pub mod mat;
pub mod offline;
pub mod generator;

use crate::mat::{DenseRowMatrix, SparseRowMatrix, dot_steps_ok, in_i64, ints, sdot_steps_ok};
use std::collections::VecDeque;

verus! {

/// One remembered step for the windowed correction rule: the target, the
/// output, the internal state and the input of that step, in this order.
pub type Snapshot = (Vec<i64>, Vec<i64>, Vec<i64>, Vec<i64>);

/// A snapshot as mathematics.
pub type SnapshotView = (Seq<i64>, Seq<i64>, Seq<i64>, Seq<i64>);

/// The view of one snapshot.
pub open spec fn snap_view(s: Snapshot) -> SnapshotView {
    (s.0@, s.1@, s.2@, s.3@)
}

/// The views of a whole history window.
pub open spec fn snaps_view(h: Seq<Snapshot>) -> Seq<SnapshotView> {
    Seq::new(h.len(), |k: int| snap_view(h[k]))
}

/// `lambda` to the `k`-th power: the geometric decay weight of the
/// `k`-th-most-recent snapshot.
pub open spec fn pow_of(lambda: i64, k: int) -> int
    decreases k,
{
    if k <= 0 {
        1
    } else {
        lambda * pow_of(lambda, k - 1)
    }
}

/// All snapshots in `h` carry vectors of the given sizes.
pub open spec fn snaps_wf(h: Seq<SnapshotView>, outsz: int, nst: int, nin: int) -> bool {
    forall|k: int|
        0 <= k < h.len() ==> (#[trigger] h[k]).0.len() == outsz && h[k].1.len() == outsz
            && h[k].2.len() == nst && h[k].3.len() == nin
}

/// The correction that snapshot `k` contributes to the input-to-output
/// weight at `(i, j)`.
pub open spec fn rls_term_io(
    h: Seq<SnapshotView>,
    rate: i64,
    lambda: i64,
    i: int,
    j: int,
    k: int,
) -> int {
    ((rate * pow_of(lambda, k)) * (h[k].1[i] - h[k].0[i])) * h[k].3[j]
}

/// The correction that snapshot `k` contributes to the state-readout
/// weight at `(i, j)`.
pub open spec fn rls_term_out(
    h: Seq<SnapshotView>,
    rate: i64,
    lambda: i64,
    i: int,
    j: int,
    k: int,
) -> int {
    ((rate * pow_of(lambda, k)) * (h[k].1[i] - h[k].0[i])) * h[k].2[j]
}

/// Total correction to the input-to-output weight at `(i, j)` over the
/// first `k` snapshots.
pub open spec fn rls_sum_io(
    h: Seq<SnapshotView>,
    rate: i64,
    lambda: i64,
    i: int,
    j: int,
    k: int,
) -> int
    decreases k,
{
    if k <= 0 {
        0
    } else {
        rls_sum_io(h, rate, lambda, i, j, k - 1) + rls_term_io(h, rate, lambda, i, j, k - 1)
    }
}

/// Total correction to the state-readout weight at `(i, j)` over the
/// first `k` snapshots.
pub open spec fn rls_sum_out(
    h: Seq<SnapshotView>,
    rate: i64,
    lambda: i64,
    i: int,
    j: int,
    k: int,
) -> int
    decreases k,
{
    if k <= 0 {
        0
    } else {
        rls_sum_out(h, rate, lambda, i, j, k - 1) + rls_term_out(h, rate, lambda, i, j, k - 1)
    }
}

/// Division truncated toward zero, the scalar division used by the
/// intrinsic-plasticity rule; 0 when the divisor is 0.
pub open spec fn div_tz(a: int, b: int) -> int {
    if b == 0 {
        0
    } else if a >= 0 && b > 0 {
        a / b
    } else if a < 0 && b > 0 {
        -((-a) / b)
    } else if a >= 0 {
        -(a / (-b))
    } else {
        (-a) / (-b)
    }
}

/// Division truncated toward zero on machine scalars.
fn div_trunc(x: i64, y: i64) -> (q: i64)
    requires
        y != 0,
        x > i64::MIN,
        y > i64::MIN,
    ensures
        q as int == div_tz(x as int, y as int),
{
    let xm: u64 = if x >= 0 {
        x as u64
    } else {
        (-x) as u64
    };
    let ym: u64 = if y >= 0 {
        y as u64
    } else {
        (-y) as u64
    };
    let qm: u64 = xm / ym;
    proof {
        vstd::arithmetic::div_mod::lemma_div_nonincreasing(xm as int, ym as int);
    }
    if (x < 0) != (y < 0) {
        -(qm as i64)
    } else {
        qm as i64
    }
}

/// The additive and multiplicative identities of the scalar type, and a
/// bulk clear.  The reservoir state vectors are reset through this.
pub trait ZeroOne: Sized {
    /// The value that `zero` returns.
    spec fn zero_spec() -> Self;

    /// The value that `one` returns.
    spec fn one_spec() -> Self;

    fn zero() -> (r: Self)
        ensures
            r == Self::zero_spec(),
    ;

    fn one() -> (r: Self)
        ensures
            r == Self::one_spec(),
    ;

    fn fill_zero(v: &mut Vec<Self>)
        ensures
            final(v)@.len() == old(v)@.len(),
            forall|i: int| 0 <= i < final(v)@.len() ==> final(v)@[i] == Self::zero_spec(),
    ;
}

impl ZeroOne for i64 {
    open spec fn zero_spec() -> i64 {
        0
    }

    open spec fn one_spec() -> i64 {
        1
    }

    fn zero() -> (r: i64) {
        0
    }

    fn one() -> (r: i64) {
        1
    }

    fn fill_zero(v: &mut Vec<i64>) {
        let mut i: usize = 0;
        while i < v.len()
            invariant
                i <= v@.len(),
                v@.len() == old(v)@.len(),
                forall|k: int| 0 <= k < i ==> v@[k] == 0i64,
            decreases v@.len() - i,
        {
            v[i] = 0;
            i += 1;
        }
    }
}

/// The element-wise nonlinearity applied to the reservoir's pre-activation.
/// An implementation is a unary transform whose exact value is given by its
/// own `spec_apply`, so that a state update is a mathematical function of
/// the state and input.
pub trait Activation: Sized {
    /// The transform as a mathematical function.
    spec fn spec_apply(&self, x: int) -> int;

    fn apply(&self, x: i64) -> (r: i64)
        ensures
            r as int == self.spec_apply(x as int),
    ;
}

/// The identity transform: a linear reservoir.
pub struct IdentityActivation;

impl Activation for IdentityActivation {
    open spec fn spec_apply(&self, x: int) -> int {
        x
    }

    fn apply(&self, x: i64) -> (r: i64) {
        x
    }
}

/// A saturating transform that clamps to `[-bound, bound]`, the integer
/// analogue of a sigmoid-like squashing nonlinearity.
pub struct ClampActivation {
    pub bound: u32,
}

impl Activation for ClampActivation {
    open spec fn spec_apply(&self, x: int) -> int {
        if x > self.bound as int {
            self.bound as int
        } else if x < -(self.bound as int) {
            -(self.bound as int)
        } else {
            x
        }
    }

    fn apply(&self, x: i64) -> (r: i64) {
        let b = self.bound as i64;
        if x > b {
            b
        } else if x < -b {
            -b
        } else {
            x
        }
    }
}

/// Copies a vector element by element.
pub(crate) fn copy_vec(v: &Vec<i64>) -> (r: Vec<i64>)
    ensures
        r@ == v@,
{
    let mut r: Vec<i64> = Vec::new();
    let mut i: usize = 0;
    while i < v.len()
        invariant
            i <= v@.len(),
            r@.len() == i,
            forall|k: int| 0 <= k < i ==> r@[k] == v@[k],
        decreases v@.len() - i,
    {
        r.push(v[i]);
        i += 1;
    }
    assert(r@ =~= v@);
    r
}

/// A vector of `n` copies of `v`.
fn const_vec(n: usize, v: i64) -> (r: Vec<i64>)
    ensures
        r@.len() == n,
        forall|i: int| 0 <= i < n ==> r@[i] == v,
{
    let mut r: Vec<i64> = Vec::new();
    let mut i: usize = 0;
    while i < n
        invariant
            i <= n,
            r@.len() == i,
            forall|k: int| 0 <= k < i ==> r@[k] == v,
        decreases n - i,
    {
        r.push(v);
        i += 1;
    }
    r
}

/// Every step of an element-wise `t[i] * a + ns[i] * b` interpolation is
/// representable.
pub open spec fn lin_interp_ok(t: Seq<i64>, a: i64, ns: Seq<i64>, b: i64) -> bool {
    forall|i: int|
        0 <= i < t.len() ==> in_i64(#[trigger] (t[i] * a)) && in_i64(ns[i] * b) && in_i64(
            t[i] * a + ns[i] * b,
        )
}

/// Sum of squared differences `(out[k] - tgt[k])^2` over the first `k`
/// channels.
pub open spec fn sq_err_prefix(out: Seq<i64>, tgt: Seq<i64>, k: int) -> int
    decreases k,
{
    if k <= 0 {
        0
    } else {
        sq_err_prefix(out, tgt, k - 1) + (out[k - 1] - tgt[k - 1]) * (out[k - 1] - tgt[k - 1])
    }
}

/// Sum of squared differences over every target channel.
pub open spec fn sq_err(out: Seq<i64>, tgt: Seq<i64>) -> int {
    sq_err_prefix(out, tgt, tgt.len() as int)
}

/// Every step of the squared-error accumulation is representable.
pub open spec fn sq_err_ok(out: Seq<i64>, tgt: Seq<i64>) -> bool {
    &&& tgt.len() <= out.len()
    &&& forall|k: int|
        0 <= k < tgt.len() ==> in_i64((#[trigger] out[k]) - tgt[k]) && in_i64(
            (out[k] - tgt[k]) * (out[k] - tgt[k]),
        )
    &&& forall|k: int| 0 <= k <= tgt.len() ==> in_i64(#[trigger] sq_err_prefix(out, tgt, k))
}

/// Sum of squared differences with the output given as mathematics, over
/// the first `k` channels.
pub open spec fn sq_err_i_prefix(out: Seq<int>, tgt: Seq<i64>, k: int) -> int
    decreases k,
{
    if k <= 0 {
        0
    } else {
        sq_err_i_prefix(out, tgt, k - 1) + (out[k - 1] - tgt[k - 1]) * (out[k - 1] - tgt[k - 1])
    }
}

/// Sum of squared differences with the output given as mathematics.
pub open spec fn sq_err_i(out: Seq<int>, tgt: Seq<i64>) -> int {
    sq_err_i_prefix(out, tgt, tgt.len() as int)
}

/// Every step of that accumulation is representable.
pub open spec fn sq_err_i_ok(out: Seq<int>, tgt: Seq<i64>) -> bool {
    &&& tgt.len() <= out.len()
    &&& forall|k: int|
        0 <= k < tgt.len() ==> in_i64((#[trigger] out[k]) - tgt[k]) && in_i64(
            (out[k] - tgt[k]) * (out[k] - tgt[k]),
        )
    &&& forall|k: int| 0 <= k <= tgt.len() ==> in_i64(#[trigger] sq_err_i_prefix(out, tgt, k))
}

/// The two squared-error sums agree when the mathematical output is the
/// view of the machine one.
pub proof fn lemma_sq_err_ints(out: Seq<i64>, tgt: Seq<i64>, k: int)
    requires
        k <= tgt.len(),
        tgt.len() <= out.len(),
    ensures
        sq_err_i_prefix(ints(out), tgt, k) == sq_err_prefix(out, tgt, k),
    decreases k,
{
    if k > 0 {
        lemma_sq_err_ints(out, tgt, k - 1);
    }
}

/// Subtracts `factor * x[j]` from element `j` of row `i` of `w`: the
/// shared inner step of both online learning rules.
fn apply_correction(w: &mut DenseRowMatrix, i: usize, factor: i64, x: &Vec<i64>)
    requires
        old(w).wf(),
        i < old(w).rows,
        x@.len() == old(w).cols,
        forall|j: int|
            0 <= j < x@.len() ==> in_i64(#[trigger] (factor * x@[j])) && in_i64(
                old(w).values@[i as int]@[j] - factor * x@[j],
            ),
    ensures
        final(w).wf(),
        final(w).rows == old(w).rows,
        final(w).cols == old(w).cols,
        forall|k: int|
            0 <= k < old(w).values@.len() && k != i ==> final(w).values@[k] == old(w).values@[k],
        forall|j: int|
            0 <= j < old(w).cols ==> final(w).values@[i as int]@[j] as int == old(w).values@[
                i as int
            ]@[j] - factor * x@[j],
{
    let mut j: usize = 0;
    while j < x.len()
        invariant
            j <= x@.len(),
            old(w).wf(),
            i < old(w).rows,
            x@.len() == old(w).cols,
            forall|jj: int|
                0 <= jj < x@.len() ==> in_i64(#[trigger] (factor * x@[jj])) && in_i64(
                    old(w).values@[i as int]@[jj] - factor * x@[jj],
                ),
            w.rows == old(w).rows,
            w.cols == old(w).cols,
            w.values@.len() == old(w).values@.len(),
            forall|k: int|
                0 <= k < old(w).values@.len() && k != i ==> w.values@[k] == old(w).values@[k],
            w.values@[i as int]@.len() == old(w).cols,
            forall|jj: int|
                0 <= jj < j ==> w.values@[i as int]@[jj] as int == old(w).values@[i as int]@[jj]
                    - factor * x@[jj],
            forall|jj: int|
                j <= jj < old(w).cols ==> w.values@[i as int]@[jj] == old(w).values@[i as int]@[jj],
        decreases x@.len() - j,
    {
        let xv = x[j];
        let cur = w.values[i][j];
        let e = w.get_mut(i, j);
        *e = cur - factor * xv;
        j += 1;
    }
    assert forall|k: int| 0 <= k < old(w).rows implies (#[trigger] w.values@[k]@).len()
        == old(w).cols by {
        if k != i {
            assert(w.values@[k] == old(w).values@[k]);
        }
    }
}

/// The mutable part of a reservoir, as mathematics: internal state, last
/// input presented, last output produced.
pub type ReservoirState = (Seq<int>, Seq<int>, Seq<int>);

/// A sequence of `n` zeros.
pub open spec fn zero_seq(n: int) -> Seq<int> {
    Seq::new(n as nat, |i: int| 0)
}

/// An echo state network: a fixed, sparsely connected recurrent reservoir
/// driven by external input, read out by trainable linear weights.
pub struct ESN<A: Activation> {
    /// Leak rate of the state recurrence.
    pub alpha: i64,
    /// The element-wise nonlinearity.
    pub activation: A,
    /// Per-unit adaptive gain, identity value 1.
    pub state_a: Vec<i64>,
    /// Per-unit adaptive bias, identity value 0.
    pub state_b: Vec<i64>,
    /// The reservoir's internal state vector.
    pub internal_state: Vec<i64>,
    /// The last input presented.
    pub input_state: Vec<i64>,
    /// The last output produced.
    pub output_state: Vec<i64>,
    /// Fixed recurrent connectivity (never trained).
    pub internal_weights: SparseRowMatrix,
    /// Fixed input drive (never trained).
    pub input_weights: DenseRowMatrix,
    /// Fixed output feedback (never trained).
    pub feedback_weights: DenseRowMatrix,
    /// Trainable readout from the internal state.
    pub output_weights: DenseRowMatrix,
    /// Trainable direct pass-through from the input.
    pub input_output_weights: DenseRowMatrix,
}

impl<A: Activation> ESN<A> {
    pub open spec fn internal_size(self) -> int {
        self.internal_weights.rows as int
    }

    pub open spec fn input_size(self) -> int {
        self.input_weights.cols as int
    }

    pub open spec fn output_size(self) -> int {
        self.output_weights.rows as int
    }

    /// Dimension invariant: the weight matrices and state vectors agree on
    /// the reservoir, input and output sizes.
    pub open spec fn wf(self) -> bool {
        &&& self.internal_weights.wf()
        &&& self.input_weights.wf()
        &&& self.feedback_weights.wf()
        &&& self.output_weights.wf()
        &&& self.input_output_weights.wf()
        &&& self.internal_weights.cols == self.internal_weights.rows
        &&& self.input_weights.rows == self.internal_size()
        &&& self.feedback_weights.rows == self.internal_size()
        &&& self.feedback_weights.cols == self.output_size()
        &&& self.output_weights.cols == self.internal_size()
        &&& self.input_output_weights.rows == self.output_size()
        &&& self.input_output_weights.cols == self.input_size()
        &&& self.internal_state@.len() == self.internal_size()
        &&& self.input_state@.len() == self.input_size()
        &&& self.output_state@.len() == self.output_size()
        &&& self.state_a@.len() == self.internal_size()
        &&& self.state_b@.len() == self.internal_size()
    }

    /// The current mutable state.
    pub open spec fn st(self) -> ReservoirState {
        (ints(self.internal_state@), ints(self.input_state@), ints(self.output_state@))
    }

    /// The state that `reset` establishes.
    pub open spec fn reset_st(self) -> ReservoirState {
        (zero_seq(self.internal_size()), zero_seq(self.input_size()), zero_seq(self.output_size()))
    }

    /// Recurrent drive of unit `r`: internal connectivity times state.
    pub open spec fn pre1(self, internal: Seq<int>, r: int) -> int {
        self.internal_weights.row_dot(r, internal)
    }

    /// Plus the external drive of unit `r`.
    pub open spec fn pre2(self, internal: Seq<int>, inp: Seq<int>, r: int) -> int {
        self.pre1(internal, r) + self.input_weights.row_dot(r, inp)
    }

    /// Plus the output feedback of unit `r`: the full pre-activation.
    pub open spec fn pre3(self, internal: Seq<int>, inp: Seq<int>, fb: Seq<int>, r: int) -> int {
        self.pre2(internal, inp, r) + self.feedback_weights.row_dot(r, fb)
    }

    /// The affine argument handed to the nonlinearity at unit `r`.
    pub open spec fn act_in(self, internal: Seq<int>, inp: Seq<int>, fb: Seq<int>, r: int) -> int {
        self.state_a@[r] * self.pre3(internal, inp, fb, r) + self.state_b@[r]
    }

    /// The activated value of unit `r`.
    pub open spec fn act_out(self, internal: Seq<int>, inp: Seq<int>, fb: Seq<int>, r: int) -> int {
        self.activation.spec_apply(self.act_in(internal, inp, fb, r))
    }

    /// Leaky integration at unit `r`: the defining recurrence.
    pub open spec fn next_internal_at(
        self,
        internal: Seq<int>,
        inp: Seq<int>,
        fb: Seq<int>,
        r: int,
    ) -> int {
        internal[r] * (1 - self.alpha) + self.act_out(internal, inp, fb, r) * self.alpha
    }

    /// The whole internal state after one step.
    pub open spec fn next_internal(self, internal: Seq<int>, inp: Seq<int>, fb: Seq<int>) -> Seq<
        int,
    > {
        Seq::new(self.internal_size() as nat, |r: int| self.next_internal_at(internal, inp, fb, r))
    }

    /// Output channel `i` read out from a given internal state and input.
    pub open spec fn output_at(self, internal: Seq<int>, inp: Seq<int>, i: int) -> int {
        self.output_weights.row_dot(i, internal) + self.input_output_weights.row_dot(i, inp)
    }

    /// The whole output vector read out from a given internal state and input.
    pub open spec fn output_of(self, internal: Seq<int>, inp: Seq<int>) -> Seq<int> {
        Seq::new(self.output_size() as nat, |i: int| self.output_at(internal, inp, i))
    }

    /// One whole state update as a mathematical function: the feedback is
    /// the teacher when one is given (teacher forcing), else the previous
    /// output.
    pub open spec fn step(self, s: ReservoirState, inp: Seq<int>, teacher: Option<Seq<int>>) -> ReservoirState {
        let fb = match teacher {
            Some(t) => t,
            None => s.2,
        };
        let ni = self.next_internal(s.0, inp, fb);
        (ni, inp, self.output_of(ni, inp))
    }

    /// Every intermediate value of one state update, taken from state `s`
    /// with input `inp` and feedback `fb`, is representable in the scalar
    /// type.
    pub open spec fn update_ok(self, s: ReservoirState, inp: Seq<int>, fb: Seq<int>) -> bool {
        &&& forall|r: int|
            0 <= r < self.internal_size() ==> sdot_steps_ok(
                0,
                #[trigger] self.internal_weights.row_idx(r),
                self.internal_weights.row_vals(r),
                s.0,
            )
        &&& forall|r: int|
            0 <= r < self.internal_size() ==> dot_steps_ok(
                self.pre1(s.0, r),
                #[trigger] self.input_weights.row(r),
                inp,
            )
        &&& forall|r: int|
            0 <= r < self.internal_size() ==> dot_steps_ok(
                self.pre2(s.0, inp, r),
                #[trigger] self.feedback_weights.row(r),
                fb,
            )
        &&& forall|r: int|
            0 <= r < self.internal_size() ==> in_i64(
                self.state_a@[r] * #[trigger] self.pre3(s.0, inp, fb, r),
            ) && in_i64(self.act_in(s.0, inp, fb, r))
        &&& in_i64(1 - self.alpha)
        &&& forall|r: int|
            0 <= r < self.internal_size() ==> in_i64(s.0[r] * (1 - self.alpha)) && in_i64(
                (#[trigger] self.act_out(s.0, inp, fb, r)) * self.alpha,
            ) && in_i64(self.next_internal_at(s.0, inp, fb, r))
        &&& forall|i: int|
            0 <= i < self.output_size() ==> dot_steps_ok(
                0,
                #[trigger] self.output_weights.row(i),
                self.next_internal(s.0, inp, fb),
            )
        &&& forall|i: int|
            0 <= i < self.output_size() ==> dot_steps_ok(
                self.output_weights.row_dot(i, self.next_internal(s.0, inp, fb)),
                #[trigger] self.input_output_weights.row(i),
                inp,
            )
    }

    /// The feedback vector an update call will use.
    pub open spec fn fb_of(self, teacher: Option<&Vec<i64>>) -> Seq<int> {
        match teacher {
            Some(t) => ints(t@),
            None => ints(self.output_state@),
        }
    }

    /// Builds a reservoir from generated weight matrices.  The state
    /// vectors start at zero and the per-unit adaptation parameters at
    /// their identity values.
    pub fn new(
        alpha: i64,
        activation: A,
        internal_weights: SparseRowMatrix,
        input_weights: DenseRowMatrix,
        output_weights: DenseRowMatrix,
        feedback_weights: DenseRowMatrix,
        input_output_weights: DenseRowMatrix,
    ) -> (r: ESN<A>)
        requires
            internal_weights.wf(),
            input_weights.wf(),
            output_weights.wf(),
            feedback_weights.wf(),
            input_output_weights.wf(),
            internal_weights.cols == internal_weights.rows,
            input_weights.rows == internal_weights.rows,
            feedback_weights.rows == internal_weights.rows,
            feedback_weights.cols == output_weights.rows,
            output_weights.cols == internal_weights.rows,
            input_output_weights.rows == output_weights.rows,
            input_output_weights.cols == input_weights.cols,
        ensures
            r.wf(),
            r.alpha == alpha,
            r.activation == activation,
            r.internal_weights == internal_weights,
            r.input_weights == input_weights,
            r.output_weights == output_weights,
            r.feedback_weights == feedback_weights,
            r.input_output_weights == input_output_weights,
            r.st() == r.reset_st(),
            forall|i: int| 0 <= i < r.state_a@.len() ==> r.state_a@[i] == 1i64,
            forall|i: int| 0 <= i < r.state_b@.len() ==> r.state_b@[i] == 0i64,
    {
        let internal_state_size = internal_weights.rows;
        let input_size = input_weights.cols;
        let output_size = output_weights.rows;

        let r = ESN {
            alpha,
            activation,
            state_a: const_vec(internal_state_size, 1),
            state_b: const_vec(internal_state_size, 0),
            internal_state: const_vec(internal_state_size, 0),
            input_state: const_vec(input_size, 0),
            output_state: const_vec(output_size, 0),
            internal_weights,
            input_weights,
            feedback_weights,
            output_weights,
            input_output_weights,
        };
        proof {
            assert(ints(r.internal_state@) =~= zero_seq(r.internal_size()));
            assert(ints(r.input_state@) =~= zero_seq(r.input_size()));
            assert(ints(r.output_state@) =~= zero_seq(r.output_size()));
        }
        r
    }

    /// What `reset` leaves behind, relative to the state before the call.
    pub open spec fn reset_rel(pre: ESN<A>, post: ESN<A>) -> bool {
        &&& post.st() == pre.reset_st()
        &&& post.state_a@.len() == pre.state_a@.len()
        &&& forall|i: int| 0 <= i < post.state_a@.len() ==> post.state_a@[i] == 1i64
        &&& post.state_b@.len() == pre.state_b@.len()
        &&& forall|i: int| 0 <= i < post.state_b@.len() ==> post.state_b@[i] == 0i64
        &&& post.alpha == pre.alpha
        &&& post.activation == pre.activation
        &&& post.internal_weights == pre.internal_weights
        &&& post.input_weights == pre.input_weights
        &&& post.feedback_weights == pre.feedback_weights
        &&& post.output_weights == pre.output_weights
        &&& post.input_output_weights == pre.input_output_weights
    }

    /// Clears the state vectors and restores the adaptation parameters to
    /// their identity values, so that no state leaks from training into a
    /// later evaluation pass.
    pub fn reset(&mut self)
        requires
            old(self).wf(),
        ensures
            final(self).wf(),
            Self::reset_rel(*old(self), *final(self)),
    {
        <i64 as ZeroOne>::fill_zero(&mut self.internal_state);
        <i64 as ZeroOne>::fill_zero(&mut self.input_state);
        <i64 as ZeroOne>::fill_zero(&mut self.output_state);

        let n = self.state_a.len();
        self.state_a = const_vec(n, 1);
        <i64 as ZeroOne>::fill_zero(&mut self.state_b);

        proof {
            assert(ints(self.internal_state@) =~= zero_seq(old(self).internal_size()));
            assert(ints(self.input_state@) =~= zero_seq(old(self).input_size()));
            assert(ints(self.output_state@) =~= zero_seq(old(self).output_size()));
        }
    }

    /// Resetting twice in a row leaves exactly the state that one reset
    /// leaves.
    pub proof fn lemma_reset_idempotent(e0: ESN<A>, e1: ESN<A>, e2: ESN<A>)
        requires
            Self::reset_rel(e0, e1),
            Self::reset_rel(e1, e2),
        ensures
            e2.st() == e1.st(),
            e2.state_a@ == e1.state_a@,
            e2.state_b@ == e1.state_b@,
            e2.internal_weights == e1.internal_weights,
            e2.input_weights == e1.input_weights,
            e2.feedback_weights == e1.feedback_weights,
            e2.output_weights == e1.output_weights,
            e2.input_output_weights == e1.input_output_weights,
            e2.alpha == e1.alpha,
            e2.activation == e1.activation,
    {
        assert(e1.internal_size() == e0.internal_size());
        assert(e1.input_size() == e0.input_size());
        assert(e1.output_size() == e0.output_size());
        assert(e2.state_a@ =~= e1.state_a@);
        assert(e2.state_b@ =~= e1.state_b@);
    }

    pub fn get_output_state(&self) -> (r: &Vec<i64>)
        ensures
            r@ == self.output_state@,
    {
        &self.output_state
    }

    /// One reservoir step: accumulate the recurrent, input and feedback
    /// drives, pass each unit through its affine-then-nonlinear transform,
    /// integrate leakily into the internal state, recompute the output,
    /// and record the input.
    pub fn update(&mut self, input: &Vec<i64>, teacher: Option<&Vec<i64>>)
        requires
            old(self).wf(),
            input@.len() == old(self).input_size(),
            match teacher {
                Some(t) => t@.len() == old(self).output_size(),
                None => true,
            },
            old(self).update_ok(old(self).st(), ints(input@), old(self).fb_of(teacher)),
        ensures
            final(self).wf(),
            final(self).st() == old(self).step(
                old(self).st(),
                ints(input@),
                match teacher {
                    Some(t) => Some(ints(t@)),
                    None => None,
                },
            ),
            final(self).alpha == old(self).alpha,
            final(self).activation == old(self).activation,
            final(self).state_a == old(self).state_a,
            final(self).state_b == old(self).state_b,
            final(self).internal_weights == old(self).internal_weights,
            final(self).input_weights == old(self).input_weights,
            final(self).feedback_weights == old(self).feedback_weights,
            final(self).output_weights == old(self).output_weights,
            final(self).input_output_weights == old(self).input_output_weights,
    {
        let ghost s0 = old(self).st();
        let ghost inpv = ints(input@);
        let ghost fbv = old(self).fb_of(teacher);

        let n = self.internal_state.len();
        let mut local_state = const_vec(n, 0);

        assert(self.internal_weights.mul_ok(ints(self.internal_state@), local_state@)) by {
            assert(forall|r: int|
                0 <= r < self.internal_weights.rows ==> local_state@[r] == 0i64);
        }
        self.internal_weights.mul_in_place(&self.internal_state, &mut local_state);
        assert(forall|r: int|
            0 <= r < old(self).internal_size() ==> local_state@[r] as int == #[trigger] old(self).pre1(s0.0, r));

        assert(self.input_weights.mul_ok(inpv, local_state@));
        self.input_weights.mul_in_place(input, &mut local_state);
        assert(forall|r: int|
            0 <= r < old(self).internal_size() ==> local_state@[r] as int == #[trigger] old(self).pre2(s0.0, inpv, r));

        match teacher {
            Some(v) => {
                assert(self.feedback_weights.mul_ok(fbv, local_state@));
                self.feedback_weights.mul_in_place(v, &mut local_state);
            },
            None => {
                assert(self.feedback_weights.mul_ok(fbv, local_state@));
                self.feedback_weights.mul_in_place(&self.output_state, &mut local_state);
            },
        }
        assert(forall|r: int|
            0 <= r < old(self).internal_size() ==> local_state@[r] as int == #[trigger] old(self).pre3(s0.0, inpv, fbv, r));

        assert forall|i: int| 0 <= i < local_state@.len() implies in_i64(
            #[trigger] (self.state_a@[i] * local_state@[i]),
        ) && in_i64(self.state_a@[i] * local_state@[i] + self.state_b@[i]) by {
            assert(local_state@[i] as int == old(self).pre3(s0.0, inpv, fbv, i));
            assert(in_i64(old(self).state_a@[i] * old(self).pre3(s0.0, inpv, fbv, i)));
            assert(in_i64(old(self).act_in(s0.0, inpv, fbv, i)));
        }
        self.map_activation(&mut local_state);
        assert(forall|r: int|
            0 <= r < old(self).internal_size() ==> local_state@[r] as int == #[trigger] old(self).act_out(s0.0, inpv, fbv, r));

        let al = self.alpha;
        let coef = 1 - al;
        let mut integrated = copy_vec(&self.internal_state);
        assert(lin_interp_ok(integrated@, coef, local_state@, al)) by {
            assert forall|i: int| 0 <= i < integrated@.len() implies in_i64(
                #[trigger] (integrated@[i] * coef),
            ) && in_i64(local_state@[i] * al) && in_i64(
                integrated@[i] * coef + local_state@[i] * al,
            ) by {
            assert(coef as int == 1 - old(self).alpha);
            assert(s0.0[i] == integrated@[i] as int);
            assert(local_state@[i] as int == old(self).act_out(s0.0, inpv, fbv, i));
            assert(in_i64(s0.0[i] * (1 - old(self).alpha)));
            assert(in_i64(old(self).act_out(s0.0, inpv, fbv, i) * old(self).alpha));
            assert(in_i64(old(self).next_internal_at(s0.0, inpv, fbv, i)));
            }
        }
        Self::lin_interp(&mut integrated, coef, &local_state, al);
        self.internal_state = integrated;
        let ghost ni = old(self).next_internal(s0.0, inpv, fbv);
        assert(ints(self.internal_state@) =~= ni);

        <i64 as ZeroOne>::fill_zero(&mut self.output_state);
        assert(self.output_weights.mul_ok(ni, self.output_state@)) by {
            assert(forall|i: int| 0 <= i < self.output_weights.rows ==> self.output_state@[i] == 0i64);
        }
        DenseRowMatrix::mul_in_place(&self.output_weights, &self.internal_state, &mut self.output_state);
        assert(self.input_output_weights.mul_ok(inpv, self.output_state@));
        DenseRowMatrix::mul_in_place(&self.input_output_weights, input, &mut self.output_state);
        assert(forall|i: int|
            0 <= i < old(self).output_size() ==> self.output_state@[i] as int == #[trigger] old(self).output_at(ni, inpv, i));

        self.input_state = copy_vec(input);

        proof {
            let stepped = old(self).step(s0, inpv, match teacher {
                Some(t) => Some(ints(t@)),
                None => None,
            });
            assert(ints(self.internal_state@) =~= stepped.0);
            assert(ints(self.input_state@) =~= stepped.1);
            assert(ints(self.output_state@) =~= stepped.2);
        }
    }

    /// Applies the per-unit affine-then-nonlinear transform to each
    /// element of `s`.
    fn map_activation(&self, s: &mut Vec<i64>)
        requires
            old(s)@.len() == self.state_a@.len(),
            old(s)@.len() == self.state_b@.len(),
            forall|i: int|
                0 <= i < old(s)@.len() ==> in_i64(#[trigger] (self.state_a@[i] * old(s)@[i]))
                    && in_i64(self.state_a@[i] * old(s)@[i] + self.state_b@[i]),
        ensures
            final(s)@.len() == old(s)@.len(),
            forall|i: int|
                0 <= i < old(s)@.len() ==> final(s)@[i] as int
                    == self.activation.spec_apply(
                    #[trigger] (self.state_a@[i] * old(s)@[i] + self.state_b@[i]),
                ),
    {
        let mut index: usize = 0;
        while index < s.len()
            invariant
                index <= s@.len(),
                s@.len() == old(s)@.len(),
                old(s)@.len() == self.state_a@.len(),
                old(s)@.len() == self.state_b@.len(),
                forall|i: int|
                    0 <= i < old(s)@.len() ==> in_i64(#[trigger] (self.state_a@[i] * old(s)@[i]))
                        && in_i64(self.state_a@[i] * old(s)@[i] + self.state_b@[i]),
                forall|i: int| index <= i < s@.len() ==> s@[i] == old(s)@[i],
                forall|i: int|
                    0 <= i < index ==> s@[i] as int == self.activation.spec_apply(
                        #[trigger] (self.state_a@[i] * old(s)@[i] + self.state_b@[i]),
                    ),
            decreases s@.len() - index,
        {
            let u = s[index];
            let v = self.activation.apply(self.state_a[index] * u + self.state_b[index]);
            s[index] = v;
            index += 1;
        }
    }

    /// Element-wise `target = target * a + new_state * b`: the leaky
    /// interpolation between the previous and the freshly computed state.
    fn lin_interp(target: &mut Vec<i64>, a: i64, new_state: &Vec<i64>, b: i64)
        requires
            old(target)@.len() == new_state@.len(),
            lin_interp_ok(old(target)@, a, new_state@, b),
        ensures
            final(target)@.len() == old(target)@.len(),
            forall|i: int|
                0 <= i < old(target)@.len() ==> final(target)@[i] as int == #[trigger] (old(
                    target,
                )@[i] * a + new_state@[i] * b),
    {
        let mut index: usize = 0;
        while index < target.len()
            invariant
                index <= target@.len(),
                target@.len() == old(target)@.len(),
                old(target)@.len() == new_state@.len(),
                lin_interp_ok(old(target)@, a, new_state@, b),
                forall|i: int| index <= i < target@.len() ==> target@[i] == old(target)@[i],
                forall|i: int|
                    0 <= i < index ==> target@[i] as int == #[trigger] (old(target)@[i] * a
                        + new_state@[i] * b),
            decreases target@.len() - index,
        {
            let t = target[index];
            target[index] = t * a + new_state[index] * b;
            index += 1;
        }
    }

    /// Sum of squared differences between the current output and `target`.
    pub fn error_square_sum(&self, target: &Vec<i64>) -> (err: i64)
        requires
            sq_err_ok(self.output_state@, target@),
        ensures
            err as int == sq_err(self.output_state@, target@),
    {
        let mut err_sum: i64 = 0;
        let mut i: usize = 0;
        while i < target.len()
            invariant
                i <= target@.len(),
                sq_err_ok(self.output_state@, target@),
                err_sum as int == sq_err_prefix(self.output_state@, target@, i as int),
            decreases target@.len() - i,
        {
            assert(in_i64(sq_err_prefix(self.output_state@, target@, i + 1)));
            let diff = self.output_state[i] - target[i];
            err_sum = err_sum + diff * diff;
            i += 1;
        }
        err_sum
    }

    /// The per-weight learning rate: `rate` divided by the total number of
    /// readout inputs, so the aggregate update magnitude is roughly
    /// invariant to reservoir size.
    pub open spec fn eff_rate(self, rate: i64) -> int {
        rate as int / (self.input_size() + self.internal_size())
    }

    /// The correction factor applied to every weight feeding channel `i`.
    pub open spec fn lo_factor(self, tgt: Seq<i64>, rate: i64, i: int) -> int {
        self.eff_rate(rate) * (self.output_state@[i] - tgt[i])
    }

    /// Every intermediate value of one gradient-rule call is representable.
    pub open spec fn learn_ok(self, tgt: Seq<i64>, rate: i64) -> bool {
        &&& forall|i: int| 0 <= i < tgt.len() ==> in_i64(#[trigger] self.lo_factor(tgt, rate, i))
        &&& forall|i: int, j: int|
            0 <= i < tgt.len() && 0 <= j < self.input_size() ==> in_i64(
                #[trigger] (self.lo_factor(tgt, rate, i) * self.input_state@[j]),
            ) && in_i64(
                self.input_output_weights.values@[i]@[j] - self.lo_factor(tgt, rate, i)
                    * self.input_state@[j],
            )
        &&& forall|i: int, j: int|
            0 <= i < tgt.len() && 0 <= j < self.internal_size() ==> in_i64(
                #[trigger] (self.lo_factor(tgt, rate, i) * self.internal_state@[j]),
            ) && in_i64(
                self.output_weights.values@[i]@[j] - self.lo_factor(tgt, rate, i)
                    * self.internal_state@[j],
            )
    }

    /// The stochastic gradient (delta) rule: returns the summed squared
    /// error over all output channels and moves every readout weight
    /// feeding channel `i` by `-eff_rate * diff_i * value`, where `value`
    /// is the input or internal-state element the weight reads.
    pub fn learn_online(&mut self, target: &Vec<i64>, rate: i64) -> (err: i64)
        requires
            old(self).wf(),
            target@.len() == old(self).output_size(),
            rate >= 0,
            old(self).input_size() + old(self).internal_size() > 0,
            old(self).input_size() + old(self).internal_size() <= usize::MAX,
            sq_err_ok(old(self).output_state@, target@),
            old(self).learn_ok(target@, rate),
        ensures
            final(self).wf(),
            err as int == sq_err(old(self).output_state@, target@),
            forall|i: int, j: int|
                0 <= i < old(self).output_size() && 0 <= j < old(self).input_size() ==> final(self).input_output_weights.values@[i]@[j] as int == old(self).input_output_weights.values@[i]@[j] - #[trigger] (old(self).lo_factor(
                    target@,
                    rate,
                    i,
                ) * old(self).input_state@[j]),
            forall|i: int, j: int|
                0 <= i < old(self).output_size() && 0 <= j < old(self).internal_size() ==> final(self).output_weights.values@[i]@[j] as int == old(self).output_weights.values@[i]@[j]
                    - #[trigger] (old(self).lo_factor(target@, rate, i) * old(self).internal_state@[j]),
            final(self).output_weights.rows == old(self).output_weights.rows,
            final(self).output_weights.cols == old(self).output_weights.cols,
            final(self).input_output_weights.rows == old(self).input_output_weights.rows,
            final(self).input_output_weights.cols == old(self).input_output_weights.cols,
            final(self).internal_state == old(self).internal_state,
            final(self).input_state == old(self).input_state,
            final(self).output_state == old(self).output_state,
            final(self).state_a == old(self).state_a,
            final(self).state_b == old(self).state_b,
            final(self).alpha == old(self).alpha,
            final(self).activation == old(self).activation,
            final(self).internal_weights == old(self).internal_weights,
            final(self).input_weights == old(self).input_weights,
            final(self).feedback_weights == old(self).feedback_weights,
    {
        let mut err_sum: i64 = 0;
        let total = self.input_state.len() + self.internal_state.len();
        let effective_rate = ((rate as u64) / (total as u64)) as i64;
        assert(effective_rate as int == old(self).eff_rate(rate));

        let mut i: usize = 0;
        while i < target.len()
            invariant
                i <= target@.len(),
                old(self).wf(),
                target@.len() == old(self).output_size(),
                rate >= 0,
                sq_err_ok(old(self).output_state@, target@),
                old(self).learn_ok(target@, rate),
                effective_rate as int == old(self).eff_rate(rate),
                err_sum as int == sq_err_prefix(old(self).output_state@, target@, i as int),
                self.input_output_weights.rows == old(self).input_output_weights.rows,
                self.input_output_weights.cols == old(self).input_output_weights.cols,
                self.input_output_weights.wf(),
                self.output_weights.rows == old(self).output_weights.rows,
                self.output_weights.cols == old(self).output_weights.cols,
                self.output_weights.wf(),
                forall|k: int, j: int|
                    i <= k < old(self).output_size() && 0 <= j < old(self).input_size()
                        ==> #[trigger] self.input_output_weights.values@[k]@[j] == old(self).input_output_weights.values@[k]@[j],
                forall|k: int, j: int|
                    i <= k < old(self).output_size() && 0 <= j < old(self).internal_size()
                        ==> #[trigger] self.output_weights.values@[k]@[j] == old(self).output_weights.values@[k]@[j],
                forall|k: int, j: int|
                    0 <= k < i && 0 <= j < old(self).input_size()
                        ==> #[trigger] self.input_output_weights.values@[k]@[j] as int == old(self).input_output_weights.values@[k]@[j] - old(self).lo_factor(target@, rate, k)
                        * old(self).input_state@[j],
                forall|k: int, j: int|
                    0 <= k < i && 0 <= j < old(self).internal_size()
                        ==> #[trigger] self.output_weights.values@[k]@[j] as int == old(self).output_weights.values@[k]@[j] - old(self).lo_factor(target@, rate, k) * old(self).internal_state@[j],
                self.internal_state == old(self).internal_state,
                self.input_state == old(self).input_state,
                self.output_state == old(self).output_state,
                self.state_a == old(self).state_a,
                self.state_b == old(self).state_b,
                self.alpha == old(self).alpha,
                self.activation == old(self).activation,
                self.internal_weights == old(self).internal_weights,
                self.input_weights == old(self).input_weights,
                self.feedback_weights == old(self).feedback_weights,
            decreases target@.len() - i,
        {
            assert(in_i64(sq_err_prefix(old(self).output_state@, target@, i + 1)));
            let diff = self.output_state[i] - target[i];
            err_sum = err_sum + diff * diff;

            assert(in_i64(effective_rate * diff)) by {
                assert(in_i64(old(self).lo_factor(target@, rate, i as int)));
                assert(diff as int == old(self).output_state@[i as int] - target@[i as int]);
            }
            let f = effective_rate * diff;
            assert(f as int == old(self).lo_factor(target@, rate, i as int));

            assert forall|j: int| 0 <= j < self.input_state@.len() implies in_i64(
                #[trigger] (f * self.input_state@[j]),
            ) && in_i64(
                self.input_output_weights.values@[i as int]@[j] - f * self.input_state@[j],
            ) by {
                assert(in_i64(
                    old(self).lo_factor(target@, rate, i as int) * old(self).input_state@[j],
                ));
            }
            apply_correction(&mut self.input_output_weights, i, f, &self.input_state);

            assert forall|j: int| 0 <= j < self.internal_state@.len() implies in_i64(
                #[trigger] (f * self.internal_state@[j]),
            ) && in_i64(
                self.output_weights.values@[i as int]@[j] - f * self.internal_state@[j],
            ) by {
                assert(in_i64(
                    old(self).lo_factor(target@, rate, i as int) * old(self).internal_state@[j],
                ));
            }
            apply_correction(&mut self.output_weights, i, f, &self.internal_state);

            i += 1;
        }
        err_sum
    }

    /// The history window as it stands after a call that pushes the
    /// current step in front and, with the window full, evicts the oldest.
    pub open spec fn rls_history(self, h: Seq<SnapshotView>, tgt: Seq<i64>, n: int) -> Seq<
        SnapshotView,
    > {
        let kept = if h.len() >= n {
            h.drop_last()
        } else {
            h
        };
        seq![(tgt, self.output_state@, self.internal_state@, self.input_state@)] + kept
    }

    /// Every intermediate value of one windowed-correction call over the
    /// window `h` is representable.
    pub open spec fn rls_ok(self, h: Seq<SnapshotView>, rate: i64, lambda: i64) -> bool {
        &&& forall|k: int| 0 <= k <= h.len() ==> in_i64(#[trigger] pow_of(lambda, k))
        &&& forall|k: int| 0 <= k <= h.len() ==> in_i64(rate * #[trigger] pow_of(lambda, k))
        &&& forall|k: int, i: int|
            0 <= k < h.len() && 0 <= i < self.output_size() ==> in_i64(
                (#[trigger] h[k].1[i]) - h[k].0[i],
            ) && in_i64((rate * pow_of(lambda, k)) * (h[k].1[i] - h[k].0[i]))
        &&& forall|k: int, i: int, j: int|
            0 <= k < h.len() && 0 <= i < self.output_size() && 0 <= j < self.input_size()
                ==> in_i64(#[trigger] rls_term_io(h, rate, lambda, i, j, k))
        &&& forall|k: int, i: int, j: int|
            0 <= k < h.len() && 0 <= i < self.output_size() && 0 <= j < self.internal_size()
                ==> in_i64(#[trigger] rls_term_out(h, rate, lambda, i, j, k))
        &&& forall|k: int, i: int, j: int|
            0 <= k <= h.len() && 0 <= i < self.output_size() && 0 <= j < self.input_size()
                ==> in_i64(
                self.input_output_weights.values@[i]@[j] - #[trigger] rls_sum_io(
                    h,
                    rate,
                    lambda,
                    i,
                    j,
                    k,
                ),
            )
        &&& forall|k: int, i: int, j: int|
            0 <= k <= h.len() && 0 <= i < self.output_size() && 0 <= j < self.internal_size()
                ==> in_i64(
                self.output_weights.values@[i]@[j] - #[trigger] rls_sum_out(
                    h,
                    rate,
                    lambda,
                    i,
                    j,
                    k,
                ),
            )
    }

    /// The windowed weighted correction: pushes the current step onto a
    /// bounded history (evicting the oldest once `n` snapshots are held),
    /// then replays every remembered snapshot as a gradient-style
    /// correction scaled by `rate` and by the geometric decay
    /// `lambda^k`, most recent first.  A heuristic exponentially
    /// weighted replay over a bounded window; no covariance matrix is
    /// tracked.
    pub fn rls(
        &mut self,
        n: usize,
        history: &mut VecDeque<Snapshot>,
        target: &Vec<i64>,
        lambda: i64,
        rate: i64,
    )
        requires
            old(self).wf(),
            target@.len() == old(self).output_size(),
            n >= 1,
            old(history)@.len() <= n,
            snaps_wf(
                snaps_view(old(history)@),
                old(self).output_size(),
                old(self).internal_size(),
                old(self).input_size(),
            ),
            old(self).rls_ok(
                old(self).rls_history(snaps_view(old(history)@), target@, n as int),
                rate,
                lambda,
            ),
        ensures
            final(self).wf(),
            final(history)@.len() == (if old(history)@.len() >= n {
                n as int
            } else {
                old(history)@.len() as int + 1
            }),
            final(history)@.len() <= n,
            snap_view(final(history)@[0]) == (
                target@,
                old(self).output_state@,
                old(self).internal_state@,
                old(self).input_state@,
            ),
            forall|k: int|
                1 <= k < final(history)@.len() ==> final(history)@[k] == old(history)@[k - 1],
            forall|i: int, j: int|
                0 <= i < old(self).output_size() && 0 <= j < old(self).input_size() ==> final(self).input_output_weights.values@[i]@[j] as int == old(self).input_output_weights.values@[i]@[j] - #[trigger] rls_sum_io(
                    old(self).rls_history(snaps_view(old(history)@), target@, n as int),
                    rate,
                    lambda,
                    i,
                    j,
                    old(self).rls_history(snaps_view(old(history)@), target@, n as int).len() as int,
                ),
            forall|i: int, j: int|
                0 <= i < old(self).output_size() && 0 <= j < old(self).internal_size() ==> final(self).output_weights.values@[i]@[j] as int == old(self).output_weights.values@[i]@[j]
                    - #[trigger] rls_sum_out(
                    old(self).rls_history(snaps_view(old(history)@), target@, n as int),
                    rate,
                    lambda,
                    i,
                    j,
                    old(self).rls_history(snaps_view(old(history)@), target@, n as int).len() as int,
                ),
            final(self).output_weights.rows == old(self).output_weights.rows,
            final(self).output_weights.cols == old(self).output_weights.cols,
            final(self).input_output_weights.rows == old(self).input_output_weights.rows,
            final(self).input_output_weights.cols == old(self).input_output_weights.cols,
            final(self).internal_state == old(self).internal_state,
            final(self).input_state == old(self).input_state,
            final(self).output_state == old(self).output_state,
            final(self).state_a == old(self).state_a,
            final(self).state_b == old(self).state_b,
            final(self).alpha == old(self).alpha,
            final(self).activation == old(self).activation,
            final(self).internal_weights == old(self).internal_weights,
            final(self).input_weights == old(self).input_weights,
            final(self).feedback_weights == old(self).feedback_weights,
    {
        let ghost nh = old(self).rls_history(snaps_view(old(history)@), target@, n as int);

        if history.len() >= n {
            history.pop_back();
        }

        let snap = (
            copy_vec(target),
            copy_vec(&self.output_state),
            copy_vec(&self.internal_state),
            copy_vec(&self.input_state),
        );
        history.push_front(snap);

        assert(snaps_view(history@) =~= nh);
        assert(history@.len() == nh.len());

        let mut l: i64 = 1;
        let mut k: usize = 0;
        while k < history.len()
            invariant
                old(self).wf(),
                target@.len() == old(self).output_size(),
                snaps_view(history@) == nh,
                history@.len() == nh.len(),
                snaps_wf(nh, old(self).output_size(), old(self).internal_size(), old(self).input_size()),
                old(self).rls_ok(nh, rate, lambda),
                k <= nh.len(),
                l as int == pow_of(lambda, k as int),
                self.input_output_weights.rows == old(self).input_output_weights.rows,
                self.input_output_weights.cols == old(self).input_output_weights.cols,
                self.input_output_weights.wf(),
                self.output_weights.rows == old(self).output_weights.rows,
                self.output_weights.cols == old(self).output_weights.cols,
                self.output_weights.wf(),
                forall|i: int, j: int|
                    0 <= i < old(self).output_size() && 0 <= j < old(self).input_size()
                        ==> #[trigger] self.input_output_weights.values@[i]@[j] as int == old(self).input_output_weights.values@[i]@[j] - rls_sum_io(
                        nh,
                        rate,
                        lambda,
                        i,
                        j,
                        k as int,
                    ),
                forall|i: int, j: int|
                    0 <= i < old(self).output_size() && 0 <= j < old(self).internal_size()
                        ==> #[trigger] self.output_weights.values@[i]@[j] as int == old(self).output_weights.values@[i]@[j] - rls_sum_out(nh, rate, lambda, i, j, k as int),
                self.internal_state == old(self).internal_state,
                self.input_state == old(self).input_state,
                self.output_state == old(self).output_state,
                self.state_a == old(self).state_a,
                self.state_b == old(self).state_b,
                self.alpha == old(self).alpha,
                self.activation == old(self).activation,
                self.internal_weights == old(self).internal_weights,
                self.input_weights == old(self).input_weights,
                self.feedback_weights == old(self).feedback_weights,
            decreases nh.len() - k,
        {
            assert(nh[k as int] == snap_view(history@[k as int]));
            let outsz = history[k].0.len();
            assert(outsz == old(self).output_size());

            let mut i: usize = 0;
            while i < outsz
                invariant
                    old(self).wf(),
                    target@.len() == old(self).output_size(),
                    snaps_view(history@) == nh,
                    history@.len() == nh.len(),
                    snaps_wf(nh, old(self).output_size(), old(self).internal_size(), old(self).input_size()),
                    old(self).rls_ok(nh, rate, lambda),
                    k < nh.len(),
                    i <= outsz,
                    outsz == old(self).output_size(),
                    l as int == pow_of(lambda, k as int),
                    self.input_output_weights.rows == old(self).input_output_weights.rows,
                    self.input_output_weights.cols == old(self).input_output_weights.cols,
                    self.input_output_weights.wf(),
                    self.output_weights.rows == old(self).output_weights.rows,
                    self.output_weights.cols == old(self).output_weights.cols,
                    self.output_weights.wf(),
                    forall|ii: int, j: int|
                        0 <= ii < i && 0 <= j < old(self).input_size()
                            ==> #[trigger] self.input_output_weights.values@[ii]@[j] as int == old(self).input_output_weights.values@[ii]@[j] - rls_sum_io(
                            nh,
                            rate,
                            lambda,
                            ii,
                            j,
                            k + 1,
                        ),
                    forall|ii: int, j: int|
                        i <= ii < old(self).output_size() && 0 <= j < old(self).input_size()
                            ==> #[trigger] self.input_output_weights.values@[ii]@[j] as int == old(self).input_output_weights.values@[ii]@[j] - rls_sum_io(
                            nh,
                            rate,
                            lambda,
                            ii,
                            j,
                            k as int,
                        ),
                    forall|ii: int, j: int|
                        0 <= ii < i && 0 <= j < old(self).internal_size()
                            ==> #[trigger] self.output_weights.values@[ii]@[j] as int == old(self).output_weights.values@[ii]@[j] - rls_sum_out(
                            nh,
                            rate,
                            lambda,
                            ii,
                            j,
                            k + 1,
                        ),
                    forall|ii: int, j: int|
                        i <= ii < old(self).output_size() && 0 <= j < old(self).internal_size()
                            ==> #[trigger] self.output_weights.values@[ii]@[j] as int == old(self).output_weights.values@[ii]@[j] - rls_sum_out(
                            nh,
                            rate,
                            lambda,
                            ii,
                            j,
                            k as int,
                        ),
                    self.internal_state == old(self).internal_state,
                    self.input_state == old(self).input_state,
                    self.output_state == old(self).output_state,
                    self.state_a == old(self).state_a,
                    self.state_b == old(self).state_b,
                    self.alpha == old(self).alpha,
                    self.activation == old(self).activation,
                    self.internal_weights == old(self).internal_weights,
                    self.input_weights == old(self).input_weights,
                    self.feedback_weights == old(self).feedback_weights,
                decreases outsz - i,
            {
                assert(nh[k as int] == snap_view(history@[k as int]));
                assert(in_i64(nh[k as int].1[i as int] - nh[k as int].0[i as int]));
                let diff = history[k].1[i] - history[k].0[i];
                assert(in_i64(rate * pow_of(lambda, k as int)));
                let rl = rate * l;
                assert(in_i64(
                    (rate * pow_of(lambda, k as int)) * (nh[k as int].1[i as int] - nh[
                        k as int
                    ].0[i as int]),
                ));
                let f = rl * diff;
                assert(f as int == (rate * pow_of(lambda, k as int)) * (nh[k as int].1[i as int]
                    - nh[k as int].0[i as int]));

                assert forall|j: int| 0 <= j < history@[k as int].3@.len() implies in_i64(
                    #[trigger] (f * history@[k as int].3@[j]),
                ) && in_i64(
                    self.input_output_weights.values@[i as int]@[j] - f * history@[k as int].3@[j],
                ) by {
                    assert(in_i64(rls_term_io(nh, rate, lambda, i as int, j, k as int)));
                    assert(in_i64(
                        old(self).input_output_weights.values@[i as int]@[j] - rls_sum_io(
                            nh,
                            rate,
                            lambda,
                            i as int,
                            j,
                            k + 1,
                        ),
                    ));
                }
                apply_correction(&mut self.input_output_weights, i, f, &history[k].3);

                assert forall|j: int| 0 <= j < history@[k as int].2@.len() implies in_i64(
                    #[trigger] (f * history@[k as int].2@[j]),
                ) && in_i64(
                    self.output_weights.values@[i as int]@[j] - f * history@[k as int].2@[j],
                ) by {
                    assert(in_i64(rls_term_out(nh, rate, lambda, i as int, j, k as int)));
                    assert(in_i64(
                        old(self).output_weights.values@[i as int]@[j] - rls_sum_out(
                            nh,
                            rate,
                            lambda,
                            i as int,
                            j,
                            k + 1,
                        ),
                    ));
                }
                apply_correction(&mut self.output_weights, i, f, &history[k].2);

                i += 1;
            }

            assert(in_i64(pow_of(lambda, k + 1)));
            assert(pow_of(lambda, k + 1) == lambda * pow_of(lambda, k as int));
            let l2 = l * lambda;
            l = l2;
            k += 1;
        }
    }

    /// Leaky integration at unit `r` during a replay pass: the adaptation
    /// parameters stand at their identity values, so the nonlinearity is
    /// applied to the bare pre-activation.
    pub open spec fn replay_ni_at(self, s: ReservoirState, inp: Seq<int>, r: int) -> int {
        s.0[r] * (1 - self.alpha) + self.activation.spec_apply(self.pre3(s.0, inp, s.2, r))
            * self.alpha
    }

    /// The whole internal state after one replay step.
    pub open spec fn replay_ni(self, s: ReservoirState, inp: Seq<int>) -> Seq<int> {
        Seq::new(self.internal_size() as nat, |r: int| self.replay_ni_at(s, inp, r))
    }

    /// One replay step: an update without teacher forcing, with the
    /// adaptation parameters at their identity values.
    pub open spec fn replay_step(self, s: ReservoirState, inp: Seq<int>) -> ReservoirState {
        let ni = self.replay_ni(s, inp);
        (ni, inp, self.output_of(ni, inp))
    }

    /// Every intermediate value of one replay step is representable.
    pub open spec fn replay_ok(self, s: ReservoirState, inp: Seq<int>) -> bool {
        &&& forall|r: int|
            0 <= r < self.internal_size() ==> sdot_steps_ok(
                0,
                #[trigger] self.internal_weights.row_idx(r),
                self.internal_weights.row_vals(r),
                s.0,
            )
        &&& forall|r: int|
            0 <= r < self.internal_size() ==> dot_steps_ok(
                self.pre1(s.0, r),
                #[trigger] self.input_weights.row(r),
                inp,
            )
        &&& forall|r: int|
            0 <= r < self.internal_size() ==> dot_steps_ok(
                self.pre2(s.0, inp, r),
                #[trigger] self.feedback_weights.row(r),
                s.2,
            )
        &&& in_i64(1 - self.alpha)
        &&& forall|r: int|
            0 <= r < self.internal_size() ==> in_i64(s.0[r] * (1 - self.alpha)) && in_i64(
                (self.activation.spec_apply(#[trigger] self.pre3(s.0, inp, s.2, r))) * self.alpha,
            ) && in_i64(self.replay_ni_at(s, inp, r))
        &&& forall|i: int|
            0 <= i < self.output_size() ==> dot_steps_ok(
                0,
                #[trigger] self.output_weights.row(i),
                self.replay_ni(s, inp),
            )
        &&& forall|i: int|
            0 <= i < self.output_size() ==> dot_steps_ok(
                self.output_weights.row_dot(i, self.replay_ni(s, inp)),
                #[trigger] self.input_output_weights.row(i),
                inp,
            )
    }

    /// The state reached after replaying the first `k` inputs from a
    /// freshly reset reservoir, without teacher forcing.
    pub open spec fn run_st(self, inputs: Seq<Seq<int>>, k: int) -> ReservoirState
        decreases k,
    {
        if k <= 0 {
            self.reset_st()
        } else {
            self.replay_step(self.run_st(inputs, k - 1), inputs[k - 1])
        }
    }

    /// Two reservoirs carry the same configuration: equal weights, leak
    /// rate, nonlinearity and adaptation parameters.
    pub open spec fn same_config(self, o: ESN<A>) -> bool {
        &&& self.alpha == o.alpha
        &&& self.activation == o.activation
        &&& self.state_a@ == o.state_a@
        &&& self.state_b@ == o.state_b@
        &&& self.internal_weights.rows == o.internal_weights.rows
        &&& self.internal_weights.cols == o.internal_weights.cols
        &&& forall|r: int|
            0 <= r < self.internal_weights.rows ==> #[trigger] self.internal_weights.row_idx(r)
                == o.internal_weights.row_idx(r) && self.internal_weights.row_vals(r)
                == o.internal_weights.row_vals(r)
        &&& self.input_weights.rows == o.input_weights.rows
        &&& self.input_weights.cols == o.input_weights.cols
        &&& forall|r: int|
            0 <= r < self.input_weights.rows ==> #[trigger] self.input_weights.row(r)
                == o.input_weights.row(r)
        &&& self.feedback_weights.rows == o.feedback_weights.rows
        &&& self.feedback_weights.cols == o.feedback_weights.cols
        &&& forall|r: int|
            0 <= r < self.feedback_weights.rows ==> #[trigger] self.feedback_weights.row(r)
                == o.feedback_weights.row(r)
        &&& self.output_weights.rows == o.output_weights.rows
        &&& self.output_weights.cols == o.output_weights.cols
        &&& forall|r: int|
            0 <= r < self.output_weights.rows ==> #[trigger] self.output_weights.row(r)
                == o.output_weights.row(r)
        &&& self.input_output_weights.rows == o.input_output_weights.rows
        &&& self.input_output_weights.cols == o.input_output_weights.cols
        &&& forall|r: int|
            0 <= r < self.input_output_weights.rows ==> #[trigger] self.input_output_weights.row(r)
                == o.input_output_weights.row(r)
    }

    /// Update determinism, one step: two reservoirs with the same
    /// configuration take any state and input to the same next state.
    pub proof fn lemma_replay_step_deterministic(
        e1: ESN<A>,
        e2: ESN<A>,
        s: ReservoirState,
        inp: Seq<int>,
    )
        requires
            e1.wf(),
            e1.same_config(e2),
        ensures
            e1.replay_step(s, inp) == e2.replay_step(s, inp),
    {
        assert forall|r: int| 0 <= r < e1.internal_size() implies #[trigger] e1.replay_ni_at(
            s,
            inp,
            r,
        ) == e2.replay_ni_at(s, inp, r) by {
            assert(e1.internal_weights.row_idx(r) == e2.internal_weights.row_idx(r));
            assert(e1.internal_weights.row_vals(r) == e2.internal_weights.row_vals(r));
            assert(e1.input_weights.row(r) == e2.input_weights.row(r));
            assert(e1.feedback_weights.row(r) == e2.feedback_weights.row(r));
            assert(e1.pre3(s.0, inp, s.2, r) == e2.pre3(s.0, inp, s.2, r));
        }
        assert(e1.replay_ni(s, inp) =~= e2.replay_ni(s, inp));
        assert forall|i: int| 0 <= i < e1.output_size() implies #[trigger] e1.output_at(
            e1.replay_ni(s, inp),
            inp,
            i,
        ) == e2.output_at(e2.replay_ni(s, inp), inp, i) by {
            assert(e1.output_weights.row(i) == e2.output_weights.row(i));
            assert(e1.input_output_weights.row(i) == e2.input_output_weights.row(i));
        }
        assert(e1.output_of(e1.replay_ni(s, inp), inp) =~= e2.output_of(e2.replay_ni(s, inp), inp));
    }

    /// Update determinism, whole runs: with the same configuration and
    /// the same input sequence, a freshly reset reservoir passes through
    /// the same states, outputs included.
    pub proof fn lemma_run_deterministic(e1: ESN<A>, e2: ESN<A>, inputs: Seq<Seq<int>>, k: int)
        requires
            e1.wf(),
            e1.same_config(e2),
        ensures
            e1.run_st(inputs, k) == e2.run_st(inputs, k),
        decreases k,
    {
        if k <= 0 {
            assert(e1.reset_st() == e2.reset_st());
        } else {
            Self::lemma_run_deterministic(e1, e2, inputs, k - 1);
            Self::lemma_replay_step_deterministic(e1, e2, e1.run_st(inputs, k - 1), inputs[k - 1]);
        }
    }

    /// Gradient-rule error reduction, one step: take a reservoir whose
    /// output is freshly read out, and the weights that one `learn_online`
    /// call leaves behind.  Reading the output out again from the same
    /// input and internal state then gives a squared error on channel `i`
    /// no larger than before, provided the effective step
    /// `eff_rate * (state·state + input·input)` lies in `[0, 2]`.  Larger
    /// steps can overshoot: this is a property of small enough rates, not
    /// a hard guarantee of the rule.
    pub proof fn lemma_gradient_step_contracts(
        pre: ESN<A>,
        post: ESN<A>,
        tgt: Seq<i64>,
        rate: i64,
        i: int,
    )
        requires
            pre.wf(),
            post.wf(),
            tgt.len() == pre.output_size(),
            0 <= i < pre.output_size(),
            post.output_weights.rows == pre.output_weights.rows,
            post.output_weights.cols == pre.output_weights.cols,
            post.input_output_weights.rows == pre.input_output_weights.rows,
            post.input_output_weights.cols == pre.input_output_weights.cols,
            post.internal_state == pre.internal_state,
            post.input_state == pre.input_state,
            forall|j: int|
                0 <= j < pre.input_size() ==> post.input_output_weights.values@[i]@[j] as int
                    == pre.input_output_weights.values@[i]@[j] - #[trigger] (pre.lo_factor(
                    tgt,
                    rate,
                    i,
                ) * pre.input_state@[j]),
            forall|j: int|
                0 <= j < pre.internal_size() ==> post.output_weights.values@[i]@[j] as int
                    == pre.output_weights.values@[i]@[j] - #[trigger] (pre.lo_factor(tgt, rate, i)
                    * pre.internal_state@[j]),
            pre.output_state@[i] as int == pre.output_at(
                ints(pre.internal_state@),
                ints(pre.input_state@),
                i,
            ),
            0 <= pre.eff_rate(rate) * (crate::mat::dot(
                ints(pre.internal_state@),
                ints(pre.internal_state@),
            ) + crate::mat::dot(ints(pre.input_state@), ints(pre.input_state@))),
            pre.eff_rate(rate) * (crate::mat::dot(
                ints(pre.internal_state@),
                ints(pre.internal_state@),
            ) + crate::mat::dot(ints(pre.input_state@), ints(pre.input_state@))) <= 2,
        ensures
            (post.output_at(ints(pre.internal_state@), ints(pre.input_state@), i) - tgt[i]) * (
            post.output_at(ints(pre.internal_state@), ints(pre.input_state@), i) - tgt[i]) <= (
            pre.output_at(ints(pre.internal_state@), ints(pre.input_state@), i) - tgt[i]) * (
            pre.output_at(ints(pre.internal_state@), ints(pre.input_state@), i) - tgt[i]),
    {
        let s = ints(pre.internal_state@);
        let x = ints(pre.input_state@);
        let f = pre.lo_factor(tgt, rate, i);
        let eff = pre.eff_rate(rate);
        let sig = crate::mat::dot(s, s) + crate::mat::dot(x, x);

        assert(forall|j: int|
            0 <= j < pre.internal_size() ==> post.output_weights.row(i)[j]
                == pre.output_weights.row(i)[j] - f * s[j]);
        assert(pre.output_weights.row(i).len() == pre.internal_size());
        assert(post.output_weights.row(i).len() == pre.internal_size());
        crate::mat::lemma_dot_prefix_linear(
            pre.output_weights.row(i),
            s,
            f,
            post.output_weights.row(i),
            pre.internal_size(),
        );
        assert(s.len() == pre.internal_size());

        assert(forall|j: int|
            0 <= j < pre.input_size() ==> post.input_output_weights.row(i)[j]
                == pre.input_output_weights.row(i)[j] - f * x[j]);
        crate::mat::lemma_dot_prefix_linear(
            pre.input_output_weights.row(i),
            x,
            f,
            post.input_output_weights.row(i),
            pre.input_size(),
        );
        assert(x.len() == pre.input_size());

        let d = pre.output_at(s, x, i) - tgt[i];
        let d2 = post.output_at(s, x, i) - tgt[i];
        assert(post.output_at(s, x, i) == pre.output_at(s, x, i) - f * sig) by (nonlinear_arith)
            requires
                post.output_at(s, x, i) == (pre.output_weights.row_dot(i, s) - f
                    * crate::mat::dot(s, s)) + (pre.input_output_weights.row_dot(i, x) - f
                    * crate::mat::dot(x, x)),
                pre.output_at(s, x, i) == pre.output_weights.row_dot(i, s)
                    + pre.input_output_weights.row_dot(i, x),
                sig == crate::mat::dot(s, s) + crate::mat::dot(x, x),
        ;
        assert(f == eff * d);
        assert(d2 == d - (eff * d) * sig);
        assert(d2 * d2 <= d * d) by (nonlinear_arith)
            requires
                d2 == d - (eff * d) * sig,
                0 <= eff * sig <= 2,
        ;
    }

    /// The second-moment expression inside the plasticity rule at unit `i`.
    pub open spec fn ip_inner(self, u: i64, var: i64, i: int) -> int {
        2 * (var * var) + 1 - self.internal_state@[i] * self.internal_state@[i] + u
            * self.internal_state@[i]
    }

    /// The bias adjustment of unit `i`.
    pub open spec fn ip_delta_b(self, u: i64, var: i64, rate: i64, i: int) -> int {
        (-rate) * (div_tz(u as int, var * var) + div_tz(
            self.internal_state@[i] * self.ip_inner(u, var, i),
            var * var,
        ))
    }

    /// The gain adjustment of unit `i`.
    pub open spec fn ip_delta_a(self, u: i64, var: i64, rate: i64, i: int) -> int {
        div_tz(rate as int, self.state_a@[i] as int) + self.ip_delta_b(u, var, rate, i)
    }

    /// Every intermediate value of one plasticity call is representable
    /// and no division is degenerate.
    pub open spec fn ip_ok(self, u: i64, var: i64, rate: i64) -> bool {
        &&& var * var > 0
        &&& in_i64(var * var)
        &&& in_i64(2 * (var * var))
        &&& in_i64(2 * (var * var) + 1)
        &&& u > i64::MIN
        &&& rate > i64::MIN
        &&& forall|i: int|
            0 <= i < self.internal_size() ==> (#[trigger] self.state_a@[i]) != 0
                && self.state_a@[i] != i64::MIN
        &&& forall|i: int|
            0 <= i < self.internal_size() ==> in_i64(
                (#[trigger] self.internal_state@[i]) * self.internal_state@[i],
            ) && in_i64(2 * (var * var) + 1 - self.internal_state@[i] * self.internal_state@[i])
                && in_i64(u * self.internal_state@[i]) && in_i64(self.ip_inner(u, var, i))
                && in_i64(self.internal_state@[i] * self.ip_inner(u, var, i))
                && self.internal_state@[i] * self.ip_inner(u, var, i) > i64::MIN
        &&& forall|i: int|
            0 <= i < self.internal_size() ==> in_i64(
                div_tz(u as int, var * var) + div_tz(
                    (#[trigger] self.internal_state@[i]) * self.ip_inner(u, var, i),
                    var * var,
                ),
            ) && in_i64(self.ip_delta_b(u, var, rate, i)) && in_i64(self.ip_delta_a(u, var, rate, i))
                && in_i64(self.state_a@[i] + self.ip_delta_a(u, var, rate, i)) && in_i64(
                self.state_b@[i] + self.ip_delta_b(u, var, rate, i),
            )
    }

    /// Intrinsic plasticity: adapts each unit's gain and bias toward
    /// producing activations with target mean `u` and variance `var`
    /// squared, by a local gradient rule over the activation's first and
    /// second moments.
    pub fn intrinsic_plastic(&mut self, u: i64, var: i64, rate: i64)
        requires
            old(self).wf(),
            old(self).ip_ok(u, var, rate),
        ensures
            final(self).wf(),
            final(self).state_a@.len() == old(self).state_a@.len(),
            final(self).state_b@.len() == old(self).state_b@.len(),
            forall|i: int|
                0 <= i < old(self).internal_size() ==> final(self).state_a@[i] as int == old(
                    self,
                ).state_a@[i] + #[trigger] old(self).ip_delta_a(u, var, rate, i),
            forall|i: int|
                0 <= i < old(self).internal_size() ==> final(self).state_b@[i] as int == old(
                    self,
                ).state_b@[i] + #[trigger] old(self).ip_delta_b(u, var, rate, i),
            final(self).internal_state == old(self).internal_state,
            final(self).input_state == old(self).input_state,
            final(self).output_state == old(self).output_state,
            final(self).alpha == old(self).alpha,
            final(self).activation == old(self).activation,
            final(self).internal_weights == old(self).internal_weights,
            final(self).input_weights == old(self).input_weights,
            final(self).feedback_weights == old(self).feedback_weights,
            final(self).output_weights == old(self).output_weights,
            final(self).input_output_weights == old(self).input_output_weights,
    {
        let var2 = var * var;

        let mut index: usize = 0;
        while index < self.internal_state.len()
            invariant
                old(self).wf(),
                old(self).ip_ok(u, var, rate),
                var2 as int == var * var,
                index <= old(self).internal_size(),
                self.internal_state == old(self).internal_state,
                self.input_state == old(self).input_state,
                self.output_state == old(self).output_state,
                self.alpha == old(self).alpha,
                self.activation == old(self).activation,
                self.internal_weights == old(self).internal_weights,
                self.input_weights == old(self).input_weights,
                self.feedback_weights == old(self).feedback_weights,
                self.output_weights == old(self).output_weights,
                self.input_output_weights == old(self).input_output_weights,
                self.state_a@.len() == old(self).state_a@.len(),
                self.state_b@.len() == old(self).state_b@.len(),
                forall|i: int|
                    0 <= i < index ==> self.state_a@[i] as int == old(self).state_a@[i]
                        + #[trigger] old(self).ip_delta_a(u, var, rate, i),
                forall|i: int|
                    0 <= i < index ==> self.state_b@[i] as int == old(self).state_b@[i]
                        + #[trigger] old(self).ip_delta_b(u, var, rate, i),
                forall|i: int|
                    index <= i < old(self).internal_size() ==> self.state_a@[i] == old(
                        self,
                    ).state_a@[i] && self.state_b@[i] == old(self).state_b@[i],
            decreases old(self).internal_size() - index,
        {
            let y = self.internal_state[index];
            let a = self.state_a[index];
            let b = self.state_b[index];
            assert(a == old(self).state_a@[index as int]);

            let inner = 2 * var2 + 1 - y * y + u * y;
            assert(inner as int == old(self).ip_inner(u, var, index as int));
            let t5 = y * inner;
            let delta_b = -rate * (div_trunc(u, var2) + div_trunc(t5, var2));
            assert(delta_b as int == old(self).ip_delta_b(u, var, rate, index as int));
            let delta_a = div_trunc(rate, a) + delta_b;
            assert(delta_a as int == old(self).ip_delta_a(u, var, rate, index as int));

            self.state_a[index] = a + delta_a;
            self.state_b[index] = b + delta_b;
            index += 1;
        }
    }
}

} // verus!
