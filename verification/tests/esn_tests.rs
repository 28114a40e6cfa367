use esn::mat::{DenseRowMatrix, SparseRowMatrix};
use esn::generator::generate_dense;
use esn::{ClampActivation, IdentityActivation, ZeroOne, ESN};
use std::collections::VecDeque;

// A three-unit reservoir whose recurrence is a cyclic permutation, driven
// by one input channel, read out on one output channel.
fn cyclic_esn() -> ESN<IdentityActivation> {
    let internal = SparseRowMatrix {
        rows: 3,
        cols: 3,
        col_indices: vec![vec![2], vec![0], vec![1]],
        col_values: vec![vec![1], vec![1], vec![1]],
    };
    let mut input_w = DenseRowMatrix::new(3, 1, 0);
    *input_w.get_mut(0, 0) = 1;
    *input_w.get_mut(1, 0) = 1;
    let output_w = DenseRowMatrix::new(1, 3, 0);
    let feedback_w = DenseRowMatrix::new(3, 1, 0);
    let io_w = DenseRowMatrix::new(1, 1, 0);

    ESN::new(1, IdentityActivation, internal, input_w, output_w, feedback_w, io_w)
}

#[test]
fn test_update_state_evolution() {
    let mut esn = cyclic_esn();

    esn.update(&vec![1], None);
    assert_eq!(esn.internal_state, vec![1, 1, 0]);
    assert_eq!(esn.input_state, vec![1]);
    assert_eq!(esn.output_state, vec![0]);

    esn.update(&vec![0], None);
    assert_eq!(esn.internal_state, vec![0, 1, 1]);

    esn.update(&vec![1], None);
    assert_eq!(esn.internal_state, vec![2, 1, 1]);

    esn.update(&vec![0], None);
    assert_eq!(esn.internal_state, vec![1, 2, 1]);
}

#[test]
fn test_update_deterministic_runs() {
    // Identical weights and inputs from a freshly reset state give
    // bit-identical output sequences.
    let inputs: Vec<Vec<i64>> = vec![vec![1], vec![0], vec![1], vec![1], vec![0]];

    let mut esn = cyclic_esn();
    *esn.output_weights.get_mut(0, 1) = 3;
    *esn.input_output_weights.get_mut(0, 0) = -2;

    let mut first: Vec<Vec<i64>> = Vec::new();
    for inp in &inputs {
        esn.update(inp, None);
        first.push(esn.get_output_state().clone());
    }

    esn.reset();
    let mut second: Vec<Vec<i64>> = Vec::new();
    for inp in &inputs {
        esn.update(inp, None);
        second.push(esn.get_output_state().clone());
    }

    assert_eq!(first, second);
}

#[test]
fn test_reset_idempotent() {
    let mut esn = cyclic_esn();
    esn.update(&vec![1], Some(&vec![4]));
    esn.update(&vec![0], None);
    esn.intrinsic_plastic(0, 1, 1);

    esn.reset();
    let internal = esn.internal_state.clone();
    let input = esn.input_state.clone();
    let output = esn.output_state.clone();

    esn.reset();
    assert_eq!(esn.internal_state, internal);
    assert_eq!(esn.input_state, input);
    assert_eq!(esn.output_state, output);
    assert_eq!(esn.internal_state, vec![0, 0, 0]);
    assert_eq!(esn.input_state, vec![0]);
    assert_eq!(esn.output_state, vec![0]);
}

#[test]
fn test_teacher_forcing_feeds_back() {
    let mut esn = cyclic_esn();
    *esn.feedback_weights.get_mut(2, 0) = 1;

    // With a teacher, the feedback drive uses the teacher value.
    esn.update(&vec![1], Some(&vec![5]));
    assert_eq!(esn.internal_state, vec![1, 1, 5]);

    // Without one, it uses the previous output, which is zero here.
    esn.reset();
    esn.update(&vec![1], None);
    assert_eq!(esn.internal_state, vec![1, 1, 0]);
}

#[test]
fn test_error_square_sum() {
    let mut esn = cyclic_esn();
    esn.output_state = vec![3];
    assert_eq!(esn.error_square_sum(&vec![1]), 4);
    esn.output_state = vec![-1];
    assert_eq!(esn.error_square_sum(&vec![2]), 9);
}

#[test]
fn test_learn_online_exact_step() {
    let internal = SparseRowMatrix {
        rows: 1,
        cols: 1,
        col_indices: vec![vec![]],
        col_values: vec![vec![]],
    };
    let input_w = DenseRowMatrix::new(1, 1, 0);
    let output_w = DenseRowMatrix::new(1, 1, 0);
    let feedback_w = DenseRowMatrix::new(1, 1, 0);
    let io_w = DenseRowMatrix::new(1, 1, 0);
    let mut esn = ESN::new(1, IdentityActivation, internal, input_w, output_w, feedback_w, io_w);

    esn.input_state = vec![3];
    esn.internal_state = vec![2];
    esn.output_state = vec![5];
    *esn.output_weights.get_mut(0, 0) = 50;
    *esn.input_output_weights.get_mut(0, 0) = 100;

    // eff = 4 / (1 + 1) = 2, diff = 5 - 1 = 4, err = 16.
    let err = esn.learn_online(&vec![1], 4);
    assert_eq!(err, 16);
    assert_eq!(esn.input_output_weights.values[0][0], 100 - 2 * 4 * 3);
    assert_eq!(esn.output_weights.values[0][0], 50 - 2 * 4 * 2);
}

#[test]
fn test_learn_online_error_reduction() {
    // On a fixed pattern with a suitable rate, repeated corrections give
    // a non-increasing squared error.
    let internal = SparseRowMatrix {
        rows: 1,
        cols: 1,
        col_indices: vec![vec![]],
        col_values: vec![vec![]],
    };
    let input_w = DenseRowMatrix::new(1, 1, 0);
    let output_w = DenseRowMatrix::new(1, 1, 0);
    let feedback_w = DenseRowMatrix::new(1, 1, 0);
    let io_w = DenseRowMatrix::new(1, 1, 0);
    let mut esn = ESN::new(1, IdentityActivation, internal, input_w, output_w, feedback_w, io_w);

    *esn.output_weights.get_mut(0, 0) = 8;
    esn.internal_state = vec![1];
    esn.input_state = vec![0];

    let mut last: Option<i64> = None;
    for _ in 0..4 {
        // Recompute the output the way `update` would read it out.
        esn.output_state = vec![esn.output_weights.values[0][0] * esn.internal_state[0]];
        let err = esn.learn_online(&vec![0], 2);
        if let Some(prev) = last {
            assert!(err <= prev);
        }
        last = Some(err);
    }
    assert_eq!(last, Some(0));
}

#[test]
fn test_rls_bounded_history() {
    let mut esn = cyclic_esn();
    let mut history: VecDeque<(Vec<i64>, Vec<i64>, Vec<i64>, Vec<i64>)> = VecDeque::new();

    for _ in 0..6 {
        esn.rls(3, &mut history, &vec![0], 1, 0);
        assert!(history.len() <= 3);
    }
    assert_eq!(history.len(), 3);
}

#[test]
fn test_rls_exact_corrections() {
    let internal = SparseRowMatrix {
        rows: 1,
        cols: 1,
        col_indices: vec![vec![]],
        col_values: vec![vec![]],
    };
    let input_w = DenseRowMatrix::new(1, 1, 0);
    let output_w = DenseRowMatrix::new(1, 1, 0);
    let feedback_w = DenseRowMatrix::new(1, 1, 0);
    let io_w = DenseRowMatrix::new(1, 1, 0);
    let mut esn = ESN::new(1, IdentityActivation, internal, input_w, output_w, feedback_w, io_w);

    esn.output_state = vec![5];
    esn.internal_state = vec![2];
    esn.input_state = vec![3];
    *esn.output_weights.get_mut(0, 0) = 50;
    *esn.input_output_weights.get_mut(0, 0) = 100;

    let mut history: VecDeque<(Vec<i64>, Vec<i64>, Vec<i64>, Vec<i64>)> = VecDeque::new();

    // One snapshot: diff = 4, so the corrections are 4*3 and 4*2.
    esn.rls(2, &mut history, &vec![1], 2, 1);
    assert_eq!(history.len(), 1);
    assert_eq!(esn.input_output_weights.values[0][0], 100 - 12);
    assert_eq!(esn.output_weights.values[0][0], 50 - 8);

    // Two snapshots now; the older one is replayed with weight lambda = 2.
    esn.rls(2, &mut history, &vec![1], 2, 1);
    assert_eq!(history.len(), 2);
    assert_eq!(esn.input_output_weights.values[0][0], 100 - 12 - 12 - 24);
    assert_eq!(esn.output_weights.values[0][0], 50 - 8 - 8 - 16);

    // The newest snapshot sits at the front of the window.
    assert_eq!(history[0].0, vec![1]);
}

#[test]
fn test_intrinsic_plastic_exact() {
    let mut esn = cyclic_esn();
    esn.internal_state = vec![2, 0, 0];

    // var2 = 1; for y = 2: inner = 2 + 1 - 4 + 0 = -1, so
    // delta_b = -1 * (0 + (2 * -1) / 1) = 2 and delta_a = 1/1 + 2 = 3.
    esn.intrinsic_plastic(0, 1, 1);

    assert_eq!(esn.state_a, vec![4, 2, 2]);
    assert_eq!(esn.state_b, vec![2, 0, 0]);
}

#[test]
fn test_clamp_activation_saturates() {
    let internal = SparseRowMatrix {
        rows: 1,
        cols: 1,
        col_indices: vec![vec![]],
        col_values: vec![vec![]],
    };
    let mut input_w = DenseRowMatrix::new(1, 1, 0);
    *input_w.get_mut(0, 0) = 1;
    let output_w = DenseRowMatrix::new(1, 1, 0);
    let feedback_w = DenseRowMatrix::new(1, 1, 0);
    let io_w = DenseRowMatrix::new(1, 1, 0);
    let mut esn = ESN::new(
        1,
        ClampActivation { bound: 10 },
        internal,
        input_w,
        output_w,
        feedback_w,
        io_w,
    );

    esn.update(&vec![25], None);
    assert_eq!(esn.internal_state, vec![10]);
    esn.update(&vec![-99], None);
    assert_eq!(esn.internal_state, vec![-10]);
    esn.update(&vec![7], None);
    assert_eq!(esn.internal_state, vec![7]);
}

#[test]
fn test_zero_one_fill() {
    assert_eq!(<i64 as ZeroOne>::zero(), 0);
    assert_eq!(<i64 as ZeroOne>::one(), 1);
    let mut v: Vec<i64> = vec![4, -5, 6];
    <i64 as ZeroOne>::fill_zero(&mut v);
    assert_eq!(v, vec![0, 0, 0]);
}

#[test]
fn test_generate_dense_by_position() {
    let m = generate_dense(2, 3, |r: usize, c: usize| (10 * r + c) as i64);
    assert_eq!(m.rows, 2);
    assert_eq!(m.cols, 3);
    assert_eq!(m.values, vec![vec![0, 1, 2], vec![10, 11, 12]]);
}
