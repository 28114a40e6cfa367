use esn::mat::{DenseRowMatrix, SparseRowMatrix};
use esn::offline::TrainingData;
use esn::{IdentityActivation, ESN};

fn cyclic_esn() -> ESN<IdentityActivation> {
    let internal = SparseRowMatrix {
        rows: 3,
        cols: 3,
        col_indices: vec![vec![2], vec![0], vec![1]],
        col_values: vec![vec![1], vec![1], vec![1]],
    };
    let mut input_w = DenseRowMatrix::new(3, 1, 0);
    *input_w.get_mut(0, 0) = 1;
    *input_w.get_mut(1, 0) = 1;
    let output_w = DenseRowMatrix::new(1, 3, 0);
    let feedback_w = DenseRowMatrix::new(3, 1, 0);
    let io_w = DenseRowMatrix::new(1, 1, 0);

    ESN::new(1, IdentityActivation, internal, input_w, output_w, feedback_w, io_w)
}

// Solves the normal equations in double precision and rounds the answer
// back to integers, the driver-side counterpart of the verified build.
fn solve_rounded(g: &Vec<Vec<i64>>, b: &Vec<i64>) -> Option<Vec<i64>> {
    let n = b.len();
    let gm = nalgebra::DMatrix::from_fn(n, n, |i, j| g[i][j] as f64);
    let bm = nalgebra::DVector::from_fn(n, |i, _| b[i] as f64);
    let sol = gm.lu().solve(&bm)?;
    Some(sol.iter().map(|v| v.round() as i64).collect())
}

#[test]
fn test_training_data_accessors() {
    let mut esn = cyclic_esn();
    let mut td = TrainingData::new();
    assert_eq!(td.record_count(), 0);

    esn.update(&vec![1], None);
    td.push_state(&esn, vec![1]);
    esn.update(&vec![0], None);
    td.push_state(&esn, vec![0]);

    assert_eq!(td.record_count(), 2);
    assert_eq!(td.input_size(), 1);
    assert_eq!(td.target_size(), 1);
    assert_eq!(td.state_size(), 3);
    assert_eq!(td.0[0].state, vec![1, 1, 0]);
    assert_eq!(td.0[0].input, vec![1]);
    assert_eq!(td.0[1].state, vec![0, 1, 1]);
}

#[test]
fn test_normal_equations_build() {
    let mut esn = cyclic_esn();
    let mut td = TrainingData::new();
    for inp in [1i64, 0, 1, 0] {
        esn.update(&vec![inp], None);
        td.push_state(&esn, vec![inp]);
    }

    // Design rows are (state, input): [1,1,0,1], [0,1,1,0], [2,1,1,1],
    // [1,2,1,0]; the matrix below is Xᵗ X and the vector Xᵗ y for the
    // target column [1,0,1,0].
    let g = td.normal_matrix(0);
    assert_eq!(g.len(), 4);
    assert_eq!(g[0], vec![6, 5, 3, 3]);
    assert_eq!(g[1], vec![5, 7, 4, 2]);
    assert_eq!(g[2], vec![3, 4, 3, 1]);
    assert_eq!(g[3], vec![3, 2, 1, 2]);

    let b = td.normal_rhs(0, 0);
    assert_eq!(b, vec![3, 2, 1, 2]);
}

#[test]
fn test_offline_exact_fit() {
    // The target is an exact linear combination of the recorded features
    // (it equals the input column), so the solved readout reproduces
    // every record with zero residual.
    let mut esn = cyclic_esn();
    let mut td = TrainingData::new();
    for inp in [1i64, 0, 1, 0] {
        esn.update(&vec![inp], None);
        td.push_state(&esn, vec![inp]);
    }

    let g = td.normal_matrix(0);
    let b = td.normal_rhs(0, 0);
    let w = solve_rounded(&g, &b).expect("system should be invertible");
    assert_eq!(w, vec![0, 0, 0, 1]);

    td.apply_solution(0, &w, &mut esn.output_weights, &mut esn.input_output_weights);
    assert_eq!(esn.output_weights.values[0], vec![0, 0, 0]);
    assert_eq!(esn.input_output_weights.values[0], vec![1]);

    let errs = td.test(&mut esn);
    assert_eq!(errs, vec![0, 0, 0, 0]);
}

#[test]
fn test_end_to_end_replay_matches_targets() {
    // Reservoir of 3 units, one input, one output, identity-like fixed
    // weights; inputs [1,0,1,0] with equal targets.  After offline
    // training with no skipped records, replay reproduces the targets
    // exactly.
    let mut esn = cyclic_esn();
    let mut td = TrainingData::new();
    let data: Vec<i64> = vec![1, 0, 1, 0];
    for &inp in &data {
        esn.update(&vec![inp], None);
        td.push_state(&esn, vec![inp]);
    }

    let g = td.normal_matrix(0);
    let b = td.normal_rhs(0, 0);
    let w = solve_rounded(&g, &b).expect("system should be invertible");
    td.apply_solution(0, &w, &mut esn.output_weights, &mut esn.input_output_weights);

    esn.reset();
    for &inp in &data {
        esn.update(&vec![inp], None);
        assert_eq!(esn.get_output_state(), &vec![inp]);
        assert_eq!(esn.error_square_sum(&vec![inp]), 0);
    }
}
