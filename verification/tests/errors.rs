use simple_nn::cost::quadratic_cost;
use simple_nn::error::NetworkError;
use simple_nn::matrix::{Matrix, MatrixShape};
use simple_nn::network::{SimpleNeuralNetwork, TrainingDataPoint};
use simple_nn::scalar::Operation;

fn evaluate(op: Operation<f64>) -> f64 {
    match op {
        Operation::Add(a, b) => a + b,
        Operation::Sub(a, b) => a - b,
        Operation::Mul(a, b) => a * b,
        Operation::Div(a, b) => a / b,
        Operation::Exp(a) => a.exp(),
        Operation::Sqrt(a) => a.sqrt(),
        Operation::Whole(n) => n as f64,
    }
}

fn network_3_2() -> SimpleNeuralNetwork<f64> {
    let weights = Matrix::new_with_shape_and_values(
        &MatrixShape::new(2, 3),
        &[0.5, 0.5, 0.5, 1.0, 1.0, 1.0],
    )
    .unwrap();
    let nn = SimpleNeuralNetwork {
        sizes: vec![3, 2],
        weights: vec![weights],
        biases: vec![vec![0.1, 0.1]],
    };
    assert!(nn.is_well_formed());
    nn
}

fn is_mismatch<V>(r: Result<V, NetworkError<f64>>) -> bool {
    matches!(r, Err(NetworkError::DimensionMismatch))
}

#[test]
fn feed_forward_refuses_an_input_of_another_length() {
    let nn = network_3_2();
    assert!(is_mismatch(nn.feed_forward(&vec![0.0, 0.5], &evaluate)));
    assert!(is_mismatch(nn.feed_forward(&vec![0.0, 0.5, 1.0, 1.5], &evaluate)));
    assert!(is_mismatch(nn.feed_forward(&Vec::new(), &evaluate)));
    assert!(nn.feed_forward(&vec![0.0, 0.5, 1.0], &evaluate).is_ok());
}

#[test]
fn feed_forward_capturing_refuses_an_input_of_another_length() {
    let nn = network_3_2();
    assert!(is_mismatch(nn.feed_forward_capturing(&vec![0.0, 0.5], &evaluate)));
    assert!(nn.feed_forward_capturing(&vec![0.0, 0.5, 1.0], &evaluate).is_ok());
}

#[test]
fn ff_refuses_an_input_of_another_length() {
    let nn = network_3_2();
    let wb = nn.reshape_weights_and_biases(&nn.unroll_weights_and_biases()).unwrap();
    assert!(is_mismatch(SimpleNeuralNetwork::ff(&vec![0.0], &nn.sizes, &wb, &evaluate)));
    assert!(SimpleNeuralNetwork::ff(&vec![0.0, 0.5, 1.0], &nn.sizes, &wb, &evaluate).is_ok());
}

#[test]
fn quadratic_cost_refuses_vectors_of_different_lengths() {
    assert!(is_mismatch(quadratic_cost(&vec![1.0, 2.0], &vec![1.0], &evaluate)));
    assert!(is_mismatch(quadratic_cost(&Vec::new(), &vec![1.0], &evaluate)));
    assert_eq!(quadratic_cost(&Vec::new(), &Vec::new(), &evaluate).unwrap(), 0.0);
}

#[test]
fn quadratic_cost_is_half_the_sum_of_squares() {
    let cost = quadratic_cost(&vec![1.0, 2.0, 3.0], &vec![0.5, 4.0, 0.0], &evaluate).unwrap();
    assert_eq!(cost, (((0.0 + 0.5 * 0.5) + 2.0 * 2.0) + 3.0 * 3.0) / 2.0);
    assert_eq!(cost, 6.625);
}

#[test]
fn cost_of_a_vector_against_itself_is_zero() {
    for v in [vec![0.0], vec![1.5, -2.5, 1.0e300], vec![-0.0, 1.0e-300], Vec::new()] {
        assert_eq!(quadratic_cost(&v, &v, &evaluate).unwrap(), 0.0);
    }
}

#[test]
fn cost_of_a_vector_against_itself_where_entries_do_not_cancel() {
    // infinity minus infinity is no number, so the cost is none either
    let v = vec![f64::INFINITY];
    assert!(quadratic_cost(&v, &v, &evaluate).unwrap().is_nan());
    let v = vec![f64::NAN];
    assert!(quadratic_cost(&v, &v, &evaluate).unwrap().is_nan());
}

#[test]
fn cost_of_an_example_refuses_what_does_not_fit() {
    let nn = network_3_2();
    let short_input = TrainingDataPoint::new(vec![0.0, 0.5], vec![1.0, 1.0]);
    let long_output = TrainingDataPoint::new(vec![0.0, 0.5, 1.0], vec![1.0, 1.0, 1.0]);
    let fits = TrainingDataPoint::new(vec![0.0, 0.5, 1.0], vec![1.0, 1.0]);
    assert!(is_mismatch(nn.cost_single_tr_ex(&short_input, &evaluate)));
    assert!(is_mismatch(nn.cost_single_tr_ex(&long_output, &evaluate)));
    assert!(nn.cost_single_tr_ex(&fits, &evaluate).is_ok());
}

#[test]
fn cost_of_a_set_refuses_a_set_with_one_misfit() {
    let nn = network_3_2();
    let fits = TrainingDataPoint::new(vec![0.0, 0.5, 1.0], vec![1.0, 1.0]);
    let misfit = TrainingDataPoint::new(vec![0.0, 0.5, 1.0], vec![1.0]);
    assert!(is_mismatch(nn.cost_training_set(&vec![fits.clone(), misfit.clone()], &evaluate)));
    assert!(is_mismatch(nn.cost_training_set(&vec![misfit.clone(), fits.clone()], &evaluate)));
    assert!(nn.cost_training_set(&vec![fits.clone(), fits.clone()], &evaluate).is_ok());

    let wb = nn.reshape_weights_and_biases(&nn.unroll_weights_and_biases()).unwrap();
    assert!(is_mismatch(nn.cost_reshaped_set(&vec![fits.clone(), misfit.clone()], &wb, &evaluate)));
    assert!(is_mismatch(nn.cost_reshaped_single(&misfit, &nn.sizes, &wb, &evaluate)));
    assert!(nn.cost_reshaped_single(&fits, &nn.sizes, &wb, &evaluate).is_ok());
}

#[test]
fn cost_of_a_set_is_the_mean() {
    let nn = network_3_2();
    let data = vec![
        TrainingDataPoint::new(vec![0.0, 0.5, 1.0], vec![1.0, 1.0]),
        TrainingDataPoint::new(vec![1.0, 0.5, 0.0], vec![0.0, 1.0]),
        TrainingDataPoint::new(vec![-1.0, 2.0, 0.5], vec![0.5, 0.5]),
        TrainingDataPoint::new(vec![3.0, -3.0, 0.25], vec![0.0, 0.0]),
    ];
    let mut sum = 0.0;
    for example in data.iter() {
        sum = sum + nn.cost_single_tr_ex(example, &evaluate).unwrap();
    }
    assert_eq!(nn.cost_training_set(&data, &evaluate).unwrap(), sum / 4.0);
}

#[test]
fn cost_of_the_empty_set_is_zero_over_zero() {
    let nn = network_3_2();
    assert!(nn.cost_training_set(&Vec::new(), &evaluate).unwrap().is_nan());
}

#[test]
fn forward_pass_is_repeatable() {
    let nn = network_3_2();
    let input = vec![0.3, -0.7, 2.0];
    let first = nn.feed_forward(&input, &evaluate).unwrap();
    for _ in 0..10 {
        let again = nn.feed_forward(&input, &evaluate).unwrap();
        assert_eq!(first[0].to_bits(), again[0].to_bits());
        assert_eq!(first[1].to_bits(), again[1].to_bits());
    }
    let twin = network_3_2();
    assert_eq!(twin.feed_forward(&input, &evaluate).unwrap(), first);
}

#[test]
fn collecting_passes_refuses_a_misfit() {
    let nn = network_3_2();
    let fits = TrainingDataPoint::new(vec![0.0, 0.5, 1.0], vec![1.0, 1.0]);
    let short_output = TrainingDataPoint::new(vec![0.0, 0.5, 1.0], vec![1.0]);
    let long_input = TrainingDataPoint::new(vec![0.0, 0.5, 1.0, 2.0], vec![1.0, 1.0]);
    assert!(is_mismatch(nn.collect_passes(&vec![fits.clone(), short_output], &evaluate)));
    assert!(is_mismatch(nn.collect_passes(&vec![long_input, fits.clone()], &evaluate)));
    assert_eq!(nn.collect_passes(&vec![fits.clone(), fits], &evaluate).unwrap().len(), 2);
    assert!(nn.collect_passes(&Vec::new(), &evaluate).unwrap().is_empty());
}

#[test]
fn approximate_gradient_refuses_a_misfit() {
    let nn = network_3_2();
    let misfit = TrainingDataPoint::new(vec![0.0, 0.5, 1.0], vec![1.0]);
    assert!(is_mismatch(nn.approximate_cost_gradient(&vec![misfit.clone()], &evaluate)));
    // without parameters there is nothing to perturb, and nothing is looked at
    let input_only = SimpleNeuralNetwork::<f64> { sizes: vec![3], weights: vec![], biases: vec![] };
    assert!(input_only.approximate_cost_gradient(&vec![misfit], &evaluate).unwrap().is_empty());
}
