use std::cell::Cell;

use simple_nn::error::NetworkError;
use simple_nn::vectors::{append_copy, copy_range};
use simple_nn::matrix::MatrixShape;
use simple_nn::network::{SimpleNeuralNetwork, TrainingDataPoint};
use simple_nn::scalar::Operation;

fn evaluate(op: Operation<f64>) -> f64 {
    match op {
        Operation::Add(a, b) => a + b,
        Operation::Sub(a, b) => a - b,
        Operation::Mul(a, b) => a * b,
        Operation::Div(a, b) => a / b,
        Operation::Exp(a) => a.exp(),
        Operation::Sqrt(a) => a.sqrt(),
        Operation::Whole(n) => n as f64,
    }
}

fn next_uniform(state: &Cell<u64>) -> f64 {
    let mut x = state.get();
    x ^= x << 13;
    x ^= x >> 7;
    x ^= x << 17;
    state.set(x);
    ((x >> 11) as f64 + 1.0) / 9007199254740993.0
}

fn standard_normal(state: &Cell<u64>) -> f64 {
    let u1 = next_uniform(state);
    let u2 = next_uniform(state);
    (-2.0 * u1.ln()).sqrt() * (2.0 * std::f64::consts::PI * u2).cos()
}

fn random_network(sizes: Vec<usize>, seed: u64) -> SimpleNeuralNetwork<f64> {
    let state = Cell::new(seed);
    let sample = || standard_normal(&state);
    SimpleNeuralNetwork::new(sizes, &sample).unwrap()
}

#[test]
fn new_builds_a_network_of_the_given_sizes() {
    let nn = random_network(vec![2, 3, 1], 11);
    assert!(nn.is_well_formed());
    assert_eq!(nn.num_layers(), 3);
    assert_eq!(nn.sizes, vec![2, 3, 1]);
    assert_eq!(nn.weights.len(), 2);
    assert_eq!(nn.biases.len(), 2);
    assert_eq!(nn.weights[0].shape(), MatrixShape::new(3, 2));
    assert_eq!(nn.weights[1].shape(), MatrixShape::new(1, 3));
    assert_eq!(nn.weights[0].data.len(), 6);
    assert_eq!(nn.weights[1].data.len(), 3);
    assert_eq!(nn.biases[0].len(), 3);
    assert_eq!(nn.biases[1].len(), 1);
}

#[test]
fn new_draws_biases_first_then_weights() {
    let counter = Cell::new(0.0);
    let sample = || {
        counter.set(counter.get() + 1.0);
        counter.get()
    };
    let nn = SimpleNeuralNetwork::new(vec![2, 2, 1], &sample).unwrap();
    assert_eq!(nn.biases, vec![vec![1.0, 2.0], vec![3.0]]);
    assert_eq!(nn.weights[0].data, vec![4.0, 5.0, 6.0, 7.0]);
    assert_eq!(nn.weights[1].data, vec![8.0, 9.0]);
}

#[test]
fn new_refuses_sizes_that_describe_no_network() {
    let sample = || 0.5;
    assert!(SimpleNeuralNetwork::new(Vec::new(), &sample).is_none());
    assert!(SimpleNeuralNetwork::new(vec![usize::MAX, 2], &sample).is_none());
    assert!(SimpleNeuralNetwork::new(vec![2, usize::MAX], &sample).is_none());
    assert!(SimpleNeuralNetwork::new(vec![1, 1, usize::MAX, 3], &sample).is_none());
}

#[test]
fn new_draws_nothing_for_sizes_it_refuses() {
    let draws = Cell::new(0);
    let sample = || {
        draws.set(draws.get() + 1);
        0.5
    };
    assert!(SimpleNeuralNetwork::new(vec![3, 3, usize::MAX, 3], &sample).is_none());
    assert_eq!(draws.get(), 0);
}

#[test]
fn new_accepts_a_lone_input_layer() {
    let sample = || 0.5;
    let nn = SimpleNeuralNetwork::new(vec![4], &sample).unwrap();
    assert!(nn.is_well_formed());
    assert_eq!(nn.num_layers(), 1);
    assert!(nn.weights.is_empty());
    assert!(nn.biases.is_empty());
    assert_eq!(nn.unroll_weights_and_biases(), Vec::<f64>::new());
    let input = vec![1.0, 2.0, 3.0, 4.0];
    assert_eq!(nn.feed_forward(&input, &evaluate).unwrap(), input);
}

#[test]
fn well_formedness_is_tested_at_run_time() {
    let good = random_network(vec![2, 3, 1], 5);
    assert!(good.is_well_formed());

    let mut missing_layer = good.clone();
    missing_layer.weights.pop();
    assert!(!missing_layer.is_well_formed());

    let mut wrong_bias = good.clone();
    wrong_bias.biases[0].push(0.0);
    assert!(!wrong_bias.is_well_formed());

    let mut wrong_shape = good.clone();
    wrong_shape.weights[0].rows = 2;
    wrong_shape.weights[0].columns = 3;
    assert!(!wrong_shape.is_well_formed());

    let mut short_storage = good.clone();
    short_storage.weights[1].data.pop();
    assert!(!short_storage.is_well_formed());

    let no_layers =
        SimpleNeuralNetwork::<f64> { sizes: Vec::new(), weights: Vec::new(), biases: Vec::new() };
    assert!(!no_layers.is_well_formed());
}

#[test]
fn reshape_of_unroll_gives_back_every_parameter() {
    for sizes in [vec![2, 3, 2], vec![3, 2], vec![1, 4, 4, 2], vec![5], vec![2, 0, 3]] {
        let nn = random_network(sizes.clone(), 99);
        let theta = nn.unroll_weights_and_biases();
        let reshaped = nn.reshape_weights_and_biases(&theta).unwrap();
        assert_eq!(reshaped.len(), nn.weights.len());
        for k in 0..reshaped.len() {
            assert_eq!(reshaped[k].0.rows, nn.weights[k].rows);
            assert_eq!(reshaped[k].0.columns, nn.weights[k].columns);
            assert_eq!(reshaped[k].0.data, nn.weights[k].data);
            assert_eq!(reshaped[k].1, nn.biases[k]);
        }
    }
}

#[test]
fn unroll_of_reshape_gives_back_the_sequence() {
    let nn = random_network(vec![2, 3, 2], 3);
    let theta: Vec<f64> = (0..17).map(|i| i as f64 * 0.25).collect();
    let reshaped = nn.reshape_weights_and_biases(&theta).unwrap();
    assert_eq!(nn.unroll_gradients(&reshaped), theta);
}

#[test]
fn round_trip_preserves_the_answer_to_every_input() {
    let nn = random_network(vec![2, 3, 2], 1234);
    let theta = nn.unroll_weights_and_biases();
    let reshaped = nn.reshape_weights_and_biases(&theta).unwrap();
    for input in [vec![0.0, 0.0], vec![1.0, -1.0], vec![-2.5, 0.75], vec![100.0, 3.0]] {
        let direct = nn.feed_forward(&input, &evaluate).unwrap();
        let through = SimpleNeuralNetwork::ff(&input, &nn.sizes, &reshaped, &evaluate).unwrap();
        assert_eq!(direct, through);
    }
}

#[test]
fn round_trip_preserves_the_cost() {
    let nn = random_network(vec![2, 3, 2], 77);
    let theta = nn.unroll_weights_and_biases();
    let reshaped = nn.reshape_weights_and_biases(&theta).unwrap();
    let data = vec![
        TrainingDataPoint::new(vec![0.5, -0.5], vec![1.0, 0.0]),
        TrainingDataPoint::new(vec![1.5, 2.5], vec![0.0, 1.0]),
    ];
    let direct = nn.cost_training_set(&data, &evaluate).unwrap();
    let through = nn.cost_reshaped_set(&data, &reshaped, &evaluate).unwrap();
    assert_eq!(direct, through);
    let single = nn.cost_single_tr_ex(&data[1], &evaluate).unwrap();
    let single_through =
        nn.cost_reshaped_single(&data[1], &nn.sizes, &reshaped, &evaluate).unwrap();
    assert_eq!(single, single_through);
}

#[test]
fn reshape_ignores_what_follows_the_last_parameter() {
    let nn = random_network(vec![1, 2], 8);
    let reshaped = nn.reshape_weights_and_biases(&[1.0, 2.0, 3.0, 4.0, 5.0, 6.0]).unwrap();
    assert_eq!(reshaped.len(), 1);
    assert_eq!(reshaped[0].0.data, vec![1.0, 2.0]);
    assert_eq!(reshaped[0].1, vec![3.0, 4.0]);
}

#[test]
fn reshape_fails_on_too_few_values() {
    let nn = random_network(vec![2, 3, 2], 8);
    let theta = vec![0.0; 16];
    assert!(matches!(
        nn.reshape_weights_and_biases(&theta),
        Err(NetworkError::DimensionMismatch)
    ));
    assert!(matches!(nn.reshape_weights_and_biases(&[]), Err(NetworkError::DimensionMismatch)));
    assert!(nn.reshape_weights_and_biases(&vec![0.0; 17]).is_ok());
}

#[test]
fn reshape_without_layers_gives_nothing() {
    let no_layers =
        SimpleNeuralNetwork::<f64> { sizes: Vec::new(), weights: Vec::new(), biases: Vec::new() };
    assert!(no_layers.reshape_weights_and_biases(&[1.0, 2.0]).unwrap().is_empty());
    let input_only = random_network(vec![3], 1);
    assert!(input_only.reshape_weights_and_biases(&[]).unwrap().is_empty());
}

#[test]
fn copy_helpers() {
    let mut target = vec![1.0, 2.0];
    append_copy(&mut target, &vec![3.0, 4.0]);
    assert_eq!(target, vec![1.0, 2.0, 3.0, 4.0]);
    append_copy(&mut target, &Vec::new());
    assert_eq!(target, vec![1.0, 2.0, 3.0, 4.0]);
    assert_eq!(copy_range(&target, 1, 3), vec![2.0, 3.0]);
    assert_eq!(copy_range(&target, 2, 2), Vec::<f64>::new());
    assert_eq!(copy_range(&target, 0, 4), target);
}
