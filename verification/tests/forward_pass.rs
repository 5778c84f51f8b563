use simple_nn::forward::{sigmoid_vector, z};
use simple_nn::matrix::{Matrix, MatrixShape};
use simple_nn::network::SimpleNeuralNetwork;
use simple_nn::scalar::Operation;

fn evaluate(op: Operation<f64>) -> f64 {
    match op {
        Operation::Add(a, b) => a + b,
        Operation::Sub(a, b) => a - b,
        Operation::Mul(a, b) => a * b,
        Operation::Div(a, b) => a / b,
        Operation::Exp(a) => a.exp(),
        Operation::Sqrt(a) => a.sqrt(),
        Operation::Whole(n) => n as f64,
    }
}

fn matrix_of_rows(rows: &[&[f64]]) -> Matrix<f64> {
    let columns = rows[0].len();
    let mut data = Vec::new();
    for row in rows {
        assert_eq!(row.len(), columns);
        data.extend_from_slice(row);
    }
    Matrix::new_with_shape_and_values(&MatrixShape::new(rows.len(), columns), &data).unwrap()
}

#[test]
fn test_z_vec() {
    // Layer N: 3 neurons
    // L N-1: 2 neurons
    // weights matrix -> 2x3
    let weights = matrix_of_rows(&[&[1.0, 2.0, 3.0], &[4.0, 5.0, 6.0]]);

    let bias_v = vec![0.5, 0.5];
    let input_v = vec![1.0, 2.0, 3.0];

    let weighted_sum_v = z(&weights, &bias_v, &input_v, &evaluate);

    assert_eq!(weighted_sum_v.len(), 2);
    assert_eq!(weighted_sum_v[0], 14.5);
    assert_eq!(weighted_sum_v[1], 32.5);
}

#[test]
fn feed_forward_works_simple_two_layer() {
    let num_neurons_layer_0 = 3;
    let num_neurons_layer_1 = 2;

    // weights matrix -> 2x3

    let inputs = vec![0.0, 0.5, 1.0];

    let weights = matrix_of_rows(&[&[0.5, 0.5, 0.5], &[1.0, 1.0, 1.0]]);

    let biases = vec![0.1, 0.1];

    let nn = SimpleNeuralNetwork {
        sizes: vec![num_neurons_layer_0, num_neurons_layer_1],
        weights: vec![weights],
        biases: vec![biases],
    };
    assert!(nn.is_well_formed());

    let outputs = nn.feed_forward(&inputs, &evaluate).unwrap();
    assert_eq!(outputs.len(), 2);
    assert_eq!(outputs[0], 0.7005671424739729);
    assert_eq!(outputs[1], 0.8320183851339245);

    // now see if I can do this from the unrolled big_theta_v
    let big_theta_v = nn.unroll_weights_and_biases();
    let reshaped = nn.reshape_weights_and_biases(&big_theta_v).unwrap();
    let ff_fn_output_v =
        SimpleNeuralNetwork::ff(&inputs, &nn.sizes, &reshaped, &evaluate).unwrap();
    assert_eq!(ff_fn_output_v.len(), 2);
    assert_eq!(ff_fn_output_v[0], 0.7005671424739729);
    assert_eq!(ff_fn_output_v[1], 0.8320183851339245);
}

#[test]
fn feed_forward_works_simple_three_layer() {
    let num_neurons_layer_0 = 3;
    let num_neurons_layer_1 = 5;
    let num_neurons_layer_2 = 2;

    // W0: 5x3
    // W1: 2x5

    let inputs = vec![0.0, 0.5, 1.0];

    let weights_0 = matrix_of_rows(&[
        &[0.2, 0.2, 0.2],
        &[0.4, 0.4, 0.4],
        &[0.6, 0.6, 0.6],
        &[0.8, 0.8, 0.8],
        &[1.0, 1.0, 1.0],
    ]);

    let weights_1 =
        matrix_of_rows(&[&[0.5, 0.5, 0.5, 0.5, 0.5], &[0.6, 0.6, 0.6, 0.6, 0.6]]);

    let biases_0 = vec![0.1, 0.1, 0.1, 0.1, 0.1];
    let biases_1 = vec![0.1, 0.1];

    // manually compute the correct output to use in later assertion
    let z0 = z(&weights_0, &biases_0, &inputs, &evaluate);
    let sz0 = sigmoid_vector(&z0, &evaluate);
    println!("sz0: {:?}", sz0);

    let z1 = z(&weights_1, &biases_1, &sz0, &evaluate);
    let sz1 = sigmoid_vector(&z1, &evaluate);
    println!("sz1: {:?}", sz1);

    println!("\n now doing with feed_forward");

    let weights = vec![weights_0, weights_1];
    let biases = vec![biases_0, biases_1];

    let nn = SimpleNeuralNetwork {
        sizes: vec![num_neurons_layer_0, num_neurons_layer_1, num_neurons_layer_2],
        weights,
        biases,
    };
    assert!(nn.is_well_formed());

    let outputs = nn.feed_forward(&inputs, &evaluate).unwrap();

    println!("outputs: {:?}", outputs);

    assert_eq!(outputs.len(), 2);
    assert_eq!(outputs[0], sz1[0]);
    assert_eq!(outputs[1], sz1[1]);

    // the actual outputs, which should be the same as the manually computed outputs
    assert_eq!(outputs[0], 0.8707823298624764);
    assert_eq!(outputs[1], 0.9063170030285769);
}

#[test]
fn feed_forward_works_simple_three_layer_using_feed_forward_capturing() {
    let num_neurons_layer_0 = 3;
    let num_neurons_layer_1 = 5;
    let num_neurons_layer_2 = 2;

    // W0: 5x3
    // W1: 2x5

    let inputs = vec![0.0, 0.5, 1.0];

    let weights_0 = matrix_of_rows(&[
        &[0.2, 0.2, 0.2],
        &[0.4, 0.4, 0.4],
        &[0.6, 0.6, 0.6],
        &[0.8, 0.8, 0.8],
        &[1.0, 1.0, 1.0],
    ]);

    let weights_1 =
        matrix_of_rows(&[&[0.5, 0.5, 0.5, 0.5, 0.5], &[0.6, 0.6, 0.6, 0.6, 0.6]]);

    let biases_0 = vec![0.1, 0.1, 0.1, 0.1, 0.1];
    let biases_1 = vec![0.1, 0.1];

    // manually compute the correct output to use in later assertion
    let z0 = z(&weights_0, &biases_0, &inputs, &evaluate);
    let sz0 = sigmoid_vector(&z0, &evaluate);
    println!("sz0: {:?}", sz0);

    let z1 = z(&weights_1, &biases_1, &sz0, &evaluate);
    let sz1 = sigmoid_vector(&z1, &evaluate);
    println!("sz1: {:?}", sz1);

    println!("\n now doing with feed_forward");

    let weights = vec![weights_0, weights_1];
    let biases = vec![biases_0, biases_1];

    let nn = SimpleNeuralNetwork {
        sizes: vec![num_neurons_layer_0, num_neurons_layer_1, num_neurons_layer_2],
        weights,
        biases,
    };
    assert!(nn.is_well_formed());

    let intermediates = nn.feed_forward_capturing(&inputs, &evaluate).unwrap();
    assert_eq!(intermediates.len(), 3);
    let final_step_values = intermediates.last().unwrap();
    let outputs = final_step_values.activations_vector.clone();

    println!("outputs: {:?}", outputs);

    assert_eq!(outputs.len(), 2);
    assert_eq!(outputs[0], sz1[0]);
    assert_eq!(outputs[1], sz1[1]);

    // the actual outputs, which should be the same as the manually computed outputs
    assert_eq!(outputs[0], 0.8707823298624764);
    assert_eq!(outputs[1], 0.9063170030285769);
}
