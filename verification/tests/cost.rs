use simple_nn::cost::quadratic_cost;
use simple_nn::gradient_check::vector_length;
use simple_nn::matrix::{Matrix, MatrixShape};
use simple_nn::network::{SimpleNeuralNetwork, TrainingDataPoint};
use simple_nn::scalar::Operation;

fn evaluate(op: Operation<f64>) -> f64 {
    match op {
        Operation::Add(a, b) => a + b,
        Operation::Sub(a, b) => a - b,
        Operation::Mul(a, b) => a * b,
        Operation::Div(a, b) => a / b,
        Operation::Exp(a) => a.exp(),
        Operation::Sqrt(a) => a.sqrt(),
        Operation::Whole(n) => n as f64,
    }
}

fn matrix_of_rows(rows: &[&[f64]]) -> Matrix<f64> {
    let columns = rows[0].len();
    let mut data = Vec::new();
    for row in rows {
        assert_eq!(row.len(), columns);
        data.extend_from_slice(row);
    }
    Matrix::new_with_shape_and_values(&MatrixShape::new(rows.len(), columns), &data).unwrap()
}

fn get_simple_get_2_3_1_nn_for_test() -> SimpleNeuralNetwork<f64> {
    let num_neurons_layer_0 = 2;
    let num_neurons_layer_1 = 3;
    let num_neurons_layer_2 = 1;

    // 3x2
    let weights_0 = matrix_of_rows(&[&[0.2, 0.2], &[0.4, 0.4], &[0.6, 0.6]]);

    // 1x3
    let weights_1 = matrix_of_rows(&[&[0.5, 0.5, 0.5]]);

    let biases_0 = vec![0.1, 0.1, 0.1];
    let biases_1 = vec![0.1];

    let weights = vec![weights_0, weights_1];
    let biases = vec![biases_0, biases_1];

    let nn = SimpleNeuralNetwork {
        sizes: vec![num_neurons_layer_0, num_neurons_layer_1, num_neurons_layer_2],
        weights,
        biases,
    };
    assert!(nn.is_well_formed());

    nn
}

fn get_three_layer_multiple_output_nn_for_test() -> SimpleNeuralNetwork<f64> {
    let num_neurons_layer_0 = 3;
    let num_neurons_layer_1 = 5;
    let num_neurons_layer_2 = 2;

    // W0: 5x3
    // W1: 2x5

    let weights_0 = matrix_of_rows(&[
        &[0.2, 0.2, 0.2],
        &[0.4, 0.4, 0.4],
        &[0.6, 0.6, 0.6],
        &[0.8, 0.8, 0.8],
        &[1.0, 1.0, 1.0],
    ]);

    let weights_1 =
        matrix_of_rows(&[&[0.5, 0.5, 0.5, 0.5, 0.5], &[0.6, 0.6, 0.6, 0.6, 0.6]]);

    let biases_0 = vec![0.1, 0.1, 0.1, 0.1, 0.1];
    let biases_1 = vec![0.1, 0.1];

    let weights = vec![weights_0, weights_1];
    let biases = vec![biases_0, biases_1];

    let nn = SimpleNeuralNetwork {
        sizes: vec![num_neurons_layer_0, num_neurons_layer_1, num_neurons_layer_2],
        weights,
        biases,
    };
    assert!(nn.is_well_formed());

    nn
}

#[test]
pub fn test_quadratic_cost_fn() {
    let inputs = vec![0.0, 0.5, 1.0];
    let targets = vec![0.0, 0.5, 1.0];
    let cost = quadratic_cost(&inputs, &targets, &evaluate).unwrap();
    assert_eq!(cost, 0.0);

    let inputs = vec![4.0, 4.0];
    let targets = vec![2.0, 2.0];
    let cost = quadratic_cost(&inputs, &targets, &evaluate).unwrap();
    assert_eq!(cost, 4.0);
}

#[test]
pub fn test_cost_single_tr_ex_single_output_neuron() {
    let nn = get_simple_get_2_3_1_nn_for_test();

    // let's go for y(x0, x1) = x0 + x1;
    let tr_ex = TrainingDataPoint { input_v: vec![1.0, 1.0], desired_output_v: vec![3.0] };

    let c0 = nn.cost_single_tr_ex(&tr_ex, &evaluate).unwrap();

    // manually compute the expected cost for the single neuron in the last layer
    let a_output = nn.feed_forward(&tr_ex.input_v, &evaluate).unwrap();
    assert_eq!(a_output.len(), 1);
    let a_output_value = a_output[0];

    let manual_cost = (3.0 - a_output_value).powi(2) / 2.0;

    println!("a_output: \n{}", a_output_value);
    println!("manual_cost: \n{}", manual_cost);

    assert_eq!(c0, manual_cost);
}

#[test]
pub fn test_cost_single_tr_ex_multiple_output_neurons() {
    let nn = get_three_layer_multiple_output_nn_for_test();

    let tr_ex =
        TrainingDataPoint { input_v: vec![0.0, 0.5, 1.0], desired_output_v: vec![2.0, 2.0] };

    let c0 = nn.cost_single_tr_ex(&tr_ex, &evaluate).unwrap();

    // manually compute the expected cost for the single neuron in the last layer
    // this uses a different method to compute the cost, but it is mathematically equivalent to that used
    // in cost_single_tr_ex
    let actual_output_vector = nn.feed_forward(&tr_ex.input_v, &evaluate).unwrap();
    let diff_vec: Vec<f64> = tr_ex
        .desired_output_v
        .iter()
        .zip(actual_output_vector.iter())
        .map(|(desired, actual)| desired - actual)
        .collect();
    let length_of_diff_vector = vector_length(&diff_vec, &evaluate);
    let length_of_diff_vector_squared = length_of_diff_vector * length_of_diff_vector;
    let over_two = length_of_diff_vector_squared / 2.0;

    println!("\nactual_output_vector: \n{}", format!("{:?}", actual_output_vector));
    println!("diff_vec: \n{}", format!("{:?}", diff_vec));
    println!("length_of_diff_vector: \n{:?}", length_of_diff_vector);
    println!("length_of_diff_vector_squared: \n{:?}", length_of_diff_vector_squared);
    println!("over_two: \n{:?}", over_two);

    println!("c0: \n{}", c0);

    assert_eq!(c0, over_two);
}

#[test]
pub fn test_cost_for_training_set_iterative_impl() {
    let nn = get_three_layer_multiple_output_nn_for_test();

    let mut training_data = Vec::new();

    training_data.push(TrainingDataPoint {
        input_v: vec![0.0, 0.5, 0.9],
        desired_output_v: vec![2.0, 2.0],
    });
    training_data.push(TrainingDataPoint {
        input_v: vec![0.0, 0.5, 1.0],
        desired_output_v: vec![2.0, 2.0],
    });
    training_data.push(TrainingDataPoint {
        input_v: vec![0.0, 0.5, 1.1],
        desired_output_v: vec![2.0, 2.0],
    });

    let c = nn.cost_training_set(&training_data, &evaluate).unwrap();
    let c0 = nn.cost_single_tr_ex(&training_data[0], &evaluate).unwrap();
    let c1 = nn.cost_single_tr_ex(&training_data[1], &evaluate).unwrap();
    let c2 = nn.cost_single_tr_ex(&training_data[2], &evaluate).unwrap();
    let c_avg = (c0 + c1 + c2) / 3.0;
    assert_eq!(c, c_avg);

    // now do the same cost test with big_theta_v
    let big_theta_v = nn.unroll_weights_and_biases();
    let reshaped = nn.reshape_weights_and_biases(&big_theta_v).unwrap();
    assert_eq!(reshaped.len(), 2);
    let cost_big_theta_v = nn.cost_reshaped_set(&training_data, &reshaped, &evaluate).unwrap();
    assert_eq!(cost_big_theta_v, c);

    // from here on, I'm testing the towards_backprop stuff
    println!("\nIn the test - doing the pre backprop stuff: {}", c0);
    let mut error_vectors_for_each_training_example = Vec::new();
    let mut intermediates_for_each_training_example = Vec::new();

    for i_tr_ex in 0..training_data.len() {
        println!("\nfor the {}th training example", i_tr_ex);
        let inputs_v = &training_data[i_tr_ex].input_v;
        let desired_output_v = &training_data[i_tr_ex].desired_output_v;
        let intermediates = nn.feed_forward_capturing(&inputs_v, &evaluate).unwrap();
        println!("for input {}", i_tr_ex);
        println!("intermediates");
        for i_intermediate in 0..intermediates.len() {
            println!("intermediate {}:", i_intermediate);
            println!(" - z_vector:");
            println!("{:?}", intermediates[i_intermediate].z_vector);
            println!(" - activations_vector:");
            println!("{:?}", intermediates[i_intermediate].activations_vector);
        }
        let err_vectors_this_tr_ex = nn.backprop(&desired_output_v, &intermediates, &evaluate);
        error_vectors_for_each_training_example.push(err_vectors_this_tr_ex);
        intermediates_for_each_training_example.push(intermediates);
    }
    assert_eq!(error_vectors_for_each_training_example.len(), 3);
    assert_eq!(intermediates_for_each_training_example.len(), 3);
}
