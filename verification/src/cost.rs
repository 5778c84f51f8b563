//! The quadratic cost of an answer, of an example and of a training set.

use vstd::prelude::*;
use crate::error::NetworkError;
use crate::forward::{forward_output, lemma_activation_len};
use crate::matrix::Matrix;
use crate::network::{
    examples, layers_fit, tupled_layers, ExampleView, LayerView, SimpleNeuralNetwork,
    TrainingDataPoint,
};
use crate::scalar::{
    apply, is_evaluator, meaning, minus, over, plus, square, two, whole, zero, Arithmetic,
    Operation,
};

verus! {

/// The sum, taken from the left and starting at zero, of the squares of
/// `desired[k] - actual[k]` for `k` below `n`.
pub open spec fn squared_error_sum<T>(
    arith: Arithmetic<T>,
    desired: Seq<T>,
    actual: Seq<T>,
    n: nat,
) -> T
    decreases n,
{
    if n == 0 {
        zero(arith)
    } else {
        plus(
            arith,
            squared_error_sum(arith, desired, actual, (n - 1) as nat),
            square(arith, minus(arith, desired[n - 1], actual[n - 1])),
        )
    }
}

/// The quadratic cost: half the sum of the squared differences.
pub open spec fn quadratic<T>(
    arith: Arithmetic<T>,
    desired: Seq<T>,
    actual: Seq<T>,
) -> T {
    over(arith, squared_error_sum(arith, desired, actual, desired.len()), two(arith))
}

/// The example has an input for every input neuron and a wanted value for
/// every output neuron.
pub open spec fn example_fits<T>(sizes: Seq<usize>, example: ExampleView<T>) -> bool {
    &&& example.input.len() == sizes[0]
    &&& example.desired.len() == sizes[sizes.len() - 1]
}

/// Every example of the set fits the layer sizes.
pub open spec fn examples_fit<T>(sizes: Seq<usize>, data: Seq<ExampleView<T>>) -> bool {
    forall|k: int| 0 <= k < data.len() ==> example_fits(sizes, #[trigger] data[k])
}

/// The quadratic cost of the network's answer to one example.
pub open spec fn example_cost<T>(
    arith: Arithmetic<T>,
    layers: Seq<LayerView<T>>,
    example: ExampleView<T>,
) -> T {
    quadratic(arith, example.desired, forward_output(arith, layers, example.input))
}

/// The sum, taken from the left and starting at zero, of the costs of the
/// first `n` examples.
pub open spec fn cost_sum<T>(
    arith: Arithmetic<T>,
    layers: Seq<LayerView<T>>,
    data: Seq<ExampleView<T>>,
    n: nat,
) -> T
    decreases n,
{
    if n == 0 {
        zero(arith)
    } else {
        plus(
            arith,
            cost_sum(arith, layers, data, (n - 1) as nat),
            example_cost(arith, layers, data[n - 1]),
        )
    }
}

/// The arithmetic mean of the costs of all examples.
pub open spec fn average_cost<T>(
    arith: Arithmetic<T>,
    layers: Seq<LayerView<T>>,
    data: Seq<ExampleView<T>>,
) -> T {
    over(arith, cost_sum(arith, layers, data, data.len()), whole(arith, data.len() as usize))
}

/// The quadratic cost of a vector against itself is zero, wherever every
/// entry of the vector cancels against itself and zero stays zero when it
/// is squared, added to itself and halved.
pub proof fn lemma_cost_of_identical_vectors<T>(arith: Arithmetic<T>, v: Seq<T>)
    requires
        forall|i: int| 0 <= i < v.len() ==> minus(arith, #[trigger] v[i], v[i]) == zero(arith),
        square(arith, zero(arith)) == zero(arith),
        plus(arith, zero(arith), zero(arith)) == zero(arith),
        over(arith, zero(arith), two(arith)) == zero(arith),
    ensures
        quadratic(arith, v, v) == zero(arith),
{
    lemma_squared_error_of_identical_vectors(arith, v, v.len());
}

proof fn lemma_squared_error_of_identical_vectors<T>(
    arith: Arithmetic<T>,
    v: Seq<T>,
    n: nat,
)
    requires
        n <= v.len(),
        forall|i: int| 0 <= i < v.len() ==> minus(arith, #[trigger] v[i], v[i]) == zero(arith),
        square(arith, zero(arith)) == zero(arith),
        plus(arith, zero(arith), zero(arith)) == zero(arith),
    ensures
        squared_error_sum(arith, v, v, n) == zero(arith),
    decreases n,
{
    if n > 0 {
        lemma_squared_error_of_identical_vectors(arith, v, (n - 1) as nat);
    }
}

/// Computes the quadratic cost of an answer against the wanted one. Fails
/// when the two differ in length.
pub fn quadratic_cost<T: Copy, E: Fn(Operation<T>) -> T>(
    desired_v: &Vec<T>,
    actual_v: &Vec<T>,
    e: &E,
) -> (r: Result<T, NetworkError<T>>)
    requires
        is_evaluator(*e),
    ensures
        r is Ok <==> desired_v.len() == actual_v.len(),
        r matches Ok(cost) ==> cost == quadratic(meaning(*e), desired_v@, actual_v@),
        r matches Err(err) ==> err is DimensionMismatch,
{
    let n = desired_v.len();
    if n != actual_v.len() {
        return Err(NetworkError::DimensionMismatch);
    }
    let mut sum = apply(e, Operation::Whole(0));
    let mut i: usize = 0;
    while i < n
        invariant
            is_evaluator(*e),
            n == desired_v.len(),
            n == actual_v.len(),
            i <= n,
            sum == squared_error_sum(meaning(*e), desired_v@, actual_v@, i as nat),
        decreases n - i,
    {
        let difference = apply(e, Operation::Sub(desired_v[i], actual_v[i]));
        let squared = apply(e, Operation::Mul(difference, difference));
        sum = apply(e, Operation::Add(sum, squared));
        i += 1;
    }
    let two = apply(e, Operation::Whole(2));
    Ok(apply(e, Operation::Div(sum, two)))
}

impl<T: Copy> SimpleNeuralNetwork<T> {
    /// The cost of the network's answer to one example. Fails when the
    /// example does not fit the input and output layers.
    pub fn cost_single_tr_ex<E: Fn(Operation<T>) -> T>(
        &self,
        tr_ex: &TrainingDataPoint<T>,
        e: &E,
    ) -> (r: Result<T, NetworkError<T>>)
        requires
            self.wf(),
            is_evaluator(*e),
        ensures
            r is Ok <==> example_fits(self@.sizes, tr_ex@),
            r matches Ok(cost) ==> cost == example_cost(meaning(*e), self@.layers, tr_ex@),
            r matches Err(err) ==> err is DimensionMismatch,
    {
        match self.feed_forward(&tr_ex.input_v, e) {
            Ok(outputs) => {
                proof {
                    lemma_activation_len(
                        meaning(*e),
                        self@.sizes,
                        self@.layers,
                        tr_ex@.input,
                        self@.layers.len(),
                    );
                }
                quadratic_cost(&tr_ex.desired_output_v, &outputs, e)
            },
            Err(err) => Err(err),
        }
    }

    /// The average cost over a training set. Fails when some example does
    /// not fit the input and output layers.
    pub fn cost_training_set<E: Fn(Operation<T>) -> T>(
        &self,
        training_data: &Vec<TrainingDataPoint<T>>,
        e: &E,
    ) -> (r: Result<T, NetworkError<T>>)
        requires
            self.wf(),
            is_evaluator(*e),
        ensures
            r is Ok <==> examples_fit(self@.sizes, examples(training_data@)),
            r matches Ok(cost) ==> cost == average_cost(
                meaning(*e),
                self@.layers,
                examples(training_data@),
            ),
            r matches Err(err) ==> err is DimensionMismatch,
    {
        let n = training_data.len();
        let ghost data = examples(training_data@);
        let mut sum = apply(e, Operation::Whole(0));
        let mut i: usize = 0;
        while i < n
            invariant
                self.wf(),
                is_evaluator(*e),
                n == training_data.len(),
                data == examples(training_data@),
                i <= n,
                forall|k: int| 0 <= k < i ==> example_fits(self@.sizes, #[trigger] data[k]),
                sum == cost_sum(meaning(*e), self@.layers, data, i as nat),
            decreases n - i,
        {
            match self.cost_single_tr_ex(&training_data[i], e) {
                Ok(cost) => {
                    sum = apply(e, Operation::Add(sum, cost));
                },
                Err(err) => {
                    assert(!example_fits(self@.sizes, data[i as int]));
                    return Err(err);
                },
            }
            i += 1;
        }
        let count = apply(e, Operation::Whole(n));
        Ok(apply(e, Operation::Div(sum, count)))
    }

    /// The cost of one example under parameters given apart from the
    /// network. Fails when the example does not fit the input layer of the
    /// network, or the input and output layers that `sizes` describes.
    pub fn cost_reshaped_single<E: Fn(Operation<T>) -> T>(
        &self,
        tr_ex: &TrainingDataPoint<T>,
        sizes: &Vec<usize>,
        wb: &Vec<(Matrix<T>, Vec<T>)>,
        e: &E,
    ) -> (r: Result<T, NetworkError<T>>)
        requires
            self.sizes.len() >= 1,
            layers_fit(sizes@, tupled_layers(wb@)),
            is_evaluator(*e),
        ensures
            r is Ok <==> tr_ex@.input.len() == self@.sizes[0] && example_fits(sizes@, tr_ex@),
            r matches Ok(cost) ==> cost == example_cost(meaning(*e), tupled_layers(wb@), tr_ex@),
            r matches Err(err) ==> err is DimensionMismatch,
    {
        if tr_ex.input_v.len() != self.sizes[0] {
            return Err(NetworkError::DimensionMismatch);
        }
        match Self::ff(&tr_ex.input_v, sizes, wb, e) {
            Ok(output_v) => {
                proof {
                    let layers = tupled_layers(wb@);
                    lemma_activation_len(meaning(*e), sizes@, layers, tr_ex@.input, layers.len());
                }
                quadratic_cost(&tr_ex.desired_output_v, &output_v, e)
            },
            Err(err) => Err(err),
        }
    }

    /// The average cost over a training set under parameters given apart
    /// from the network. Fails when some example does not fit the input
    /// and output layers.
    pub fn cost_reshaped_set<E: Fn(Operation<T>) -> T>(
        &self,
        training_data: &Vec<TrainingDataPoint<T>>,
        wb: &Vec<(Matrix<T>, Vec<T>)>,
        e: &E,
    ) -> (r: Result<T, NetworkError<T>>)
        requires
            layers_fit(self@.sizes, tupled_layers(wb@)),
            is_evaluator(*e),
        ensures
            r is Ok <==> examples_fit(self@.sizes, examples(training_data@)),
            r matches Ok(cost) ==> cost == average_cost(
                meaning(*e),
                tupled_layers(wb@),
                examples(training_data@),
            ),
            r matches Err(err) ==> err is DimensionMismatch,
    {
        let n = training_data.len();
        let ghost data = examples(training_data@);
        let ghost layers = tupled_layers(wb@);
        let mut sum = apply(e, Operation::Whole(0));
        let mut i: usize = 0;
        while i < n
            invariant
                layers == tupled_layers(wb@),
                layers_fit(self@.sizes, layers),
                is_evaluator(*e),
                n == training_data.len(),
                data == examples(training_data@),
                i <= n,
                forall|k: int| 0 <= k < i ==> example_fits(self@.sizes, #[trigger] data[k]),
                sum == cost_sum(meaning(*e), layers, data, i as nat),
            decreases n - i,
        {
            match self.cost_reshaped_single(&training_data[i], &self.sizes, wb, e) {
                Ok(cost) => {
                    sum = apply(e, Operation::Add(sum, cost));
                },
                Err(err) => {
                    assert(!example_fits(self@.sizes, data[i as int]));
                    return Err(err);
                },
            }
            i += 1;
        }
        let count = apply(e, Operation::Whole(n));
        Ok(apply(e, Operation::Div(sum, count)))
    }
}

} // verus!
