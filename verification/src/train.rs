//! Training by full-batch gradient descent for a fixed number of epochs.

use vstd::prelude::*;
use crate::backprop::{error_vectors, intermediates_fit, lemma_error_vector_len};
use crate::cost::{average_cost, example_fits, examples_fit};
use crate::error::NetworkError;
use crate::flatten::{lemma_reshape_of_unroll, unrolled};
use crate::forward::{captured, lemma_activation_len, FeedForwardIntermediates};
use crate::gradient::{gradients, pass_fits, passes, passes_fit, PassView};
use crate::gradient_check::{approximate_gradient, check_gradient, gradient_check_failure};
use crate::matrix::{Matrix, MatrixView};
use crate::network::{
    examples, layer_fits, layers_fit, tupled_layers, ExampleView, LayerView, SimpleNeuralNetwork,
    TrainingDataPoint,
};
use crate::options::CheckOptions;
use crate::scalar::{
    apply, exceeds, is_comparison, is_evaluator, is_greater, meaning, minus, ordering, times,
    Arithmetic, Comparison, Operation,
};

verus! {

/// What a completed training run reports: the average cost over the
/// training set before the first epoch and after the last.
#[derive(Clone, Copy, Debug)]
pub struct TrainingReport<T> {
    pub initial_cost: T,
    pub final_cost: T,
}

/// What every example of a training set leaves behind after a forward and
/// a backward pass through the given parameters.
pub open spec fn batch_passes<T>(
    arith: Arithmetic<T>,
    layers: Seq<LayerView<T>>,
    data: Seq<ExampleView<T>>,
) -> Seq<PassView<T>> {
    Seq::new(
        data.len(),
        |t: int|
            {
                let caps = captured(arith, layers, data[t].input);
                PassView { caps, errors: error_vectors(arith, layers, caps, data[t].desired) }
            },
    )
}

/// The gradient of the average cost over the whole training set, as
/// back-propagation finds it.
pub open spec fn analytic_gradient<T>(
    arith: Arithmetic<T>,
    sizes: Seq<usize>,
    layers: Seq<LayerView<T>>,
    data: Seq<ExampleView<T>>,
) -> Seq<LayerView<T>> {
    gradients(arith, sizes, batch_passes(arith, layers, data))
}

/// Every value moved against its gradient: `value - gradient * rate`.
pub open spec fn descended_values<T>(
    arith: Arithmetic<T>,
    values: Seq<T>,
    gradient: Seq<T>,
    rate: T,
) -> Seq<T> {
    Seq::new(values.len(), |p: int| minus(arith, values[p], times(arith, gradient[p], rate)))
}

/// Every weight and bias moved against its gradient.
pub open spec fn descended<T>(
    arith: Arithmetic<T>,
    layers: Seq<LayerView<T>>,
    gradient: Seq<LayerView<T>>,
    rate: T,
) -> Seq<LayerView<T>> {
    Seq::new(
        layers.len(),
        |k: int|
            LayerView {
                weights: MatrixView {
                    rows: layers[k].weights.rows,
                    columns: layers[k].weights.columns,
                    data: descended_values(
                        arith,
                        layers[k].weights.data,
                        gradient[k].weights.data,
                        rate,
                    ),
                },
                biases: descended_values(arith, layers[k].biases, gradient[k].biases, rate),
            },
    )
}

/// The parameters after one epoch: one step against the gradient of the
/// average cost over the whole training set.
pub open spec fn after_epoch<T>(
    arith: Arithmetic<T>,
    sizes: Seq<usize>,
    layers: Seq<LayerView<T>>,
    data: Seq<ExampleView<T>>,
    rate: T,
) -> Seq<LayerView<T>> {
    descended(arith, layers, analytic_gradient(arith, sizes, layers, data), rate)
}

/// What the gradient check of one epoch finds, before the parameters are
/// updated.
pub open spec fn epoch_gradient_check<T>(
    arith: Arithmetic<T>,
    gt: Comparison<T>,
    sizes: Seq<usize>,
    layers: Seq<LayerView<T>>,
    data: Seq<ExampleView<T>>,
) -> Option<NetworkError<T>> {
    gradient_check_failure(
        arith,
        gt,
        approximate_gradient(arith, sizes, layers, data),
        unrolled(analytic_gradient(arith, sizes, layers, data)),
    )
}

/// The checks that a training run performs: those given, or none.
pub open spec fn effective_options(check_options: Option<CheckOptions>) -> CheckOptions {
    match check_options {
        Some(options) => options,
        None => CheckOptions { gradient_checking: false, cost_decreasing_check: false },
    }
}

/// How a training run ends: the parameters it leaves, and the failure
/// that stopped it, if one did.
pub struct TrainingOutcome<T> {
    pub layers: Seq<LayerView<T>>,
    pub failure: Option<NetworkError<T>>,
}

/// The failure that stops the epoch with index `epoch`, if one does:
/// that of the gradient check, where the check is asked for and fails;
/// else the rise of the average cost after the update over `previous`,
/// where the comparison is asked for and the cost rose.
pub open spec fn epoch_failure<T>(
    arith: Arithmetic<T>,
    gt: Comparison<T>,
    sizes: Seq<usize>,
    layers: Seq<LayerView<T>>,
    data: Seq<ExampleView<T>>,
    rate: T,
    options: CheckOptions,
    previous: T,
    epoch: nat,
) -> Option<NetworkError<T>> {
    let current = average_cost(arith, after_epoch(arith, sizes, layers, data, rate), data);
    if options.gradient_checking && epoch_gradient_check(arith, gt, sizes, layers, data) is Some {
        epoch_gradient_check(arith, gt, sizes, layers, data)
    } else if options.cost_decreasing_check && exceeds(gt, current, previous) {
        Some(NetworkError::CostIncreased { previous, current, epoch: epoch as usize })
    } else {
        None
    }
}

/// The parameters that an epoch leaves: those it found, where the
/// gradient check is asked for and fails; else the updated ones.
pub open spec fn epoch_layers<T>(
    arith: Arithmetic<T>,
    gt: Comparison<T>,
    sizes: Seq<usize>,
    layers: Seq<LayerView<T>>,
    data: Seq<ExampleView<T>>,
    rate: T,
    options: CheckOptions,
) -> Seq<LayerView<T>> {
    if options.gradient_checking && epoch_gradient_check(arith, gt, sizes, layers, data) is Some {
        layers
    } else {
        after_epoch(arith, sizes, layers, data, rate)
    }
}

/// What an epoch answers: a mismatch, where some example does not fit the
/// layer sizes; else the failure that stops it, if one does; else the cost
/// to hold the next epoch against, which is the new average cost where
/// the comparison is asked for and `previous` where it is not.
pub open spec fn epoch_result<T>(
    arith: Arithmetic<T>,
    gt: Comparison<T>,
    sizes: Seq<usize>,
    layers: Seq<LayerView<T>>,
    data: Seq<ExampleView<T>>,
    rate: T,
    options: CheckOptions,
    previous: T,
    epoch: nat,
) -> Result<T, NetworkError<T>> {
    if !examples_fit(sizes, data) {
        Err(NetworkError::DimensionMismatch)
    } else {
        match epoch_failure(arith, gt, sizes, layers, data, rate, options, previous, epoch) {
            Some(failure) => Err(failure),
            None => Ok(
                if options.cost_decreasing_check {
                    average_cost(arith, after_epoch(arith, sizes, layers, data, rate), data)
                } else {
                    previous
                },
            ),
        }
    }
}

/// The parameters with which an epoch ends: those it found, where some
/// example does not fit the layer sizes; else those that it leaves.
pub open spec fn epoch_end<T>(
    arith: Arithmetic<T>,
    gt: Comparison<T>,
    sizes: Seq<usize>,
    layers: Seq<LayerView<T>>,
    data: Seq<ExampleView<T>>,
    rate: T,
    options: CheckOptions,
) -> Seq<LayerView<T>> {
    if examples_fit(sizes, data) {
        epoch_layers(arith, gt, sizes, layers, data, rate, options)
    } else {
        layers
    }
}

/// The course of training from the epoch with index `epoch` on, up to
/// `epochs` epochs in all: epoch after epoch until one fails or all are
/// done. Each epoch holds its new average cost against the average cost
/// of the parameters it started from.
pub open spec fn training<T>(
    arith: Arithmetic<T>,
    gt: Comparison<T>,
    sizes: Seq<usize>,
    layers: Seq<LayerView<T>>,
    data: Seq<ExampleView<T>>,
    rate: T,
    options: CheckOptions,
    epoch: nat,
    epochs: nat,
) -> TrainingOutcome<T>
    decreases epochs - epoch,
{
    if epoch >= epochs {
        TrainingOutcome { layers, failure: None }
    } else {
        let next = epoch_layers(arith, gt, sizes, layers, data, rate, options);
        let previous = average_cost(arith, layers, data);
        match epoch_failure(arith, gt, sizes, layers, data, rate, options, previous, epoch) {
            Some(failure) => TrainingOutcome { layers: next, failure: Some(failure) },
            None => training(arith, gt, sizes, next, data, rate, options, epoch + 1, epochs),
        }
    }
}

/// What a training run answers: a mismatch, where some example does not
/// fit the layer sizes; else the failure that stopped it, if one did; else
/// the average cost before the first epoch and after the last.
pub open spec fn train_result<T>(
    arith: Arithmetic<T>,
    gt: Comparison<T>,
    sizes: Seq<usize>,
    layers: Seq<LayerView<T>>,
    data: Seq<ExampleView<T>>,
    epochs: nat,
    rate: T,
    check_options: Option<CheckOptions>,
) -> Result<TrainingReport<T>, NetworkError<T>> {
    let outcome = training(
        arith,
        gt,
        sizes,
        layers,
        data,
        rate,
        effective_options(check_options),
        0,
        epochs,
    );
    if !examples_fit(sizes, data) {
        Err(NetworkError::DimensionMismatch)
    } else {
        match outcome.failure {
            Some(failure) => Err(failure),
            None => Ok(
                TrainingReport {
                    initial_cost: average_cost(arith, layers, data),
                    final_cost: average_cost(arith, outcome.layers, data),
                },
            ),
        }
    }
}

/// The parameters with which a training run ends: those it found, where
/// some example does not fit the layer sizes; else those that the course
/// of training leaves.
pub open spec fn trained_layers<T>(
    arith: Arithmetic<T>,
    gt: Comparison<T>,
    sizes: Seq<usize>,
    layers: Seq<LayerView<T>>,
    data: Seq<ExampleView<T>>,
    epochs: nat,
    rate: T,
    check_options: Option<CheckOptions>,
) -> Seq<LayerView<T>> {
    if examples_fit(sizes, data) {
        training(
            arith,
            gt,
            sizes,
            layers,
            data,
            rate,
            effective_options(check_options),
            0,
            epochs,
        ).layers
    } else {
        layers
    }
}

/// The parameters after `k` epochs that nothing stopped.
pub open spec fn after_epochs<T>(
    arith: Arithmetic<T>,
    sizes: Seq<usize>,
    layers: Seq<LayerView<T>>,
    data: Seq<ExampleView<T>>,
    rate: T,
    k: nat,
) -> Seq<LayerView<T>>
    decreases k,
{
    if k == 0 {
        layers
    } else {
        after_epoch(
            arith,
            sizes,
            after_epochs(arith, sizes, layers, data, rate, (k - 1) as nat),
            data,
            rate,
        )
    }
}

proof fn lemma_training_from<T>(
    arith: Arithmetic<T>,
    gt: Comparison<T>,
    sizes: Seq<usize>,
    layers: Seq<LayerView<T>>,
    data: Seq<ExampleView<T>>,
    rate: T,
    options: CheckOptions,
    from: nat,
    epochs: nat,
)
    requires
        from <= epochs,
        training(
            arith,
            gt,
            sizes,
            after_epochs(arith, sizes, layers, data, rate, from),
            data,
            rate,
            options,
            from,
            epochs,
        ).failure is None,
    ensures
        training(
            arith,
            gt,
            sizes,
            after_epochs(arith, sizes, layers, data, rate, from),
            data,
            rate,
            options,
            from,
            epochs,
        ).layers == after_epochs(arith, sizes, layers, data, rate, epochs),
        forall|k: nat|
            from <= k < epochs ==> epoch_failure(
                arith,
                gt,
                sizes,
                #[trigger] after_epochs(arith, sizes, layers, data, rate, k),
                data,
                rate,
                options,
                average_cost(arith, after_epochs(arith, sizes, layers, data, rate, k), data),
                k,
            ) is None,
    decreases epochs - from,
{
    if from < epochs {
        let here = after_epochs(arith, sizes, layers, data, rate, from);
        assert(epoch_failure(
            arith,
            gt,
            sizes,
            here,
            data,
            rate,
            options,
            average_cost(arith, here, data),
            from,
        ) is None);
        assert(epoch_layers(arith, gt, sizes, here, data, rate, options) == after_epochs(
            arith,
            sizes,
            layers,
            data,
            rate,
            from + 1,
        ));
        lemma_training_from(arith, gt, sizes, layers, data, rate, options, from + 1, epochs);
    }
}

/// A training run that no failure stopped has made every one of its
/// updates, one per epoch, and no epoch found a failure.
pub proof fn lemma_completed_training<T>(
    arith: Arithmetic<T>,
    gt: Comparison<T>,
    sizes: Seq<usize>,
    layers: Seq<LayerView<T>>,
    data: Seq<ExampleView<T>>,
    rate: T,
    options: CheckOptions,
    epochs: nat,
)
    requires
        training(arith, gt, sizes, layers, data, rate, options, 0, epochs).failure is None,
    ensures
        training(arith, gt, sizes, layers, data, rate, options, 0, epochs).layers == after_epochs(
            arith,
            sizes,
            layers,
            data,
            rate,
            epochs,
        ),
        forall|k: nat|
            k < epochs ==> epoch_failure(
                arith,
                gt,
                sizes,
                #[trigger] after_epochs(arith, sizes, layers, data, rate, k),
                data,
                rate,
                options,
                average_cost(arith, after_epochs(arith, sizes, layers, data, rate, k), data),
                k,
            ) is None,
{
    lemma_training_from(arith, gt, sizes, layers, data, rate, options, 0, epochs);
}

/// With the cost check on, a training run that no failure stopped never
/// saw the average cost over the training set rise from one epoch to the
/// next.
pub proof fn lemma_checked_training_never_raises_cost<T>(
    arith: Arithmetic<T>,
    gt: Comparison<T>,
    sizes: Seq<usize>,
    layers: Seq<LayerView<T>>,
    data: Seq<ExampleView<T>>,
    rate: T,
    options: CheckOptions,
    epochs: nat,
)
    requires
        options.cost_decreasing_check,
        training(arith, gt, sizes, layers, data, rate, options, 0, epochs).failure is None,
    ensures
        forall|k: nat|
            k < epochs ==> !exceeds(
                gt,
                average_cost(arith, after_epochs(arith, sizes, layers, data, rate, k + 1), data),
                average_cost(
                    arith,
                    #[trigger] after_epochs(arith, sizes, layers, data, rate, k),
                    data,
                ),
            ),
{
    lemma_completed_training(arith, gt, sizes, layers, data, rate, options, epochs);
    assert forall|k: nat| k < epochs implies !exceeds(
        gt,
        average_cost(arith, after_epochs(arith, sizes, layers, data, rate, k + 1), data),
        average_cost(arith, #[trigger] after_epochs(arith, sizes, layers, data, rate, k), data),
    ) by {
        let here = after_epochs(arith, sizes, layers, data, rate, k);
        assert(epoch_failure(
            arith,
            gt,
            sizes,
            here,
            data,
            rate,
            options,
            average_cost(arith, here, data),
            k,
        ) is None);
        assert(after_epochs(arith, sizes, layers, data, rate, k + 1) == after_epoch(
            arith,
            sizes,
            here,
            data,
            rate,
        ));
    }
}

/// Without checks nothing stops a training run: it makes all its updates.
pub proof fn lemma_unchecked_training_completes<T>(
    arith: Arithmetic<T>,
    gt: Comparison<T>,
    sizes: Seq<usize>,
    layers: Seq<LayerView<T>>,
    data: Seq<ExampleView<T>>,
    rate: T,
    options: CheckOptions,
    epochs: nat,
)
    requires
        !options.gradient_checking,
        !options.cost_decreasing_check,
    ensures
        training(arith, gt, sizes, layers, data, rate, options, 0, epochs) == (TrainingOutcome {
            layers: after_epochs(arith, sizes, layers, data, rate, epochs),
            failure: None,
        }),
{
    lemma_unchecked_from(arith, gt, sizes, layers, data, rate, options, 0, epochs);
}

proof fn lemma_unchecked_from<T>(
    arith: Arithmetic<T>,
    gt: Comparison<T>,
    sizes: Seq<usize>,
    layers: Seq<LayerView<T>>,
    data: Seq<ExampleView<T>>,
    rate: T,
    options: CheckOptions,
    from: nat,
    epochs: nat,
)
    requires
        from <= epochs,
        !options.gradient_checking,
        !options.cost_decreasing_check,
    ensures
        training(
            arith,
            gt,
            sizes,
            after_epochs(arith, sizes, layers, data, rate, from),
            data,
            rate,
            options,
            from,
            epochs,
        ) == (TrainingOutcome {
            layers: after_epochs(arith, sizes, layers, data, rate, epochs),
            failure: None,
        }),
    decreases epochs - from,
{
    if from < epochs {
        let here = after_epochs(arith, sizes, layers, data, rate, from);
        assert(epoch_layers(arith, gt, sizes, here, data, rate, options) == after_epochs(
            arith,
            sizes,
            layers,
            data,
            rate,
            from + 1,
        ));
        lemma_unchecked_from(arith, gt, sizes, layers, data, rate, options, from + 1, epochs);
    }
}

/// A forward pass through fitting parameters leaves intermediates of the
/// lengths that the layer sizes ask for.
pub proof fn lemma_captured_fits<T>(
    arith: Arithmetic<T>,
    sizes: Seq<usize>,
    layers: Seq<LayerView<T>>,
    input: Seq<T>,
)
    requires
        layers_fit(sizes, layers),
        input.len() == sizes[0],
    ensures
        intermediates_fit(sizes, captured(arith, layers, input)),
{
    let caps = captured(arith, layers, input);
    assert forall|l: int| 0 <= l < caps.len() implies (#[trigger] caps[l]).a.len() == sizes[l] by {
        lemma_activation_len(arith, sizes, layers, input, l as nat);
    }
}

/// Moves every value against its gradient.
fn descend_values<T: Copy, E: Fn(Operation<T>) -> T>(
    values: &Vec<T>,
    gradient: &Vec<T>,
    rate: T,
    e: &E,
) -> (r: Vec<T>)
    requires
        is_evaluator(*e),
        values.len() == gradient.len(),
    ensures
        r@ == descended_values(meaning(*e), values@, gradient@, rate),
{
    let n = values.len();
    let mut r: Vec<T> = Vec::new();
    let mut p: usize = 0;
    while p < n
        invariant
            is_evaluator(*e),
            n == values.len(),
            n == gradient.len(),
            p <= n,
            r.len() == p,
            forall|q: int|
                0 <= q < p ==> r[q] == minus(
                    meaning(*e),
                    values[q],
                    times(meaning(*e), gradient[q], rate),
                ),
        decreases n - p,
    {
        let scaled = apply(e, Operation::Mul(gradient[p], rate));
        r.push(apply(e, Operation::Sub(values[p], scaled)));
        p += 1;
    }
    r
}

impl<T: Copy> SimpleNeuralNetwork<T> {
    /// Runs every example of the training set forward and backward
    /// through the network and keeps what each leaves behind.
    pub fn collect_passes<E: Fn(Operation<T>) -> T>(
        &self,
        training_data: &Vec<TrainingDataPoint<T>>,
        e: &E,
    ) -> (r: Result<Vec<(Vec<FeedForwardIntermediates<T>>, Vec<Vec<T>>)>, NetworkError<T>>)
        requires
            self.wf(),
            is_evaluator(*e),
        ensures
            r is Ok <==> examples_fit(self@.sizes, examples(training_data@)),
            r matches Ok(batch) ==> passes(batch@) == batch_passes(
                meaning(*e),
                self@.layers,
                examples(training_data@),
            ),
            r matches Ok(batch) ==> passes_fit(self@.sizes, passes(batch@)),
            r matches Err(err) ==> err is DimensionMismatch,
    {
        let n = training_data.len();
        let ghost sizes = self@.sizes;
        let ghost layers = self@.layers;
        let ghost data = examples(training_data@);
        let ghost target = batch_passes(meaning(*e), layers, data);
        let mut per_tr_ex_data: Vec<(Vec<FeedForwardIntermediates<T>>, Vec<Vec<T>>)> = Vec::new();
        let mut t: usize = 0;
        while t < n
            invariant
                self.wf(),
                is_evaluator(*e),
                n == training_data.len(),
                sizes == self@.sizes,
                layers == self@.layers,
                data == examples(training_data@),
                target == batch_passes(meaning(*e), layers, data),
                t <= n,
                per_tr_ex_data.len() == t,
                forall|q: int| 0 <= q < t ==> example_fits(sizes, #[trigger] data[q]),
                forall|q: int|
                    0 <= q < t ==> {
                        &&& #[trigger] passes(per_tr_ex_data@)[q] == target[q]
                        &&& pass_fits(sizes, target[q])
                    },
            decreases n - t,
        {
            let tr_ex = &training_data[t];
            let ghost example = data[t as int];
            if tr_ex.desired_output_v.len() != self.sizes[self.sizes.len() - 1] {
                return Err(NetworkError::DimensionMismatch);
            }
            let caps = match self.feed_forward_capturing(&tr_ex.input_v, e) {
                Ok(caps) => caps,
                Err(err) => {
                    return Err(err);
                },
            };
            proof {
                lemma_captured_fits(meaning(*e), sizes, layers, example.input);
            }
            let errors = self.backprop(&tr_ex.desired_output_v, &caps, e);
            proof {
                let pass = target[t as int];
                assert forall|k: int| 0 <= k < pass.errors.len() implies (
                #[trigger] pass.errors[k]).len() == sizes[k + 1] by {
                    lemma_error_vector_len(
                        meaning(*e),
                        sizes,
                        layers,
                        pass.caps,
                        example.desired,
                        k,
                    );
                }
            }
            let ghost before = per_tr_ex_data@;
            per_tr_ex_data.push((caps, errors));
            proof {
                assert forall|q: int| 0 <= q < t + 1 implies #[trigger] passes(
                    per_tr_ex_data@,
                )[q] == target[q] by {
                    if q < t {
                        assert(passes(before)[q] == target[q]);
                    }
                }
            }
            t += 1;
        }
        Ok(per_tr_ex_data)
    }

    /// Moves every weight and bias against its gradient, by the gradient
    /// times the learning rate.
    pub fn descend<E: Fn(Operation<T>) -> T>(
        &mut self,
        gradients: &Vec<(Matrix<T>, Vec<T>)>,
        learning_rate: T,
        e: &E,
    )
        requires
            old(self).wf(),
            is_evaluator(*e),
            layers_fit(old(self)@.sizes, tupled_layers(gradients@)),
        ensures
            final(self).wf(),
            final(self)@.sizes == old(self)@.sizes,
            final(self)@.layers == descended(
                meaning(*e),
                old(self)@.layers,
                tupled_layers(gradients@),
                learning_rate,
            ),
    {
        let steps = self.weights.len();
        let ghost sizes = self@.sizes;
        let ghost layers = self@.layers;
        let ghost gradient = tupled_layers(gradients@);
        let ghost target = descended(meaning(*e), layers, gradient, learning_rate);
        let mut weights: Vec<Matrix<T>> = Vec::new();
        let mut biases: Vec<Vec<T>> = Vec::new();
        let mut k: usize = 0;
        while k < steps
            invariant
                self.wf(),
                is_evaluator(*e),
                steps == self.weights.len(),
                sizes == self@.sizes,
                layers == self@.layers,
                gradient == tupled_layers(gradients@),
                layers_fit(sizes, gradient),
                target == descended(meaning(*e), layers, gradient, learning_rate),
                k <= steps,
                weights.len() == k,
                biases.len() == k,
                forall|q: int|
                    0 <= q < k ==> {
                        &&& (#[trigger] weights[q])@ == target[q].weights
                        &&& biases[q]@ == target[q].biases
                    },
            decreases steps - k,
        {
            proof {
                assert(layer_fits(sizes, layers[k as int], k as int));
                assert(layer_fits(sizes, gradient[k as int], k as int));
            }
            let layer_weights = &self.weights[k];
            let weights_grad = &gradients[k].0;
            let bias_grad = &gradients[k].1;
            let data = descend_values(&layer_weights.data, &weights_grad.data, learning_rate, e);
            let moved_biases = descend_values(&self.biases[k], bias_grad, learning_rate, e);
            weights.push(
                Matrix { rows: layer_weights.rows, columns: layer_weights.columns, data },
            );
            biases.push(moved_biases);
            k += 1;
        }
        self.weights = weights;
        self.biases = biases;
        assert(forall|q: int|
            0 <= q < target.len() ==> layer_fits(sizes, #[trigger] target[q], q));
    }

    /// Runs the epoch with index `epoch`: a forward and a backward pass
    /// for every example, the mean gradient over all of them, the
    /// gradient check where it is asked for, the update, and the
    /// comparison of the new average cost with `prev_cost` where that is
    /// asked for. Gives the cost to hold the next epoch against: the new
    /// average cost where it was computed, else `prev_cost`.
    ///
    /// Fails with the network untouched when some example does not fit the
    /// input and output layers, or when the gradient check fails; fails
    /// with the network updated when the cost rose.
    pub fn run_epoch<E: Fn(Operation<T>) -> T, C: Fn(T, T) -> bool>(
        &mut self,
        training_data: &Vec<TrainingDataPoint<T>>,
        learning_rate: T,
        check_options: &CheckOptions,
        prev_cost: T,
        epoch: usize,
        e: &E,
        c: &C,
    ) -> (r: Result<T, NetworkError<T>>)
        requires
            old(self).wf(),
            is_evaluator(*e),
            is_comparison(*c),
        ensures
            final(self).wf(),
            final(self)@.sizes == old(self)@.sizes,
            final(self)@.layers == epoch_end(
                meaning(*e),
                ordering(*c),
                old(self)@.sizes,
                old(self)@.layers,
                examples(training_data@),
                learning_rate,
                *check_options,
            ),
            r == epoch_result(
                meaning(*e),
                ordering(*c),
                old(self)@.sizes,
                old(self)@.layers,
                examples(training_data@),
                learning_rate,
                *check_options,
                prev_cost,
                epoch as nat,
            ),
    {
        let ghost sizes = self@.sizes;
        let ghost layers = self@.layers;
        let ghost data = examples(training_data@);
        let per_tr_ex_data = match self.collect_passes(training_data, e) {
            Ok(batch) => batch,
            Err(_) => { return Err(NetworkError::DimensionMismatch); },
        };
        let gradients = self.compute_gradients(&per_tr_ex_data, e);

        if check_options.gradient_checking {
            let approx_gradients_big_v = match self.approximate_cost_gradient(training_data, e) {
                Ok(gradient) => gradient,
                Err(err) => { return Err(err); },
            };
            let d_vec = self.unroll_gradients(&gradients);
            proof {
                lemma_reshape_of_unroll(sizes, layers);
                lemma_reshape_of_unroll(sizes, tupled_layers(gradients@));
            }
            match check_gradient(&approx_gradients_big_v, &d_vec, e, c) {
                Ok(()) => {},
                Err(failure) => { return Err(failure); },
            }
        }

        self.descend(&gradients, learning_rate, e);

        if check_options.cost_decreasing_check {
            let cost = match self.cost_training_set(training_data, e) {
                Ok(cost) => cost,
                Err(err) => { return Err(err); },
            };
            if is_greater(c, cost, prev_cost) {
                return Err(
                    NetworkError::CostIncreased { previous: prev_cost, current: cost, epoch },
                );
            }
            Ok(cost)
        } else {
            Ok(prev_cost)
        }
    }

    /// Trains the network by full-batch gradient descent for a fixed
    /// number of epochs.
    ///
    /// Fails at once, with the network untouched, when some example does
    /// not fit the input and output layers. With gradient checking on,
    /// fails in the first epoch whose analytic gradient lies too far from
    /// its finite-difference approximation, before that epoch's update.
    /// With the cost check on, fails in the first epoch whose update
    /// raised the average cost, after that update.
    pub fn train<E: Fn(Operation<T>) -> T, C: Fn(T, T) -> bool>(
        &mut self,
        training_data: &Vec<TrainingDataPoint<T>>,
        epochs: usize,
        learning_rate: T,
        check_options: Option<CheckOptions>,
        e: &E,
        c: &C,
    ) -> (r: Result<TrainingReport<T>, NetworkError<T>>)
        requires
            old(self).wf(),
            is_evaluator(*e),
            is_comparison(*c),
        ensures
            final(self).wf(),
            final(self)@.sizes == old(self)@.sizes,
            final(self)@.layers == trained_layers(
                meaning(*e),
                ordering(*c),
                old(self)@.sizes,
                old(self)@.layers,
                examples(training_data@),
                epochs as nat,
                learning_rate,
                check_options,
            ),
            r == train_result(
                meaning(*e),
                ordering(*c),
                old(self)@.sizes,
                old(self)@.layers,
                examples(training_data@),
                epochs as nat,
                learning_rate,
                check_options,
            ),
    {
        let ghost sizes = self@.sizes;
        let ghost start = self@.layers;
        let ghost data = examples(training_data@);
        let initial_cost = match self.cost_training_set(training_data, e) {
            Ok(cost) => cost,
            Err(_) => { return Err(NetworkError::DimensionMismatch); },
        };
        let options = match check_options {
            Some(given) => given,
            None => CheckOptions::no_checks(),
        };
        let ghost whole_run = training(
            meaning(*e),
            ordering(*c),
            sizes,
            start,
            data,
            learning_rate,
            options,
            0,
            epochs as nat,
        );
        let mut prev_cost = initial_cost;
        let mut epochs_done: usize = 0;
        while epochs_done < epochs
            invariant
                self.wf(),
                is_evaluator(*e),
                is_comparison(*c),
                sizes == old(self)@.sizes,
                sizes == self@.sizes,
                data == examples(training_data@),
                examples_fit(sizes, data),
                options == effective_options(check_options),
                epochs_done <= epochs,
                options.cost_decreasing_check ==> prev_cost == average_cost(
                    meaning(*e),
                    self@.layers,
                    data,
                ),
                whole_run == training(
                    meaning(*e),
                    ordering(*c),
                    sizes,
                    old(self)@.layers,
                    data,
                    learning_rate,
                    options,
                    0,
                    epochs as nat,
                ),
                whole_run == training(
                    meaning(*e),
                    ordering(*c),
                    sizes,
                    self@.layers,
                    data,
                    learning_rate,
                    options,
                    epochs_done as nat,
                    epochs as nat,
                ),
            decreases epochs - epochs_done,
        {
            match self.run_epoch(
                training_data,
                learning_rate,
                &options,
                prev_cost,
                epochs_done,
                e,
                c,
            ) {
                Ok(cost) => { prev_cost = cost; },
                Err(failure) => { return Err(failure); },
            }
            epochs_done += 1;
        }
        let final_cost = match self.cost_training_set(training_data, e) {
            Ok(cost) => cost,
            Err(err) => { return Err(err); },
        };
        Ok(TrainingReport { initial_cost, final_cost })
    }
}

} // verus!
