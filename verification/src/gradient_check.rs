//! The gradient check: the gradient of back-propagation held against a
//! finite-difference approximation.

use vstd::prelude::*;
use crate::cost::{average_cost, examples_fit, squared_error_sum};
use crate::error::NetworkError;
use crate::flatten::{lemma_reshape_of_unroll, parameter_count, reshaped, unrolled};
use crate::network::{examples, ExampleView, LayerView, SimpleNeuralNetwork, TrainingDataPoint};
use crate::scalar::{
    apply, epsilon, epsilon_value, exceeds, is_comparison, is_evaluator, is_greater, meaning,
    minus, ordering, over, plus, sqrt_of, square, times, two, zero, Arithmetic, Comparison,
    Operation,
};

verus! {

/// The approximate partial derivative of the average cost by parameter
/// `i`: the central difference of the cost at the parameter raised and
/// lowered by the perturbation, over twice the perturbation.
pub open spec fn finite_difference<T>(
    arith: Arithmetic<T>,
    sizes: Seq<usize>,
    theta: Seq<T>,
    data: Seq<ExampleView<T>>,
    i: int,
) -> T {
    let raised = theta.update(i, plus(arith, theta[i], epsilon(arith)));
    let lowered = theta.update(i, minus(arith, theta[i], epsilon(arith)));
    over(
        arith,
        minus(
            arith,
            average_cost(arith, reshaped(sizes, raised), data),
            average_cost(arith, reshaped(sizes, lowered), data),
        ),
        times(arith, two(arith), epsilon(arith)),
    )
}

/// The approximate gradient of the average cost, one entry per parameter
/// in the order in which the parameters are unrolled.
pub open spec fn approximate_gradient<T>(
    arith: Arithmetic<T>,
    sizes: Seq<usize>,
    layers: Seq<LayerView<T>>,
    data: Seq<ExampleView<T>>,
) -> Seq<T> {
    let theta = unrolled(layers);
    Seq::new(theta.len(), |i: int| finite_difference(arith, sizes, theta, data, i))
}

/// The sum, taken from the left and starting at zero, of the squares of
/// the first `n` entries.
pub open spec fn squared_sum<T>(arith: Arithmetic<T>, a: Seq<T>, n: nat) -> T
    decreases n,
{
    if n == 0 {
        zero(arith)
    } else {
        plus(arith, squared_sum(arith, a, (n - 1) as nat), square(arith, a[n - 1]))
    }
}

/// The Euclidean length of a vector.
pub open spec fn euclidean_length<T>(arith: Arithmetic<T>, a: Seq<T>) -> T {
    sqrt_of(arith, squared_sum(arith, a, a.len()))
}

/// The Euclidean distance between two vectors of one length.
pub open spec fn euclidean_distance<T>(arith: Arithmetic<T>, a: Seq<T>, b: Seq<T>) -> T {
    sqrt_of(arith, squared_error_sum(arith, a, b, a.len()))
}

/// The distance between the two gradients over the sum of their lengths.
pub open spec fn normalized_distance<T>(
    arith: Arithmetic<T>,
    approximate: Seq<T>,
    analytic: Seq<T>,
) -> T {
    over(
        arith,
        euclidean_distance(arith, approximate, analytic),
        plus(arith, euclidean_length(arith, approximate), euclidean_length(arith, analytic)),
    )
}

/// How far apart the two gradients may lie: the square of the
/// perturbation.
pub open spec fn tolerance<T>(arith: Arithmetic<T>) -> T {
    times(arith, epsilon(arith), epsilon(arith))
}

/// What the gradient check finds: nothing, where neither the distance
/// between the two gradients nor their normalized distance exceeds the
/// tolerance; else the failure, with the first of the two that does.
pub open spec fn gradient_check_failure<T>(
    arith: Arithmetic<T>,
    gt: Comparison<T>,
    approximate: Seq<T>,
    analytic: Seq<T>,
) -> Option<NetworkError<T>> {
    let distance = euclidean_distance(arith, approximate, analytic);
    let normalized = normalized_distance(arith, approximate, analytic);
    if exceeds(gt, distance, tolerance(arith)) {
        Some(NetworkError::FailedGradientCheck { distance, tolerance: tolerance(arith) })
    } else if exceeds(gt, normalized, tolerance(arith)) {
        Some(
            NetworkError::FailedGradientCheck { distance: normalized, tolerance: tolerance(arith) },
        )
    } else {
        None
    }
}

/// What the gradient check answers: the failure it found, or nothing.
pub open spec fn gradient_check_result<T>(
    arith: Arithmetic<T>,
    gt: Comparison<T>,
    approximate: Seq<T>,
    analytic: Seq<T>,
) -> Result<(), NetworkError<T>> {
    match gradient_check_failure(arith, gt, approximate, analytic) {
        Some(failure) => Err(failure),
        None => Ok(()),
    }
}

/// Computes the Euclidean length of a vector.
pub fn vector_length<T: Copy, E: Fn(Operation<T>) -> T>(a: &Vec<T>, e: &E) -> (r: T)
    requires
        is_evaluator(*e),
    ensures
        r == euclidean_length(meaning(*e), a@),
{
    let mut sum = apply(e, Operation::Whole(0));
    let mut i: usize = 0;
    while i < a.len()
        invariant
            is_evaluator(*e),
            i <= a.len(),
            sum == squared_sum(meaning(*e), a@, i as nat),
        decreases a.len() - i,
    {
        let squared = apply(e, Operation::Mul(a[i], a[i]));
        sum = apply(e, Operation::Add(sum, squared));
        i += 1;
    }
    apply(e, Operation::Sqrt(sum))
}

/// Computes the Euclidean distance between two vectors of one length.
pub fn vector_distance<T: Copy, E: Fn(Operation<T>) -> T>(a: &Vec<T>, b: &Vec<T>, e: &E) -> (r: T)
    requires
        is_evaluator(*e),
        a.len() == b.len(),
    ensures
        r == euclidean_distance(meaning(*e), a@, b@),
{
    let n = a.len();
    let mut sum = apply(e, Operation::Whole(0));
    let mut i: usize = 0;
    while i < n
        invariant
            is_evaluator(*e),
            n == a.len(),
            n == b.len(),
            i <= n,
            sum == squared_error_sum(meaning(*e), a@, b@, i as nat),
        decreases n - i,
    {
        let difference = apply(e, Operation::Sub(a[i], b[i]));
        let squared = apply(e, Operation::Mul(difference, difference));
        sum = apply(e, Operation::Add(sum, squared));
        i += 1;
    }
    apply(e, Operation::Sqrt(sum))
}

/// Holds the gradient found by back-propagation against its
/// finite-difference approximation. Fails when their distance, or else
/// their normalized distance, exceeds the tolerance.
pub fn check_gradient<T: Copy, E: Fn(Operation<T>) -> T, C: Fn(T, T) -> bool>(
    approximate: &Vec<T>,
    analytic: &Vec<T>,
    e: &E,
    c: &C,
) -> (r: Result<(), NetworkError<T>>)
    requires
        is_evaluator(*e),
        is_comparison(*c),
        approximate.len() == analytic.len(),
    ensures
        r == gradient_check_result(meaning(*e), ordering(*c), approximate@, analytic@),
{
    let perturbation = epsilon_value(e);
    let allowed = apply(e, Operation::Mul(perturbation, perturbation));
    let distance = vector_distance(approximate, analytic, e);
    if is_greater(c, distance, allowed) {
        return Err(NetworkError::FailedGradientCheck { distance, tolerance: allowed });
    }
    let lengths = apply(
        e,
        Operation::Add(vector_length(approximate, e), vector_length(analytic, e)),
    );
    let normalized = apply(e, Operation::Div(distance, lengths));
    if is_greater(c, normalized, allowed) {
        return Err(NetworkError::FailedGradientCheck { distance: normalized, tolerance: allowed });
    }
    Ok(())
}

impl<T: Copy> SimpleNeuralNetwork<T> {
    /// Approximates the gradient of the average cost by central finite
    /// differences, one parameter at a time. Fails when the network has
    /// parameters and some example does not fit its input and output
    /// layers.
    pub fn approximate_cost_gradient<E: Fn(Operation<T>) -> T>(
        &self,
        training_data: &Vec<TrainingDataPoint<T>>,
        e: &E,
    ) -> (r: Result<Vec<T>, NetworkError<T>>)
        requires
            self.wf(),
            is_evaluator(*e),
        ensures
            r is Ok <==> parameter_count(self@.sizes) == 0 || examples_fit(
                self@.sizes,
                examples(training_data@),
            ),
            r matches Ok(gradient) ==> gradient@ == approximate_gradient(
                meaning(*e),
                self@.sizes,
                self@.layers,
                examples(training_data@),
            ),
            r matches Err(err) ==> err is DimensionMismatch,
    {
        let ghost sizes = self@.sizes;
        let ghost data = examples(training_data@);
        let ghost theta = unrolled(self@.layers);
        let mut big_theta_v = self.unroll_weights_and_biases();
        proof {
            lemma_reshape_of_unroll(sizes, self@.layers);
        }
        let perturbation = epsilon_value(e);
        let twice = apply(e, Operation::Mul(apply(e, Operation::Whole(2)), perturbation));
        let count = big_theta_v.len();
        let mut gradient: Vec<T> = Vec::new();
        let mut i: usize = 0;
        while i < count
            invariant
                self.wf(),
                is_evaluator(*e),
                sizes == self@.sizes,
                data == examples(training_data@),
                theta == unrolled(self@.layers),
                theta.len() == parameter_count(sizes),
                big_theta_v@ == theta,
                count == theta.len(),
                perturbation == epsilon(meaning(*e)),
                twice == times(meaning(*e), two(meaning(*e)), epsilon(meaning(*e))),
                i <= count,
                i > 0 ==> examples_fit(sizes, data),
                gradient.len() == i,
                forall|q: int|
                    0 <= q < i ==> gradient[q] == finite_difference(
                        meaning(*e),
                        sizes,
                        theta,
                        data,
                        q,
                    ),
            decreases count - i,
        {
            let orig_i_value = big_theta_v[i];

            big_theta_v.set(i, apply(e, Operation::Add(orig_i_value, perturbation)));
            let cost_plus_epsilon = match self.reshape_weights_and_biases(big_theta_v.as_slice()) {
                Ok(wbs) => match self.cost_reshaped_set(training_data, &wbs, e) {
                    Ok(cost) => cost,
                    Err(err) => { return Err(err); },
                },
                Err(err) => { return Err(err); },
            };

            big_theta_v.set(i, apply(e, Operation::Sub(orig_i_value, perturbation)));
            assert(big_theta_v@ =~= theta.update(
                i as int,
                minus(meaning(*e), theta[i as int], epsilon(meaning(*e))),
            ));
            let cost_minus_epsilon = match self.reshape_weights_and_biases(big_theta_v.as_slice()) {
                Ok(wbs) => match self.cost_reshaped_set(training_data, &wbs, e) {
                    Ok(cost) => cost,
                    Err(err) => { return Err(err); },
                },
                Err(err) => { return Err(err); },
            };

            big_theta_v.set(i, orig_i_value);

            let difference = apply(e, Operation::Sub(cost_plus_epsilon, cost_minus_epsilon));
            gradient.push(apply(e, Operation::Div(difference, twice)));
            i += 1;
        }
        Ok(gradient)
    }
}

} // verus!
