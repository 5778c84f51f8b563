//! Back-propagation: the error of every layer, from the output layer
//! backwards.

use vstd::prelude::*;
use crate::forward::{
    dot_strided, intermediate_views, strided_dot, FeedForwardIntermediates, IntermediatesView,
};
use crate::matrix::{lemma_entry_in_bounds, MatrixView};
use crate::network::{layer_fits, layers_fit, LayerView, SimpleNeuralNetwork};
use crate::scalar::{
    apply, is_evaluator, meaning, minus, sigmoid_prime, sigmoid_prime_at, times, Arithmetic,
    Operation,
};
use crate::vectors::rows_of;

verus! {

/// The error of the output layer: `(a - desired) * sigmoid'(z)`, entry by
/// entry.
pub open spec fn output_error<T>(
    arith: Arithmetic<T>,
    a: Seq<T>,
    desired: Seq<T>,
    z: Seq<T>,
) -> Seq<T> {
    Seq::new(
        a.len(),
        |i: int| times(arith, minus(arith, a[i], desired[i]), sigmoid_prime(arith, z[i])),
    )
}

/// The error of a layer before the output layer: the transpose of the
/// next layer's weights times the next layer's error, multiplied entry by
/// entry with `sigmoid'(z)`.
pub open spec fn hidden_error<T>(
    arith: Arithmetic<T>,
    next_weights: MatrixView<T>,
    next_error: Seq<T>,
    z: Seq<T>,
) -> Seq<T> {
    Seq::new(
        next_weights.columns,
        |j: int|
            times(
                arith,
                strided_dot(
                    arith,
                    next_weights.data,
                    j,
                    next_weights.columns as int,
                    next_error,
                    next_weights.rows,
                ),
                sigmoid_prime(arith, z[j]),
            ),
    )
}

/// The error of the layer that `layers[k]` leads into, found from the
/// output layer backwards.
pub open spec fn error_vector<T>(
    arith: Arithmetic<T>,
    layers: Seq<LayerView<T>>,
    caps: Seq<IntermediatesView<T>>,
    desired: Seq<T>,
    k: int,
) -> Seq<T>
    decreases layers.len() - k,
{
    if k >= layers.len() - 1 {
        output_error(arith, caps[k + 1].a, desired, caps[k + 1].z)
    } else {
        hidden_error(
            arith,
            layers[k + 1].weights,
            error_vector(arith, layers, caps, desired, k + 1),
            caps[k + 1].z,
        )
    }
}

/// The errors of all layers after the input layer, in the order of the
/// layers.
pub open spec fn error_vectors<T>(
    arith: Arithmetic<T>,
    layers: Seq<LayerView<T>>,
    caps: Seq<IntermediatesView<T>>,
    desired: Seq<T>,
) -> Seq<Seq<T>> {
    Seq::new(layers.len(), |k: int| error_vector(arith, layers, caps, desired, k))
}

/// The intermediates hold, for every layer after the input layer, as many
/// weighted sums and activations as the layer has neurons, and as many
/// activations of the input layer as it has neurons.
pub open spec fn intermediates_fit<T>(sizes: Seq<usize>, caps: Seq<IntermediatesView<T>>) -> bool {
    &&& caps.len() == sizes.len()
    &&& forall|l: int| 0 <= l < caps.len() ==> (#[trigger] caps[l]).a.len() == sizes[l]
    &&& forall|l: int| 1 <= l < caps.len() ==> (#[trigger] caps[l]).z.len() == sizes[l]
}

/// Along fitting parameters and intermediates, the error of a layer has
/// as many entries as the layer has neurons.
pub proof fn lemma_error_vector_len<T>(
    arith: Arithmetic<T>,
    sizes: Seq<usize>,
    layers: Seq<LayerView<T>>,
    caps: Seq<IntermediatesView<T>>,
    desired: Seq<T>,
    k: int,
)
    requires
        layers_fit(sizes, layers),
        intermediates_fit(sizes, caps),
        0 <= k < layers.len(),
    ensures
        error_vector(arith, layers, caps, desired, k).len() == sizes[k + 1],
    decreases layers.len() - k,
{
}

impl<T: Copy> SimpleNeuralNetwork<T> {
    /// The error of the output layer.
    pub fn err_last_layer<E: Fn(Operation<T>) -> T>(
        &self,
        output_activations_vector: &Vec<T>,
        expected_outputs_vector: &Vec<T>,
        output_layer_z_vector: &Vec<T>,
        e: &E,
    ) -> (r: Vec<T>)
        requires
            is_evaluator(*e),
            expected_outputs_vector.len() == output_activations_vector.len(),
            output_layer_z_vector.len() == output_activations_vector.len(),
        ensures
            r@ == output_error(
                meaning(*e),
                output_activations_vector@,
                expected_outputs_vector@,
                output_layer_z_vector@,
            ),
    {
        let n = output_activations_vector.len();
        let mut r: Vec<T> = Vec::new();
        let mut i: usize = 0;
        while i < n
            invariant
                is_evaluator(*e),
                n == output_activations_vector.len(),
                n == expected_outputs_vector.len(),
                n == output_layer_z_vector.len(),
                i <= n,
                r.len() == i,
                forall|k: int|
                    0 <= k < i ==> r[k] == times(
                        meaning(*e),
                        minus(
                            meaning(*e),
                            output_activations_vector[k],
                            expected_outputs_vector[k],
                        ),
                        sigmoid_prime(meaning(*e), output_layer_z_vector[k]),
                    ),
            decreases n - i,
        {
            let part1 = apply(
                e,
                Operation::Sub(output_activations_vector[i], expected_outputs_vector[i]),
            );
            let part2 = sigmoid_prime_at(output_layer_z_vector[i], e);
            r.push(apply(e, Operation::Mul(part1, part2)));
            i += 1;
        }
        assert(r@ =~= output_error(
            meaning(*e),
            output_activations_vector@,
            expected_outputs_vector@,
            output_layer_z_vector@,
        ));
        r
    }

    /// The error of layer `layer`, which is not the output layer, from the
    /// error of the layer after it.
    pub fn err_non_last_layer<E: Fn(Operation<T>) -> T>(
        &self,
        layer: usize,
        error_vector_for_plus_one_layer: &Vec<T>,
        this_layer_z_vector: &Vec<T>,
        e: &E,
    ) -> (r: Vec<T>)
        requires
            self.wf(),
            is_evaluator(*e),
            layer < self.weights.len(),
            error_vector_for_plus_one_layer.len() == self@.sizes[layer + 1],
            this_layer_z_vector.len() == self@.sizes[layer as int],
        ensures
            r@ == hidden_error(
                meaning(*e),
                self@.layers[layer as int].weights,
                error_vector_for_plus_one_layer@,
                this_layer_z_vector@,
            ),
    {
        proof {
            assert(layer_fits(self@.sizes, self@.layers[layer as int], layer as int));
        }
        let weight_matrix = &self.weights[layer];
        let rows = weight_matrix.rows;
        let columns = weight_matrix.columns;
        let mut r: Vec<T> = Vec::new();
        let mut j: usize = 0;
        while j < columns
            invariant
                is_evaluator(*e),
                weight_matrix.wf(),
                weight_matrix@ == self@.layers[layer as int].weights,
                rows == weight_matrix.rows,
                columns == weight_matrix.columns,
                error_vector_for_plus_one_layer.len() == rows,
                this_layer_z_vector.len() == columns,
                j <= columns,
                r.len() == j,
                forall|k: int|
                    0 <= k < j ==> r[k] == hidden_error(
                        meaning(*e),
                        weight_matrix@,
                        error_vector_for_plus_one_layer@,
                        this_layer_z_vector@,
                    )[k],
            decreases columns - j,
        {
            proof {
                if rows > 0 {
                    lemma_entry_in_bounds(rows - 1, j as int, rows as int, columns as int);
                }
            }
            let part1 = dot_strided(
                &weight_matrix.data,
                j,
                columns,
                error_vector_for_plus_one_layer,
                e,
            );
            let part2 = sigmoid_prime_at(this_layer_z_vector[j], e);
            r.push(apply(e, Operation::Mul(part1, part2)));
            j += 1;
        }
        assert(r@ =~= hidden_error(
            meaning(*e),
            weight_matrix@,
            error_vector_for_plus_one_layer@,
            this_layer_z_vector@,
        ));
        r
    }

    /// The errors of all layers after the input layer, from the
    /// intermediates of a forward pass and the output wanted: entry `k`
    /// belongs to layer `k + 1`.
    pub fn backprop<E: Fn(Operation<T>) -> T>(
        &self,
        desired_output_v: &Vec<T>,
        intermediates: &Vec<FeedForwardIntermediates<T>>,
        e: &E,
    ) -> (r: Vec<Vec<T>>)
        requires
            self.wf(),
            is_evaluator(*e),
            intermediates_fit(self@.sizes, intermediate_views(intermediates@)),
            desired_output_v.len() == self@.sizes[self@.sizes.len() - 1],
        ensures
            rows_of(r@) == error_vectors(
                meaning(*e),
                self@.layers,
                intermediate_views(intermediates@),
                desired_output_v@,
            ),
    {
        let steps = self.weights.len();
        let ghost layers = self@.layers;
        let ghost caps = intermediate_views(intermediates@);
        let ghost desired = desired_output_v@;
        let mut backwards: Vec<Vec<T>> = Vec::new();
        let mut done: usize = 0;
        while done < steps
            invariant
                self.wf(),
                is_evaluator(*e),
                steps == self.weights.len(),
                layers == self@.layers,
                caps == intermediate_views(intermediates@),
                desired == desired_output_v@,
                intermediates_fit(self@.sizes, caps),
                desired_output_v.len() == self@.sizes[self@.sizes.len() - 1],
                done <= steps,
                backwards.len() == done,
                forall|i: int|
                    0 <= i < done ==> (#[trigger] backwards[i])@ == error_vector(
                        meaning(*e),
                        layers,
                        caps,
                        desired,
                        steps - 1 - i,
                    ),
            decreases steps - done,
        {
            let k = steps - 1 - done;
            let l = k + 1;
            proof {
                lemma_error_vector_len(meaning(*e), self@.sizes, layers, caps, desired, k as int);
            }
            let z_v = &intermediates[l].z_vector;
            let err_v = if done == 0 {
                let activations_v = &intermediates[l].activations_vector;
                self.err_last_layer(activations_v, desired_output_v, z_v, e)
            } else {
                proof {
                    lemma_error_vector_len(meaning(*e), self@.sizes, layers, caps, desired, k + 1);
                    assert(backwards[done - 1]@ == error_vector(
                        meaning(*e),
                        layers,
                        caps,
                        desired,
                        k + 1,
                    ));
                }
                let error_vector_for_plus_one_layer = &backwards[done - 1];
                self.err_non_last_layer(l, error_vector_for_plus_one_layer, z_v, e)
            };
            backwards.push(err_v);
            done += 1;
        }
        let mut errors: Vec<Vec<T>> = Vec::new();
        while backwards.len() > 0
            invariant
                steps == layers.len(),
                backwards.len() + errors.len() == steps,
                forall|i: int|
                    0 <= i < backwards.len() ==> (#[trigger] backwards[i])@ == error_vector(
                        meaning(*e),
                        layers,
                        caps,
                        desired,
                        steps - 1 - i,
                    ),
                forall|k: int|
                    0 <= k < errors.len() ==> (#[trigger] errors[k])@
                        == error_vector(meaning(*e), layers, caps, desired, k),
            decreases backwards.len(),
        {
            let v = backwards.pop().unwrap();
            errors.push(v);
        }
        errors
    }
}

} // verus!
