//! The forward pass: weighted sums and activations, layer after layer.

use vstd::prelude::*;
use crate::error::NetworkError;
use crate::matrix::{lemma_entry_in_bounds, Matrix};
use crate::network::{layer_fits, layers_fit, tupled_layers, LayerView, SimpleNeuralNetwork};
use crate::scalar::{
    apply, is_evaluator, meaning, plus, sigmoid, sigmoid_at, times, zero, Arithmetic, Operation,
};
use crate::vectors::duplicate;

verus! {

/// The sum, taken from the left and starting at zero, of the products
/// `m[start + k * stride] * v[k]` for `k` below `n`.
pub open spec fn strided_dot<T>(
    arith: Arithmetic<T>,
    m: Seq<T>,
    start: int,
    stride: int,
    v: Seq<T>,
    n: nat,
) -> T
    decreases n,
{
    if n == 0 {
        zero(arith)
    } else {
        plus(
            arith,
            strided_dot(arith, m, start, stride, v, (n - 1) as nat),
            times(arith, m[start + (n - 1) * stride], v[n - 1]),
        )
    }
}

/// The weighted sum `W a + b` of a layer: entry `i` is the dot product of
/// row `i` of the weights with `a`, plus bias `i`.
pub open spec fn weighted_sum<T>(
    arith: Arithmetic<T>,
    layer: LayerView<T>,
    a: Seq<T>,
) -> Seq<T> {
    Seq::new(
        layer.weights.rows,
        |i: int|
            plus(
                arith,
                strided_dot(
                    arith,
                    layer.weights.data,
                    i * layer.weights.columns,
                    1,
                    a,
                    layer.weights.columns,
                ),
                layer.biases[i],
            ),
    )
}

/// The logistic function applied to every entry.
pub open spec fn sigmoid_all<T>(arith: Arithmetic<T>, z: Seq<T>) -> Seq<T> {
    Seq::new(z.len(), |i: int| sigmoid(arith, z[i]))
}

/// The activation of layer `l` on the given input: the input itself for
/// layer 0, and the logistic function of the weighted sum of the previous
/// layer's activation for every later layer.
pub open spec fn activation<T>(
    arith: Arithmetic<T>,
    layers: Seq<LayerView<T>>,
    input: Seq<T>,
    l: nat,
) -> Seq<T>
    decreases l,
{
    if l == 0 {
        input
    } else {
        sigmoid_all(
            arith,
            weighted_sum(arith, layers[l - 1], activation(arith, layers, input, (l - 1) as nat)),
        )
    }
}

/// The weighted sum that layer `l >= 1` receives on the given input.
pub open spec fn weighted_input<T>(
    arith: Arithmetic<T>,
    layers: Seq<LayerView<T>>,
    input: Seq<T>,
    l: nat,
) -> Seq<T> {
    weighted_sum(arith, layers[l - 1], activation(arith, layers, input, (l - 1) as nat))
}

/// What the network answers to an input: the activation of its last layer.
pub open spec fn forward_output<T>(
    arith: Arithmetic<T>,
    layers: Seq<LayerView<T>>,
    input: Seq<T>,
) -> Seq<T> {
    activation(arith, layers, input, layers.len())
}

/// What one layer holds during a forward pass.
#[derive(Clone, Debug)]
pub struct FeedForwardIntermediates<T> {
    /// The weighted sum the layer received; empty for the input layer,
    /// which receives none.
    pub z_vector: Vec<T>,
    /// The activation of the layer; the input itself for the input layer.
    pub activations_vector: Vec<T>,
}

pub struct IntermediatesView<T> {
    pub z: Seq<T>,
    pub a: Seq<T>,
}

impl<T> View for FeedForwardIntermediates<T> {
    type V = IntermediatesView<T>;

    open spec fn view(&self) -> IntermediatesView<T> {
        IntermediatesView { z: self.z_vector@, a: self.activations_vector@ }
    }
}

/// The intermediates of a pass, each by its view.
pub open spec fn intermediate_views<T>(caps: Seq<FeedForwardIntermediates<T>>) -> Seq<
    IntermediatesView<T>,
> {
    Seq::new(caps.len(), |l: int| caps[l]@)
}

/// Everything a forward pass computes, layer by layer, the input layer
/// included.
pub open spec fn captured<T>(
    arith: Arithmetic<T>,
    layers: Seq<LayerView<T>>,
    input: Seq<T>,
) -> Seq<IntermediatesView<T>> {
    Seq::new(
        layers.len() + 1,
        |l: int|
            if l == 0 {
                IntermediatesView { z: Seq::empty(), a: input }
            } else {
                IntermediatesView {
                    z: weighted_input(arith, layers, input, l as nat),
                    a: activation(arith, layers, input, l as nat),
                }
            },
    )
}

proof fn lemma_stride(k: int, n: int, stride: int)
    by (nonlinear_arith)
    requires
        0 <= k < n,
        0 <= stride,
    ensures
        0 <= k * stride <= (n - 1) * stride,
        (k + 1) * stride == k * stride + stride,
{
}

/// Computes a strided dot product of part of `m` with all of `v`.
pub fn dot_strided<T: Copy, E: Fn(Operation<T>) -> T>(
    m: &Vec<T>,
    start: usize,
    stride: usize,
    v: &Vec<T>,
    e: &E,
) -> (r: T)
    requires
        is_evaluator(*e),
        v.len() > 0 ==> start + (v.len() - 1) * stride < m.len(),
    ensures
        r == strided_dot(meaning(*e), m@, start as int, stride as int, v@, v.len() as nat),
{
    let n = v.len();
    let mut acc = apply(e, Operation::Whole(0));
    let mut k: usize = 0;
    let mut at: usize = start;
    while k < n
        invariant
            is_evaluator(*e),
            n == v.len(),
            k <= n,
            n > 0 ==> start + (n - 1) * stride < m.len(),
            k < n ==> at == start + k * stride,
            acc == strided_dot(meaning(*e), m@, start as int, stride as int, v@, k as nat),
        decreases n - k,
    {
        proof {
            lemma_stride(k as int, n as int, stride as int);
        }
        let term = apply(e, Operation::Mul(m[at], v[k]));
        acc = apply(e, Operation::Add(acc, term));
        k += 1;
        if k < n {
            proof {
                lemma_stride(k as int, n as int, stride as int);
            }
            at = at + stride;
        }
    }
    acc
}

/// Computes the weighted sum `W a + b` that a layer receives.
pub fn z<T: Copy, E: Fn(Operation<T>) -> T>(
    weight_matrix: &Matrix<T>,
    bias_v: &Vec<T>,
    input_v: &Vec<T>,
    e: &E,
) -> (r: Vec<T>)
    requires
        is_evaluator(*e),
        weight_matrix.wf(),
        bias_v.len() == weight_matrix.rows,
        input_v.len() == weight_matrix.columns,
    ensures
        r@ == weighted_sum(
            meaning(*e),
            LayerView { weights: weight_matrix@, biases: bias_v@ },
            input_v@,
        ),
{
    let rows = weight_matrix.rows;
    let columns = weight_matrix.columns;
    let ghost layer = LayerView { weights: weight_matrix@, biases: bias_v@ };
    let mut r: Vec<T> = Vec::new();
    let mut i: usize = 0;
    while i < rows
        invariant
            is_evaluator(*e),
            weight_matrix.wf(),
            rows == weight_matrix.rows,
            columns == weight_matrix.columns,
            bias_v.len() == rows,
            input_v.len() == columns,
            layer == (LayerView { weights: weight_matrix@, biases: bias_v@ }),
            i <= rows,
            r.len() == i,
            forall|k: int| 0 <= k < i ==> r[k] == weighted_sum(meaning(*e), layer, input_v@)[k],
        decreases rows - i,
    {
        proof {
            if columns > 0 {
                lemma_entry_in_bounds(i as int, columns - 1, rows as int, columns as int);
            } else {
                assert(i * columns == 0) by (nonlinear_arith)
                    requires
                        columns == 0,
                ;
            }
        }
        let row_start = i * columns;
        let d = dot_strided(&weight_matrix.data, row_start, 1, input_v, e);
        let s = apply(e, Operation::Add(d, bias_v[i]));
        r.push(s);
        i += 1;
    }
    r
}

/// Applies the logistic function to every entry of `z_v`.
pub fn sigmoid_vector<T: Copy, E: Fn(Operation<T>) -> T>(z_v: &Vec<T>, e: &E) -> (r: Vec<T>)
    requires
        is_evaluator(*e),
    ensures
        r@ == sigmoid_all(meaning(*e), z_v@),
{
    let mut r: Vec<T> = Vec::new();
    let mut i: usize = 0;
    while i < z_v.len()
        invariant
            is_evaluator(*e),
            i <= z_v.len(),
            r.len() == i,
            forall|k: int| 0 <= k < i ==> r[k] == sigmoid(meaning(*e), z_v[k]),
        decreases z_v.len() - i,
    {
        r.push(sigmoid_at(z_v[i], e));
        i += 1;
    }
    r
}

/// Along a network whose parameters fit its sizes, the activation of
/// layer `l` has as many entries as the layer has neurons.
pub proof fn lemma_activation_len<T>(
    arith: Arithmetic<T>,
    sizes: Seq<usize>,
    layers: Seq<LayerView<T>>,
    input: Seq<T>,
    l: nat,
)
    requires
        layers_fit(sizes, layers),
        input.len() == sizes[0],
        l <= layers.len(),
    ensures
        activation(arith, layers, input, l).len() == sizes[l as int],
    decreases l,
{
    if l > 0 {
        lemma_activation_len(arith, sizes, layers, input, (l - 1) as nat);
    }
}

/// The two layers agree in their dimensions and in every weight and bias.
pub open spec fn same_parameters<T>(first: LayerView<T>, second: LayerView<T>) -> bool {
    &&& first.weights.rows == second.weights.rows
    &&& first.weights.columns == second.weights.columns
    &&& first.weights.data =~= second.weights.data
    &&& first.biases =~= second.biases
}

/// The answer to an input is determined by the parameters and the input
/// alone: parameters that agree in every dimension, weight and bias
/// answer equal inputs alike.
pub proof fn lemma_forward_pass_is_determined<T>(
    arith: Arithmetic<T>,
    first: Seq<LayerView<T>>,
    second: Seq<LayerView<T>>,
    input: Seq<T>,
)
    requires
        first.len() == second.len(),
        forall|k: int| 0 <= k < first.len() ==> same_parameters(#[trigger] first[k], second[k]),
    ensures
        forward_output(arith, first, input) == forward_output(arith, second, input),
{
    assert(first =~= second);
}

impl<T: Copy> SimpleNeuralNetwork<T> {
    /// Answers an input: the activation of the last layer. Fails when the
    /// input has another length than the input layer.
    pub fn feed_forward<E: Fn(Operation<T>) -> T>(&self, input_activations: &Vec<T>, e: &E) -> (r:
        Result<Vec<T>, NetworkError<T>>)
        requires
            self.wf(),
            is_evaluator(*e),
        ensures
            r is Ok <==> input_activations.len() == self@.sizes[0],
            r matches Ok(out) ==> out@ == forward_output(
                meaning(*e),
                self@.layers,
                input_activations@,
            ),
            r matches Err(err) ==> err is DimensionMismatch,
    {
        if input_activations.len() != self.sizes[0] {
            return Err(NetworkError::DimensionMismatch);
        }
        let steps = self.weights.len();
        let mut activation_v = duplicate(input_activations);
        let mut i_step: usize = 0;
        while i_step < steps
            invariant
                self.wf(),
                is_evaluator(*e),
                steps == self.weights.len(),
                input_activations.len() == self@.sizes[0],
                i_step <= steps,
                activation_v@ == activation(
                    meaning(*e),
                    self@.layers,
                    input_activations@,
                    i_step as nat,
                ),
            decreases steps - i_step,
        {
            proof {
                lemma_activation_len(
                    meaning(*e),
                    self@.sizes,
                    self@.layers,
                    input_activations@,
                    i_step as nat,
                );
                assert(layer_fits(self@.sizes, self@.layers[i_step as int], i_step as int));
            }
            let z_vec = z(&self.weights[i_step], &self.biases[i_step], &activation_v, e);
            activation_v = sigmoid_vector(&z_vec, e);
            i_step += 1;
        }
        Ok(activation_v)
    }

    /// Runs a forward pass and keeps what every layer received and
    /// produced. Fails when the input has another length than the input
    /// layer.
    pub fn feed_forward_capturing<E: Fn(Operation<T>) -> T>(
        &self,
        input_activations: &Vec<T>,
        e: &E,
    ) -> (r: Result<Vec<FeedForwardIntermediates<T>>, NetworkError<T>>)
        requires
            self.wf(),
            is_evaluator(*e),
        ensures
            r is Ok <==> input_activations.len() == self@.sizes[0],
            r matches Ok(caps) ==> intermediate_views(caps@) == captured(
                meaning(*e),
                self@.layers,
                input_activations@,
            ),
            r matches Err(err) ==> err is DimensionMismatch,
    {
        if input_activations.len() != self.sizes[0] {
            return Err(NetworkError::DimensionMismatch);
        }
        let count = self.sizes.len();
        let mut caps: Vec<FeedForwardIntermediates<T>> = Vec::new();
        caps.push(
            FeedForwardIntermediates {
                z_vector: Vec::new(),
                activations_vector: duplicate(input_activations),
            },
        );
        let mut l: usize = 1;
        while l < count
            invariant
                self.wf(),
                is_evaluator(*e),
                count == self.sizes.len(),
                input_activations.len() == self@.sizes[0],
                1 <= l <= count,
                caps.len() == l,
                forall|k: int|
                    0 <= k < l ==> (#[trigger] caps[k])@ == captured(
                        meaning(*e),
                        self@.layers,
                        input_activations@,
                    )[k],
            decreases count - l,
        {
            proof {
                lemma_activation_len(
                    meaning(*e),
                    self@.sizes,
                    self@.layers,
                    input_activations@,
                    (l - 1) as nat,
                );
                assert(layer_fits(self@.sizes, self@.layers[l - 1], l - 1));
            }
            let z_vec = z(
                &self.weights[l - 1],
                &self.biases[l - 1],
                &caps[l - 1].activations_vector,
                e,
            );
            let activation_v = sigmoid_vector(&z_vec, e);
            caps.push(
                FeedForwardIntermediates { z_vector: z_vec, activations_vector: activation_v },
            );
            l += 1;
        }
        assert(intermediate_views(caps@) =~= captured(
            meaning(*e),
            self@.layers,
            input_activations@,
        ));
        Ok(caps)
    }

    /// Answers an input with parameters given apart from any network, one
    /// pair of weights and biases per layer after the input layer. Fails
    /// when the input has another length than the input layer.
    pub fn ff<E: Fn(Operation<T>) -> T>(
        input_v: &Vec<T>,
        sizes: &Vec<usize>,
        wb: &Vec<(Matrix<T>, Vec<T>)>,
        e: &E,
    ) -> (r: Result<Vec<T>, NetworkError<T>>)
        requires
            layers_fit(sizes@, tupled_layers(wb@)),
            is_evaluator(*e),
        ensures
            r is Ok <==> input_v.len() == sizes[0],
            r matches Ok(out) ==> out@ == forward_output(meaning(*e), tupled_layers(wb@), input_v@),
            r matches Err(err) ==> err is DimensionMismatch,
    {
        if input_v.len() != sizes[0] {
            return Err(NetworkError::DimensionMismatch);
        }
        let count = sizes.len();
        let ghost layers = tupled_layers(wb@);
        let mut activation_v = duplicate(input_v);
        let mut l: usize = 1;
        while l < count
            invariant
                layers == tupled_layers(wb@),
                layers_fit(sizes@, layers),
                is_evaluator(*e),
                count == sizes.len(),
                input_v.len() == sizes[0],
                1 <= l <= count,
                activation_v@ == activation(meaning(*e), layers, input_v@, (l - 1) as nat),
            decreases count - l,
        {
            proof {
                lemma_activation_len(meaning(*e), sizes@, layers, input_v@, (l - 1) as nat);
                assert(layer_fits(sizes@, layers[l - 1], l - 1));
            }
            let w = &wb[l - 1].0;
            let b = &wb[l - 1].1;
            let z_v = z(w, b, &activation_v, e);
            activation_v = sigmoid_vector(&z_v, e);
            l += 1;
        }
        Ok(activation_v)
    }
}

} // verus!
