//! All parameters of a network as one sequence, and back.

use vstd::prelude::*;
use crate::error::NetworkError;
use crate::forward::forward_output;
use crate::matrix::{Matrix, MatrixView};
use crate::network::{layer_fits, layers_fit, tupled_layers, LayerView, SimpleNeuralNetwork};
use crate::scalar::Arithmetic;
use crate::vectors::{append_copy, copy_range};

verus! {

/// All parameters in one sequence: layer after layer, the weights of a
/// layer row after row, then its biases.
pub open spec fn unrolled<T>(layers: Seq<LayerView<T>>) -> Seq<T>
    decreases layers.len(),
{
    if layers.len() == 0 {
        Seq::empty()
    } else {
        unrolled(layers.drop_last()) + layers.last().weights.data + layers.last().biases
    }
}

/// The number of parameters that lead from layer `k` into layer `k + 1`.
pub open spec fn layer_width(sizes: Seq<usize>, k: int) -> int {
    sizes[k + 1] as int * sizes[k] as int + sizes[k + 1] as int
}

/// Where the parameters that lead out of layer `k` begin in the unrolled
/// sequence.
pub open spec fn offset(sizes: Seq<usize>, k: nat) -> int
    decreases k,
{
    if k == 0 {
        0
    } else {
        offset(sizes, (k - 1) as nat) + layer_width(sizes, k - 1)
    }
}

/// The number of parameters of a network with the given layer sizes.
pub open spec fn parameter_count(sizes: Seq<usize>) -> int {
    if sizes.len() == 0 {
        0
    } else {
        offset(sizes, (sizes.len() - 1) as nat)
    }
}

/// The parameters that lead out of layer `k`, cut out of an unrolled
/// sequence.
pub open spec fn reshaped_layer<T>(sizes: Seq<usize>, theta: Seq<T>, k: int) -> LayerView<T> {
    let start = offset(sizes, k as nat);
    let area = sizes[k + 1] as int * sizes[k] as int;
    LayerView {
        weights: MatrixView {
            rows: sizes[k + 1] as nat,
            columns: sizes[k] as nat,
            data: theta.subrange(start, start + area),
        },
        biases: theta.subrange(start + area, start + area + sizes[k + 1]),
    }
}

/// The parameters of every layer, cut out of an unrolled sequence.
pub open spec fn reshaped<T>(sizes: Seq<usize>, theta: Seq<T>) -> Seq<LayerView<T>> {
    if sizes.len() == 0 {
        Seq::empty()
    } else {
        Seq::new((sizes.len() - 1) as nat, |k: int| reshaped_layer(sizes, theta, k))
    }
}

proof fn lemma_area_nonnegative(a: int, b: int)
    by (nonlinear_arith)
    requires
        0 <= a,
        0 <= b,
    ensures
        0 <= a * b,
{
}

/// Offsets never decrease from one layer to the next.
proof fn lemma_offset_monotonic(sizes: Seq<usize>, j: nat, k: nat)
    requires
        j <= k,
    ensures
        0 <= offset(sizes, j) <= offset(sizes, k),
    decreases k,
{
    if k > 0 {
        lemma_area_nonnegative(sizes[k as int] as int, sizes[k - 1] as int);
        if j < k {
            lemma_offset_monotonic(sizes, j, (k - 1) as nat);
        } else {
            lemma_offset_monotonic(sizes, (k - 1) as nat, (k - 1) as nat);
        }
    }
}

/// Unrolling one layer more appends that layer's weights and biases.
proof fn lemma_unrolled_step<T>(layers: Seq<LayerView<T>>, m: int)
    requires
        0 <= m < layers.len(),
    ensures
        unrolled(layers.take(m + 1)) == unrolled(layers.take(m)) + layers[m].weights.data
            + layers[m].biases,
{
    let s = layers.take(m + 1);
    assert(s.drop_last() =~= layers.take(m));
}

/// The parameters of the first `m` layers fill the unrolled sequence up to
/// the offset of layer `m`.
proof fn lemma_unrolled_len<T>(sizes: Seq<usize>, layers: Seq<LayerView<T>>, m: nat)
    requires
        layers_fit(sizes, layers),
        m <= layers.len(),
    ensures
        unrolled(layers.take(m as int)).len() == offset(sizes, m),
    decreases m,
{
    if m > 0 {
        lemma_unrolled_len(sizes, layers, (m - 1) as nat);
        lemma_unrolled_step(layers, m - 1);
    }
}

/// The parameters of the first `m` layers open the unrolled sequence of
/// all layers.
proof fn lemma_unrolled_prefix<T>(layers: Seq<LayerView<T>>, m: nat)
    requires
        m <= layers.len(),
    ensures
        unrolled(layers.take(m as int)).len() <= unrolled(layers).len(),
        unrolled(layers.take(m as int)) == unrolled(layers).take(
            unrolled(layers.take(m as int)).len() as int,
        ),
    decreases layers.len() - m,
{
    if m == layers.len() {
        assert(layers.take(m as int) =~= layers);
    } else {
        lemma_unrolled_prefix(layers, m + 1);
        lemma_unrolled_step(layers, m as int);
    }
}

/// Reshaping the unrolled parameters of a network, by the network's own
/// layer sizes, gives back every weight and every bias.
pub proof fn lemma_reshape_of_unroll<T>(sizes: Seq<usize>, layers: Seq<LayerView<T>>)
    requires
        layers_fit(sizes, layers),
    ensures
        unrolled(layers).len() == parameter_count(sizes),
        reshaped(sizes, unrolled(layers)) == layers,
{
    let theta = unrolled(layers);
    lemma_unrolled_len(sizes, layers, layers.len());
    assert(layers.take(layers.len() as int) =~= layers);
    assert forall|k: int| 0 <= k < layers.len() implies reshaped_layer(sizes, theta, k)
        == layers[k] by {
        lemma_unrolled_len(sizes, layers, k as nat);
        lemma_unrolled_len(sizes, layers, (k + 1) as nat);
        lemma_unrolled_step(layers, k);
        lemma_unrolled_prefix(layers, (k + 1) as nat);
        let through = unrolled(layers.take(k + 1));
        let start = offset(sizes, k as nat);
        let area = sizes[k + 1] as int * sizes[k] as int;
        assert(theta.subrange(start, start + area) =~= layers[k].weights.data) by {
            assert forall|i: int| 0 <= i < area implies theta[start + i]
                == layers[k].weights.data[i] by {
                assert(theta[start + i] == through[start + i]);
            }
        }
        assert(theta.subrange(start + area, start + area + sizes[k + 1]) =~= layers[k].biases) by {
            assert forall|i: int| 0 <= i < sizes[k + 1] implies theta[start + area + i]
                == layers[k].biases[i] by {
                assert(theta[start + area + i] == through[start + area + i]);
            }
        }
    }
}

/// A network answers every input alike before and after its parameters
/// are unrolled and reshaped.
pub proof fn lemma_round_trip_preserves_output<T>(
    arith: Arithmetic<T>,
    sizes: Seq<usize>,
    layers: Seq<LayerView<T>>,
    input: Seq<T>,
)
    requires
        layers_fit(sizes, layers),
    ensures
        forward_output(arith, reshaped(sizes, unrolled(layers)), input) == forward_output(
            arith,
            layers,
            input,
        ),
{
    lemma_reshape_of_unroll(sizes, layers);
}

/// The layers cut out of a sequence fit the sizes they were cut by, where
/// the sequence is long enough.
pub proof fn lemma_reshaped_fits<T>(sizes: Seq<usize>, theta: Seq<T>)
    requires
        sizes.len() >= 1,
        parameter_count(sizes) <= theta.len(),
    ensures
        layers_fit(sizes, reshaped(sizes, theta)),
{
    let layers = reshaped(sizes, theta);
    assert forall|k: int| 0 <= k < layers.len() implies layer_fits(
        sizes,
        #[trigger] layers[k],
        k,
    ) by {
        lemma_offset_monotonic(sizes, k as nat, (k + 1) as nat);
        lemma_offset_monotonic(sizes, (k + 1) as nat, (sizes.len() - 1) as nat);
        lemma_area_nonnegative(sizes[k + 1] as int, sizes[k] as int);
    }
}

/// Unrolling the layers cut out of a sequence gives back the part of the
/// sequence that they were cut from.
pub proof fn lemma_unroll_of_reshape<T>(sizes: Seq<usize>, theta: Seq<T>)
    requires
        sizes.len() >= 1,
        parameter_count(sizes) <= theta.len(),
    ensures
        unrolled(reshaped(sizes, theta)) == theta.take(parameter_count(sizes)),
{
    let layers = reshaped(sizes, theta);
    lemma_unrolled_take_of_reshape(sizes, theta, layers.len());
    assert(layers.take(layers.len() as int) =~= layers);
}

proof fn lemma_unrolled_take_of_reshape<T>(sizes: Seq<usize>, theta: Seq<T>, m: nat)
    requires
        sizes.len() >= 1,
        parameter_count(sizes) <= theta.len(),
        m <= sizes.len() - 1,
    ensures
        unrolled(reshaped(sizes, theta).take(m as int)) == theta.take(offset(sizes, m)),
    decreases m,
{
    let layers = reshaped(sizes, theta);
    if m > 0 {
        lemma_unrolled_take_of_reshape(sizes, theta, (m - 1) as nat);
        lemma_unrolled_step(layers, m - 1);
        lemma_offset_monotonic(sizes, (m - 1) as nat, m);
        lemma_offset_monotonic(sizes, m, (sizes.len() - 1) as nat);
        lemma_area_nonnegative(sizes[m as int] as int, sizes[m - 1] as int);
    }
}

impl<T: Copy> SimpleNeuralNetwork<T> {
    /// All weights and biases of the network in one vector.
    pub fn unroll_weights_and_biases(&self) -> (r: Vec<T>)
        requires
            self.wf(),
        ensures
            r@ == unrolled(self@.layers),
    {
        let mut unrolled_vec: Vec<T> = Vec::new();
        let count = self.weights.len();
        let ghost layers = self@.layers;
        let mut k: usize = 0;
        while k < count
            invariant
                self.wf(),
                count == self.weights.len(),
                layers == self@.layers,
                k <= count,
                unrolled_vec@ == unrolled(layers.take(k as int)),
            decreases count - k,
        {
            proof {
                lemma_unrolled_step(layers, k as int);
            }
            append_copy(&mut unrolled_vec, &self.weights[k].data);
            append_copy(&mut unrolled_vec, &self.biases[k]);
            k += 1;
        }
        assert(layers.take(count as int) =~= layers);
        unrolled_vec
    }

    /// All entries of a gradient in one vector, in the order in which the
    /// parameters of the network are unrolled.
    pub fn unroll_gradients(&self, gradients: &Vec<(Matrix<T>, Vec<T>)>) -> (r: Vec<T>)
        requires
            self.sizes.len() == gradients.len() + 1,
        ensures
            r@ == unrolled(tupled_layers(gradients@)),
    {
        let mut unrolled_vec: Vec<T> = Vec::new();
        let count = self.sizes.len();
        let ghost layers = tupled_layers(gradients@);
        let mut l: usize = 1;
        while l < count
            invariant
                count == self.sizes.len(),
                count == gradients.len() + 1,
                layers == tupled_layers(gradients@),
                1 <= l <= count,
                unrolled_vec@ == unrolled(layers.take(l - 1)),
            decreases count - l,
        {
            proof {
                lemma_unrolled_step(layers, l - 1);
            }
            let this_layer_gradients = &gradients[l - 1];
            append_copy(&mut unrolled_vec, &this_layer_gradients.0.data);
            append_copy(&mut unrolled_vec, &this_layer_gradients.1);
            l += 1;
        }
        assert(layers.take(count - 1) =~= layers);
        unrolled_vec
    }

    /// Cuts an unrolled sequence of parameters into weights and biases by
    /// the sizes of the network's layers; what follows the last parameter
    /// is ignored. Fails when the sequence holds fewer values than the
    /// network has parameters.
    pub fn reshape_weights_and_biases(&self, big_theta_v: &[T]) -> (r: Result<
        Vec<(Matrix<T>, Vec<T>)>,
        NetworkError<T>,
    >)
        ensures
            r is Ok <==> parameter_count(self@.sizes) <= big_theta_v@.len(),
            r matches Ok(wb) ==> tupled_layers(wb@) == reshaped(self@.sizes, big_theta_v@),
            r matches Ok(wb) ==> (self@.sizes.len() >= 1 ==> layers_fit(
                self@.sizes,
                tupled_layers(wb@),
            )),
            r matches Err(err) ==> err is DimensionMismatch,
    {
        let count = self.sizes.len();
        let total = big_theta_v.len();
        let ghost sizes = self@.sizes;
        let ghost theta = big_theta_v@;
        let mut weights_and_biases: Vec<(Matrix<T>, Vec<T>)> = Vec::new();
        if count == 0 {
            return Ok(weights_and_biases);
        }
        let mut ptr: usize = 0;
        let mut l: usize = 1;
        while l < count
            invariant
                count == self.sizes.len(),
                total == big_theta_v@.len(),
                sizes == self@.sizes,
                theta == big_theta_v@,
                1 <= l <= count,
                ptr == offset(sizes, (l - 1) as nat),
                ptr <= total,
                weights_and_biases.len() == l - 1,
                forall|k: int|
                    0 <= k < l - 1 ==> {
                        &&& (#[trigger] weights_and_biases[k]).0@ == reshaped_layer(
                            sizes,
                            theta,
                            k,
                        ).weights
                        &&& weights_and_biases[k].1@ == reshaped_layer(sizes, theta, k).biases
                    },
            decreases count - l,
        {
            proof {
                lemma_offset_monotonic(sizes, l as nat, (count - 1) as nat);
                lemma_area_nonnegative(sizes[l as int] as int, sizes[l - 1] as int);
            }
            let rows = self.sizes[l];
            let columns = self.sizes[l - 1];
            let area = match rows.checked_mul(columns) {
                Some(a) => a,
                None => { return Err(NetworkError::DimensionMismatch); },
            };
            let biases_at = match ptr.checked_add(area) {
                Some(p) => p,
                None => { return Err(NetworkError::DimensionMismatch); },
            };
            let next = match biases_at.checked_add(rows) {
                Some(p) => p,
                None => { return Err(NetworkError::DimensionMismatch); },
            };
            if next > total {
                return Err(NetworkError::DimensionMismatch);
            }
            let w = Matrix { rows, columns, data: copy_range(big_theta_v, ptr, biases_at) };
            let b = copy_range(big_theta_v, biases_at, next);
            weights_and_biases.push((w, b));
            ptr = next;
            l += 1;
        }
        proof {
            assert(tupled_layers(weights_and_biases@) =~= reshaped(sizes, theta));
            lemma_reshaped_fits(sizes, theta);
        }
        Ok(weights_and_biases)
    }
}

} // verus!
