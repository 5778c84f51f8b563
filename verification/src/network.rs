//! The network, its parameters layer by layer, and the examples it is
//! trained on.

use vstd::prelude::*;
use crate::matrix::{Matrix, MatrixShape, MatrixView};

verus! {

/// The parameters that lead into one layer: a weight for every pair of a
/// neuron of the layer and a neuron of the layer before it, and a bias for
/// every neuron of the layer.
pub struct LayerView<T> {
    pub weights: MatrixView<T>,
    pub biases: Seq<T>,
}

/// A network as mathematics sees it. `layers[k]` leads from layer `k` into
/// layer `k + 1`, so the input layer owns no entry.
pub struct NetworkView<T> {
    pub sizes: Seq<usize>,
    pub layers: Seq<LayerView<T>>,
}

/// Layer `k` of the parameters has the dimensions that the layer sizes ask for.
pub open spec fn layer_fits<T>(sizes: Seq<usize>, layer: LayerView<T>, k: int) -> bool {
    &&& layer.weights.rows == sizes[k + 1]
    &&& layer.weights.columns == sizes[k]
    &&& layer.weights.wf()
    &&& layer.biases.len() == sizes[k + 1]
}

/// There is a layer of parameters between every two adjacent layers of
/// neurons, each of the right dimensions.
pub open spec fn layers_fit<T>(sizes: Seq<usize>, layers: Seq<LayerView<T>>) -> bool {
    &&& sizes.len() >= 1
    &&& layers.len() == sizes.len() - 1
    &&& forall|k: int| 0 <= k < layers.len() ==> layer_fits(sizes, #[trigger] layers[k], k)
}

/// The layer sizes describe a network whose weight matrices can be stored.
pub open spec fn valid_topology(sizes: Seq<usize>) -> bool {
    &&& sizes.len() >= 1
    &&& forall|k: int|
        0 <= k < sizes.len() - 1 ==> (#[trigger] sizes[k + 1]) as int * sizes[k] as int
            <= usize::MAX
}

/// The parameters of separately stored weights and biases, layer by layer.
pub open spec fn paired_layers<T>(weights: Seq<Matrix<T>>, biases: Seq<Vec<T>>) -> Seq<
    LayerView<T>,
> {
    Seq::new(weights.len(), |k: int| LayerView { weights: weights[k]@, biases: biases[k]@ })
}

/// The parameters of weights and biases stored as one pair per layer.
pub open spec fn tupled_layers<T>(layers: Seq<(Matrix<T>, Vec<T>)>) -> Seq<LayerView<T>> {
    Seq::new(layers.len(), |k: int| LayerView { weights: layers[k].0@, biases: layers[k].1@ })
}

/// One labelled example: an input and the output wanted for it.
#[derive(Clone, Debug)]
pub struct TrainingDataPoint<T> {
    pub input_v: Vec<T>,
    pub desired_output_v: Vec<T>,
}

/// An example as mathematics sees it.
pub struct ExampleView<T> {
    pub input: Seq<T>,
    pub desired: Seq<T>,
}

impl<T> View for TrainingDataPoint<T> {
    type V = ExampleView<T>;

    open spec fn view(&self) -> ExampleView<T> {
        ExampleView { input: self.input_v@, desired: self.desired_output_v@ }
    }
}

impl<T> TrainingDataPoint<T> {
    /// An example of the given input and the output wanted for it.
    pub fn new(input_v: Vec<T>, desired_output_v: Vec<T>) -> (r: Self)
        ensures
            r@.input == input_v@,
            r@.desired == desired_output_v@,
    {
        TrainingDataPoint { input_v, desired_output_v }
    }
}

/// The examples of a training set, each by its view.
pub open spec fn examples<T>(data: Seq<TrainingDataPoint<T>>) -> Seq<ExampleView<T>> {
    Seq::new(data.len(), |k: int| data[k]@)
}

/// A fully connected feed-forward network. `weights[k]` and `biases[k]`
/// lead from layer `k` into layer `k + 1`.
#[derive(Clone, Debug)]
pub struct SimpleNeuralNetwork<T> {
    pub sizes: Vec<usize>,
    pub weights: Vec<Matrix<T>>,
    pub biases: Vec<Vec<T>>,
}

impl<T> View for SimpleNeuralNetwork<T> {
    type V = NetworkView<T>;

    open spec fn view(&self) -> NetworkView<T> {
        NetworkView { sizes: self.sizes@, layers: paired_layers(self.weights@, self.biases@) }
    }
}

/// Every weight and every bias of the network is a value that `sample`
/// may return.
pub open spec fn drawn_from<T, S: Fn() -> T>(sample: S, net: SimpleNeuralNetwork<T>) -> bool {
    &&& forall|k: int, i: int|
        0 <= k < net.weights.len() && 0 <= i < net.weights[k].data.len() ==> sample.ensures(
            (),
            #[trigger] net.weights[k].data[i],
        )
    &&& forall|k: int, i: int|
        0 <= k < net.biases.len() && 0 <= i < net.biases[k].len() ==> sample.ensures(
            (),
            #[trigger] net.biases[k][i],
        )
}

impl<T: Copy> SimpleNeuralNetwork<T> {
    /// There is at least an input layer, and one weight matrix and one bias
    /// vector per further layer, each of the dimensions that the sizes of
    /// the two layers ask for.
    pub open spec fn wf(&self) -> bool {
        &&& self.weights.len() == self.biases.len()
        &&& layers_fit(self.sizes@, self@.layers)
    }

    /// Tests at run time whether the parameters agree with the layer sizes.
    pub fn is_well_formed(&self) -> (ok: bool)
        ensures
            ok == self.wf(),
    {
        let count = self.sizes.len();
        if count == 0 || self.weights.len() != count - 1 || self.biases.len() != count - 1 {
            return false;
        }
        let mut k: usize = 0;
        while k < count - 1
            invariant
                count == self.sizes.len(),
                count >= 1,
                self.weights.len() == count - 1,
                self.biases.len() == count - 1,
                k <= count - 1,
                forall|i: int|
                    0 <= i < k ==> layer_fits(self.sizes@, #[trigger] self@.layers[i], i),
            decreases count - 1 - k,
        {
            let w = &self.weights[k];
            let fits = w.rows == self.sizes[k + 1] && w.columns == self.sizes[k]
                && w.is_well_formed() && self.biases[k].len() == self.sizes[k + 1];
            if !fits {
                assert(!layer_fits(self.sizes@, self@.layers[k as int], k as int));
                return false;
            }
            k += 1;
        }
        true
    }

    /// A network of the given layer sizes whose every weight and bias is a
    /// value drawn from `sample`: first the biases, layer by layer, then the
    /// weights, layer by layer and row by row. `None`, with nothing drawn,
    /// when the sizes describe no network that can be stored.
    pub fn new<S: Fn() -> T>(sizes: Vec<usize>, sample: &S) -> (r: Option<Self>)
        requires
            sample.requires(()),
        ensures
            r is Some <==> valid_topology(sizes@),
            r matches Some(net) ==> net.wf() && net.sizes@ == sizes@ && drawn_from(*sample, net),
    {
        let count = sizes.len();
        if count == 0 {
            return None;
        }
        let mut l: usize = 1;
        while l < count
            invariant
                count == sizes.len(),
                1 <= l <= count,
                forall|k: int|
                    0 <= k < l - 1 ==> (#[trigger] sizes[k + 1]) as int * sizes[k] as int
                        <= usize::MAX,
            decreases count - l,
        {
            if sizes[l].checked_mul(sizes[l - 1]).is_none() {
                assert(sizes[(l - 1) + 1] as int * sizes[l - 1] as int > usize::MAX);
                return None;
            }
            l += 1;
        }
        let mut biases: Vec<Vec<T>> = Vec::new();
        let mut l: usize = 1;
        while l < count
            invariant
                count == sizes.len(),
                1 <= l <= count,
                sample.requires(()),
                biases.len() == l - 1,
                forall|k: int|
                    0 <= k < biases.len() ==> (#[trigger] biases[k]).len() == sizes[k + 1],
                forall|k: int, i: int|
                    0 <= k < biases.len() && 0 <= i < biases[k].len() ==> sample.ensures(
                        (),
                        #[trigger] biases[k][i],
                    ),
            decreases count - l,
        {
            let drawn = draw(sizes[l], sample);
            biases.push(drawn);
            l += 1;
        }
        let mut weights: Vec<Matrix<T>> = Vec::new();
        let mut l: usize = 1;
        while l < count
            invariant
                count == sizes.len(),
                1 <= l <= count,
                valid_topology(sizes@),
                sample.requires(()),
                weights.len() == l - 1,
                forall|k: int|
                    0 <= k < weights.len() ==> {
                        &&& (#[trigger] weights[k]).wf()
                        &&& weights[k].rows == sizes[k + 1]
                        &&& weights[k].columns == sizes[k]
                    },
                forall|k: int, i: int|
                    0 <= k < weights.len() && 0 <= i < weights[k].data.len() ==> sample.ensures(
                        (),
                        #[trigger] weights[k].data[i],
                    ),
            decreases count - l,
        {
            assert(sizes[(l - 1) + 1] as int * sizes[l - 1] as int <= usize::MAX);
            let data = draw(sizes[l] * sizes[l - 1], sample);
            weights.push(Matrix { rows: sizes[l], columns: sizes[l - 1], data });
            l += 1;
        }
        let net = SimpleNeuralNetwork { sizes, weights, biases };
        Some(net)
    }

    /// The number of layers, the input layer included.
    pub fn num_layers(&self) -> (n: usize)
        ensures
            n == self@.sizes.len(),
    {
        self.sizes.len()
    }

    /// The shape of the weight matrix that leads into layer `layer_index`.
    pub fn get_weight_matrix_shape(&self, layer_index: usize) -> (shape: MatrixShape)
        requires
            1 <= layer_index < self@.sizes.len(),
        ensures
            shape.rows == self@.sizes[layer_index as int],
            shape.columns == self@.sizes[layer_index - 1],
    {
        MatrixShape::new(self.sizes[layer_index], self.sizes[layer_index - 1])
    }
}

/// Draws `n` values from `sample`, in order.
fn draw<T, S: Fn() -> T>(n: usize, sample: &S) -> (v: Vec<T>)
    requires
        sample.requires(()),
    ensures
        v.len() == n,
        forall|i: int| 0 <= i < n ==> sample.ensures((), #[trigger] v[i]),
{
    let mut v: Vec<T> = Vec::new();
    let mut i: usize = 0;
    while i < n
        invariant
            i <= n,
            v.len() == i,
            sample.requires(()),
            forall|k: int| 0 <= k < i ==> sample.ensures((), #[trigger] v[k]),
        decreases n - i,
    {
        let x = sample();
        v.push(x);
        i += 1;
    }
    v
}

} // verus!
