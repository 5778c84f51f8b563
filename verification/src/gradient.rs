//! The mean gradient of the cost over a whole batch.

use vstd::prelude::*;
use vstd::arithmetic::div_mod::lemma_fundamental_div_mod_converse;
use crate::backprop::intermediates_fit;
use crate::forward::{intermediate_views, FeedForwardIntermediates, IntermediatesView};
use crate::matrix::{lemma_entry_in_bounds, Matrix, MatrixView};
use crate::network::{layer_fits, layers_fit, tupled_layers, LayerView, SimpleNeuralNetwork};
use crate::scalar::{
    apply, is_evaluator, meaning, over, plus, times, whole, zero, Arithmetic, Operation,
};
use crate::vectors::rows_of;

verus! {

/// What one example leaves behind after a forward and a backward pass:
/// the intermediates of every layer and the error of every layer after
/// the input layer.
pub struct PassView<T> {
    pub caps: Seq<IntermediatesView<T>>,
    pub errors: Seq<Seq<T>>,
}

/// The passes of a batch, each by its view.
pub open spec fn passes<T>(batch: Seq<(Vec<FeedForwardIntermediates<T>>, Vec<Vec<T>>)>) -> Seq<
    PassView<T>,
> {
    Seq::new(
        batch.len(),
        |t: int| PassView { caps: intermediate_views(batch[t].0@), errors: rows_of(batch[t].1@) },
    )
}

/// The pass has intermediates and errors of the lengths that the layer
/// sizes ask for.
pub open spec fn pass_fits<T>(sizes: Seq<usize>, pass: PassView<T>) -> bool {
    &&& intermediates_fit(sizes, pass.caps)
    &&& pass.errors.len() == sizes.len() - 1
    &&& forall|k: int|
        0 <= k < pass.errors.len() ==> (#[trigger] pass.errors[k]).len() == sizes[k + 1]
}

/// Every pass of the batch fits the layer sizes.
pub open spec fn passes_fit<T>(sizes: Seq<usize>, batch: Seq<PassView<T>>) -> bool {
    forall|t: int| 0 <= t < batch.len() ==> pass_fits(sizes, #[trigger] batch[t])
}

/// The sum, over the first `n` examples in their order and starting at
/// zero, of the products of entry `i` of the error of the layer that
/// `layers[k]` leads into with entry `j` of the activation of the layer
/// before it.
pub open spec fn weight_gradient_sum<T>(
    arith: Arithmetic<T>,
    batch: Seq<PassView<T>>,
    k: int,
    i: int,
    j: int,
    n: nat,
) -> T
    decreases n,
{
    if n == 0 {
        zero(arith)
    } else {
        plus(
            arith,
            weight_gradient_sum(arith, batch, k, i, j, (n - 1) as nat),
            times(arith, batch[n - 1].errors[k][i], batch[n - 1].caps[k].a[j]),
        )
    }
}

/// The sum, over the first `n` examples in their order and starting at
/// zero, of entry `i` of the error of the layer that `layers[k]` leads
/// into.
pub open spec fn bias_gradient_sum<T>(
    arith: Arithmetic<T>,
    batch: Seq<PassView<T>>,
    k: int,
    i: int,
    n: nat,
) -> T
    decreases n,
{
    if n == 0 {
        zero(arith)
    } else {
        plus(
            arith,
            bias_gradient_sum(arith, batch, k, i, (n - 1) as nat),
            batch[n - 1].errors[k][i],
        )
    }
}

/// The mean over the batch of the partial derivative of the cost by the
/// weight in row `i` and column `j` of `layers[k]`.
pub open spec fn weight_gradient<T>(
    arith: Arithmetic<T>,
    batch: Seq<PassView<T>>,
    k: int,
    i: int,
    j: int,
) -> T {
    over(
        arith,
        weight_gradient_sum(arith, batch, k, i, j, batch.len()),
        whole(arith, batch.len() as usize),
    )
}

/// The mean over the batch of the partial derivative of the cost by bias
/// `i` of `layers[k]`.
pub open spec fn bias_gradient<T>(
    arith: Arithmetic<T>,
    batch: Seq<PassView<T>>,
    k: int,
    i: int,
) -> T {
    over(
        arith,
        bias_gradient_sum(arith, batch, k, i, batch.len()),
        whole(arith, batch.len() as usize),
    )
}

/// The mean gradient of the parameters `layers[k]`, in their shape.
pub open spec fn layer_gradient<T>(
    arith: Arithmetic<T>,
    sizes: Seq<usize>,
    batch: Seq<PassView<T>>,
    k: int,
) -> LayerView<T> {
    let rows = sizes[k + 1] as int;
    let columns = sizes[k] as int;
    LayerView {
        weights: MatrixView {
            rows: rows as nat,
            columns: columns as nat,
            data: Seq::new(
                (rows * columns) as nat,
                |p: int| weight_gradient(arith, batch, k, p / columns, p % columns),
            ),
        },
        biases: Seq::new(rows as nat, |i: int| bias_gradient(arith, batch, k, i)),
    }
}

/// The mean gradient of all parameters over the whole batch.
pub open spec fn gradients<T>(
    arith: Arithmetic<T>,
    sizes: Seq<usize>,
    batch: Seq<PassView<T>>,
) -> Seq<LayerView<T>> {
    Seq::new((sizes.len() - 1) as nat, |k: int| layer_gradient(arith, sizes, batch, k))
}

/// The mean over the batch of one weight's partial derivative.
fn mean_weight_gradient<T: Copy, E: Fn(Operation<T>) -> T>(
    per_tr_ex_data: &Vec<(Vec<FeedForwardIntermediates<T>>, Vec<Vec<T>>)>,
    sizes: Ghost<Seq<usize>>,
    k: usize,
    i: usize,
    j: usize,
    e: &E,
) -> (r: T)
    requires
        is_evaluator(*e),
        passes_fit(sizes@, passes(per_tr_ex_data@)),
        k + 1 < sizes@.len(),
        i < sizes@[k + 1],
        j < sizes@[k as int],
    ensures
        r == weight_gradient(meaning(*e), passes(per_tr_ex_data@), k as int, i as int, j as int),
{
    let n = per_tr_ex_data.len();
    let ghost batch = passes(per_tr_ex_data@);
    let mut sum = apply(e, Operation::Whole(0));
    let mut t: usize = 0;
    while t < n
        invariant
            is_evaluator(*e),
            n == per_tr_ex_data.len(),
            batch == passes(per_tr_ex_data@),
            passes_fit(sizes@, batch),
            k + 1 < sizes@.len(),
            i < sizes@[k + 1],
            j < sizes@[k as int],
            t <= n,
            sum == weight_gradient_sum(meaning(*e), batch, k as int, i as int, j as int, t as nat),
        decreases n - t,
    {
        proof {
            assert(batch[t as int].errors[k as int].len() == sizes@[k + 1]);
            assert(batch[t as int].caps[k as int].a.len() == sizes@[k as int]);
        }
        let pass = &per_tr_ex_data[t];
        let this_layer_err = pass.1[k][i];
        let prev_layer_activation = pass.0[k].activations_vector[j];
        let product = apply(e, Operation::Mul(this_layer_err, prev_layer_activation));
        sum = apply(e, Operation::Add(sum, product));
        t += 1;
    }
    let count = apply(e, Operation::Whole(n));
    apply(e, Operation::Div(sum, count))
}

/// The mean over the batch of one bias's partial derivative.
fn mean_bias_gradient<T: Copy, E: Fn(Operation<T>) -> T>(
    per_tr_ex_data: &Vec<(Vec<FeedForwardIntermediates<T>>, Vec<Vec<T>>)>,
    sizes: Ghost<Seq<usize>>,
    k: usize,
    i: usize,
    e: &E,
) -> (r: T)
    requires
        is_evaluator(*e),
        passes_fit(sizes@, passes(per_tr_ex_data@)),
        k + 1 < sizes@.len(),
        i < sizes@[k + 1],
    ensures
        r == bias_gradient(meaning(*e), passes(per_tr_ex_data@), k as int, i as int),
{
    let n = per_tr_ex_data.len();
    let ghost batch = passes(per_tr_ex_data@);
    let mut sum = apply(e, Operation::Whole(0));
    let mut t: usize = 0;
    while t < n
        invariant
            is_evaluator(*e),
            n == per_tr_ex_data.len(),
            batch == passes(per_tr_ex_data@),
            passes_fit(sizes@, batch),
            k + 1 < sizes@.len(),
            i < sizes@[k + 1],
            t <= n,
            sum == bias_gradient_sum(meaning(*e), batch, k as int, i as int, t as nat),
        decreases n - t,
    {
        proof {
            assert(batch[t as int].errors[k as int].len() == sizes@[k + 1]);
        }
        let this_layer_err = per_tr_ex_data[t].1[k][i];
        sum = apply(e, Operation::Add(sum, this_layer_err));
        t += 1;
    }
    let count = apply(e, Operation::Whole(n));
    apply(e, Operation::Div(sum, count))
}

impl<T: Copy> SimpleNeuralNetwork<T> {
    /// The mean gradient of every weight and bias over a whole batch, from
    /// what each example left behind: for every layer after the input
    /// layer, a matrix of the shape of its weights and a vector of the
    /// length of its biases.
    pub fn compute_gradients<E: Fn(Operation<T>) -> T>(
        &self,
        per_tr_ex_data: &Vec<(Vec<FeedForwardIntermediates<T>>, Vec<Vec<T>>)>,
        e: &E,
    ) -> (r: Vec<(Matrix<T>, Vec<T>)>)
        requires
            self.wf(),
            is_evaluator(*e),
            passes_fit(self@.sizes, passes(per_tr_ex_data@)),
        ensures
            tupled_layers(r@) == gradients(meaning(*e), self@.sizes, passes(per_tr_ex_data@)),
            layers_fit(self@.sizes, tupled_layers(r@)),
    {
        let steps = self.weights.len();
        let ghost sizes = self@.sizes;
        let ghost batch = passes(per_tr_ex_data@);
        let mut result: Vec<(Matrix<T>, Vec<T>)> = Vec::new();
        let mut k: usize = 0;
        while k < steps
            invariant
                self.wf(),
                is_evaluator(*e),
                steps == self.weights.len(),
                sizes == self@.sizes,
                batch == passes(per_tr_ex_data@),
                passes_fit(sizes, batch),
                k <= steps,
                result.len() == k,
                forall|q: int|
                    0 <= q < k ==> {
                        &&& (#[trigger] result[q]).0@ == layer_gradient(
                            meaning(*e),
                            sizes,
                            batch,
                            q,
                        ).weights
                        &&& result[q].1@ == layer_gradient(meaning(*e), sizes, batch, q).biases
                    },
            decreases steps - k,
        {
            proof {
                assert(layer_fits(sizes, self@.layers[k as int], k as int));
            }
            let rows = self.sizes[k + 1];
            let columns = self.sizes[k];
            assert(self.weights[k as int].wf());
            let ghost target = layer_gradient(meaning(*e), sizes, batch, k as int);
            let mut weights_data: Vec<T> = Vec::new();
            let mut biases_data: Vec<T> = Vec::new();
            let mut i: usize = 0;
            while i < rows
                invariant
                    is_evaluator(*e),
                    sizes == self@.sizes,
                    batch == passes(per_tr_ex_data@),
                    passes_fit(sizes, batch),
                    k + 1 < sizes.len(),
                    rows == sizes[k + 1],
                    columns == sizes[k as int],
                    rows as int * columns as int <= usize::MAX,
                    target == layer_gradient(meaning(*e), sizes, batch, k as int),
                    i <= rows,
                    weights_data.len() == i * columns,
                    biases_data.len() == i,
                    forall|p: int|
                        0 <= p < weights_data.len() ==> weights_data[p]
                            == target.weights.data[p],
                    forall|q: int| 0 <= q < i ==> biases_data[q] == target.biases[q],
                decreases rows - i,
            {
                let mut j: usize = 0;
                while j < columns
                    invariant
                        is_evaluator(*e),
                        sizes == self@.sizes,
                        batch == passes(per_tr_ex_data@),
                        passes_fit(sizes, batch),
                        k + 1 < sizes.len(),
                        rows == sizes[k + 1],
                        columns == sizes[k as int],
                        rows as int * columns as int <= usize::MAX,
                        target == layer_gradient(meaning(*e), sizes, batch, k as int),
                        i < rows,
                        j <= columns,
                        weights_data.len() == i * columns + j,
                        forall|p: int|
                            0 <= p < weights_data.len() ==> weights_data[p]
                                == target.weights.data[p],
                    decreases columns - j,
                {
                    proof {
                        lemma_entry_in_bounds(i as int, j as int, rows as int, columns as int);
                        lemma_fundamental_div_mod_converse(
                            i * columns + j,
                            columns as int,
                            i as int,
                            j as int,
                        );
                    }
                    let g = mean_weight_gradient(per_tr_ex_data, Ghost(sizes), k, i, j, e);
                    weights_data.push(g);
                    j += 1;
                }
                proof {
                    assert((i + 1) * columns == i * columns + columns) by (nonlinear_arith);
                }
                let g = mean_bias_gradient(per_tr_ex_data, Ghost(sizes), k, i, e);
                biases_data.push(g);
                i += 1;
            }
            assert(weights_data@ =~= target.weights.data);
            result.push((Matrix { rows, columns, data: weights_data }, biases_data));
            k += 1;
        }
        result
    }
}

} // verus!
