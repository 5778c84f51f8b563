//! The failures that a computation on a network can end in.

use vstd::prelude::*;

verus! {

/// Why a computation on a network was abandoned.
#[derive(Debug)]
pub enum NetworkError<T> {
    /// A vector handed to the network has a length other than the size of
    /// the layer it belongs to.
    DimensionMismatch,
    /// The gradient found by back-propagation lies further from the
    /// finite-difference approximation than the tolerance allows.
    FailedGradientCheck { distance: T, tolerance: T },
    /// The average cost over the training set rose during the epoch with
    /// the given index, counted from zero.
    CostIncreased { previous: T, current: T, epoch: usize },
}

} // verus!
