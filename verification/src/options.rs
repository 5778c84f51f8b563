//! The optional checks of a training run.

use vstd::prelude::*;

verus! {

/// Which of the optional per-epoch safeguards a training run performs.
#[derive(Clone, Copy, Debug)]
pub struct CheckOptions {
    pub gradient_checking: bool,
    pub cost_decreasing_check: bool,
}

impl CheckOptions {
    /// Both safeguards switched off.
    pub fn no_checks() -> (r: Self)
        ensures
            !r.gradient_checking,
            !r.cost_decreasing_check,
    {
        CheckOptions { gradient_checking: false, cost_decreasing_check: false }
    }

    /// Both safeguards switched on.
    pub fn all_checks() -> (r: Self)
        ensures
            r.gradient_checking,
            r.cost_decreasing_check,
    {
        CheckOptions { gradient_checking: true, cost_decreasing_check: true }
    }
}

} // verus!
