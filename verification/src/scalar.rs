//! The scalar arithmetic that the library leaves to its caller.
//!
//! Every value the library computes is built from the operations of
//! [`Operation`], which the caller's evaluator carries out one at a time.
//! What an evaluator computes is, to the contracts, a function from
//! operations to scalars: its [`meaning`]. All that is asked of an
//! evaluator is that it has one: that it accepts every operation and
//! returns one value per operation.

use vstd::prelude::*;

verus! {

/// One primitive step of scalar arithmetic, handed to the caller's evaluator.
pub enum Operation<T> {
    /// Sum of the two operands.
    Add(T, T),
    /// First operand minus the second.
    Sub(T, T),
    /// Product of the two operands.
    Mul(T, T),
    /// First operand divided by the second.
    Div(T, T),
    /// The exponential function at the operand.
    Exp(T),
    /// The square root of the operand.
    Sqrt(T),
    /// The scalar that stands for a whole number.
    Whole(usize),
}

/// An arithmetic: the value of every operation.
pub type Arithmetic<T> = spec_fn(Operation<T>) -> T;

/// A comparison: for every pair, whether the first is strictly greater
/// than the second.
pub type Comparison<T> = spec_fn(T, T) -> bool;

/// The denominator of the perturbation used by finite differences: the
/// perturbation is one over this number.
pub const EPSILON_DENOMINATOR: usize = 10000;

/// An evaluator is usable when it accepts every operation and returns one
/// value per operation, whatever the moment of the call.
pub open spec fn is_evaluator<T, E: Fn(Operation<T>) -> T>(e: E) -> bool {
    &&& forall|op: Operation<T>| #[trigger] e.requires((op,))
    &&& forall|op: Operation<T>, r1: T, r2: T|
        #[trigger] e.ensures((op,), r1) && #[trigger] e.ensures((op,), r2) ==> r1 == r2
}

/// The arithmetic that an evaluator carries out.
pub closed spec fn meaning<T, E: Fn(Operation<T>) -> T>(e: E) -> Arithmetic<T> {
    |op: Operation<T>| choose|r: T| e.ensures((op,), r)
}

/// Any value an evaluator can return for an operation is the value that
/// its meaning gives to the operation.
pub proof fn lemma_meaning_unique<T, E: Fn(Operation<T>) -> T>(e: E, op: Operation<T>, r: T)
    requires
        is_evaluator(e),
        e.ensures((op,), r),
    ensures
        r == meaning(e)(op),
{
}

/// Runs one operation through the evaluator.
pub fn apply<T, E: Fn(Operation<T>) -> T>(e: &E, op: Operation<T>) -> (r: T)
    requires
        is_evaluator(*e),
    ensures
        r == meaning(*e)(op),
        e.ensures((op,), r),
{
    let r = e(op);
    proof {
        lemma_meaning_unique(*e, op, r);
    }
    r
}

/// A comparison is usable when it accepts every pair and answers one way per pair.
pub open spec fn is_comparison<T, C: Fn(T, T) -> bool>(c: C) -> bool {
    &&& forall|a: T, b: T| #[trigger] c.requires((a, b))
    &&& forall|a: T, b: T, r1: bool, r2: bool|
        #[trigger] c.ensures((a, b), r1) && #[trigger] c.ensures((a, b), r2) ==> r1 == r2
}

/// The comparison that a test of two scalars carries out.
pub closed spec fn ordering<T, C: Fn(T, T) -> bool>(c: C) -> Comparison<T> {
    |a: T, b: T| choose|r: bool| c.ensures((a, b), r)
}

/// Any answer a test can give for a pair is the answer of its ordering.
pub proof fn lemma_ordering_unique<T, C: Fn(T, T) -> bool>(c: C, a: T, b: T, r: bool)
    requires
        is_comparison(c),
        c.ensures((a, b), r),
    ensures
        r == ordering(c)(a, b),
{
}

/// Asks the comparison whether `a` is strictly greater than `b`.
pub fn is_greater<T, C: Fn(T, T) -> bool>(c: &C, a: T, b: T) -> (r: bool)
    requires
        is_comparison(*c),
    ensures
        r == ordering(*c)(a, b),
        c.ensures((a, b), r),
{
    let r = c(a, b);
    proof {
        lemma_ordering_unique(*c, a, b, r);
    }
    r
}

/// Whether `a` is strictly greater than `b` under the comparison.
pub open spec fn exceeds<T>(gt: Comparison<T>, a: T, b: T) -> bool {
    gt(a, b)
}

/// The sum `a + b` in the arithmetic.
pub open spec fn plus<T>(arith: Arithmetic<T>, a: T, b: T) -> T {
    arith(Operation::Add(a, b))
}

/// The difference `a - b` in the arithmetic.
pub open spec fn minus<T>(arith: Arithmetic<T>, a: T, b: T) -> T {
    arith(Operation::Sub(a, b))
}

/// The product `a * b` in the arithmetic.
pub open spec fn times<T>(arith: Arithmetic<T>, a: T, b: T) -> T {
    arith(Operation::Mul(a, b))
}

/// The quotient `a / b` in the arithmetic.
pub open spec fn over<T>(arith: Arithmetic<T>, a: T, b: T) -> T {
    arith(Operation::Div(a, b))
}

/// The exponential of `a` in the arithmetic.
pub open spec fn exp_of<T>(arith: Arithmetic<T>, a: T) -> T {
    arith(Operation::Exp(a))
}

/// The square root of `a` in the arithmetic.
pub open spec fn sqrt_of<T>(arith: Arithmetic<T>, a: T) -> T {
    arith(Operation::Sqrt(a))
}

/// The scalar that the arithmetic gives for the whole number `n`.
pub open spec fn whole<T>(arith: Arithmetic<T>, n: usize) -> T {
    arith(Operation::Whole(n))
}

/// The scalar for the whole number 0.
pub open spec fn zero<T>(arith: Arithmetic<T>) -> T {
    whole(arith, 0)
}

/// The scalar for the whole number 1.
pub open spec fn one<T>(arith: Arithmetic<T>) -> T {
    whole(arith, 1)
}

/// The scalar for the whole number 2.
pub open spec fn two<T>(arith: Arithmetic<T>) -> T {
    whole(arith, 2)
}

/// The product of `a` with itself.
pub open spec fn square<T>(arith: Arithmetic<T>, a: T) -> T {
    times(arith, a, a)
}

/// The logistic function, `1 / (1 + exp(0 - x))`.
pub open spec fn sigmoid<T>(arith: Arithmetic<T>, x: T) -> T {
    over(arith, one(arith), plus(arith, one(arith), exp_of(arith, minus(arith, zero(arith), x))))
}

/// The derivative of the logistic function, `sigmoid(x) * (1 - sigmoid(x))`.
pub open spec fn sigmoid_prime<T>(arith: Arithmetic<T>, x: T) -> T {
    times(arith, sigmoid(arith, x), minus(arith, one(arith), sigmoid(arith, x)))
}

/// The perturbation of finite differences, one ten-thousandth.
pub open spec fn epsilon<T>(arith: Arithmetic<T>) -> T {
    over(arith, one(arith), whole(arith, EPSILON_DENOMINATOR))
}

/// Computes the logistic function at `x`.
pub fn sigmoid_at<T: Copy, E: Fn(Operation<T>) -> T>(x: T, e: &E) -> (r: T)
    requires
        is_evaluator(*e),
    ensures
        r == sigmoid(meaning(*e), x),
{
    let negated = apply(e, Operation::Sub(apply(e, Operation::Whole(0)), x));
    let grown = apply(e, Operation::Exp(negated));
    let denominator = apply(e, Operation::Add(apply(e, Operation::Whole(1)), grown));
    apply(e, Operation::Div(apply(e, Operation::Whole(1)), denominator))
}

/// Computes the derivative of the logistic function at `x`.
pub fn sigmoid_prime_at<T: Copy, E: Fn(Operation<T>) -> T>(x: T, e: &E) -> (r: T)
    requires
        is_evaluator(*e),
    ensures
        r == sigmoid_prime(meaning(*e), x),
{
    let s = sigmoid_at(x, e);
    let rest = apply(e, Operation::Sub(apply(e, Operation::Whole(1)), s));
    apply(e, Operation::Mul(s, rest))
}

/// Computes the perturbation of finite differences.
pub fn epsilon_value<T: Copy, E: Fn(Operation<T>) -> T>(e: &E) -> (r: T)
    requires
        is_evaluator(*e),
    ensures
        r == epsilon(meaning(*e)),
{
    let numerator = apply(e, Operation::Whole(1));
    let denominator = apply(e, Operation::Whole(EPSILON_DENOMINATOR));
    apply(e, Operation::Div(numerator, denominator))
}

} // verus!
