//! Activation functions: a scalar evaluation and its derivative, both taken
//! at the pre-activation input.
use vstd::prelude::*;

use crate::scalar::Scalar;

verus! {

/// A differentiable scalar function, used as a layer's activation.
///
/// `derivative` is evaluated at the pre-activation input `x`, not at the
/// activated output. The spec functions say what the two methods return.
pub trait DifferentiableFn<V> {
    /// What `eval` returns.
    spec fn spec_eval(input: V) -> V;

    /// What `derivative` returns.
    spec fn spec_derivative(input: V) -> V;

    /// The function's value at `input`.
    fn eval(input: V) -> (r: V)
        ensures
            r == Self::spec_eval(input),
    ;

    /// The function's derivative at `input`.
    fn derivative(input: V) -> (r: V)
        ensures
            r == Self::spec_derivative(input),
    ;
}

/// The identity activation: `eval(x) = x`, `derivative(x) = 1`.
#[derive(Debug)]
pub struct PassThrough;

impl<V: Scalar> DifferentiableFn<V> for PassThrough {
    open spec fn spec_eval(input: V) -> V {
        input
    }

    open spec fn spec_derivative(input: V) -> V {
        V::spec_one()
    }

    fn eval(input: V) -> (r: V) {
        input
    }

    fn derivative(_input: V) -> (r: V) {
        V::one()
    }
}

/// The logistic sigmoid: `eval(x) = 1 / (1 + e^-x)`, with the derivative
/// computed as `eval(x) * (1 - eval(x))` by re-evaluating `eval` at `x`.
#[derive(Debug)]
pub struct Sigmoid;

impl<V: Scalar> DifferentiableFn<V> for Sigmoid {
    open spec fn spec_eval(input: V) -> V {
        V::spec_one().spec_div_by(V::spec_one().spec_plus(input.spec_neg().spec_exp()))
    }

    open spec fn spec_derivative(input: V) -> V {
        Self::spec_eval(input).spec_times(V::spec_one().spec_minus(Self::spec_eval(input)))
    }

    fn eval(input: V) -> (r: V) {
        V::one().div_by(V::one().plus(input.neg().exp()))
    }

    fn derivative(input: V) -> (r: V) {
        let s = <Sigmoid as DifferentiableFn<V>>::eval(input);
        s.times(V::one().minus(s))
    }
}

/// The identity's derivative is one everywhere, and its value is its input.
pub proof fn lemma_pass_through_contract<V: Scalar>(x: V)
    ensures
        <PassThrough as DifferentiableFn<V>>::spec_eval(x) == x,
        <PassThrough as DifferentiableFn<V>>::spec_derivative(x) == V::spec_one(),
{
}

/// The sigmoid's derivative at `x` is `eval(x) * (1 - eval(x))`, the
/// evaluation re-taken at the pre-activation input.
pub proof fn lemma_sigmoid_derivative_identity<V: Scalar>(x: V)
    ensures
        <Sigmoid as DifferentiableFn<V>>::spec_derivative(x)
            == <Sigmoid as DifferentiableFn<V>>::spec_eval(x).spec_times(
            V::spec_one().spec_minus(<Sigmoid as DifferentiableFn<V>>::spec_eval(x)),
        ),
{
}

} // verus!
