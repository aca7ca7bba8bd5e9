//! Loss functions: a scalar or vector loss between output and target, and
//! its derivative or gradient.
use vstd::prelude::*;

use crate::differentiable_fn::DifferentiableFn;
use crate::differentiable_fn::Sigmoid;
use crate::scalar::Scalar;

verus! {

/// The clamp bound that keeps binary cross-entropy's logarithms finite:
/// `1 / 10^12`.
pub open spec fn spec_bce_epsilon<V: Scalar>() -> V {
    V::spec_one().spec_div_by(V::spec_from_u64(1000000000000))
}

/// A probability clamped to `[1e-12, 1 - 1e-12]`.
pub open spec fn spec_clamped_probability<V: Scalar>(output: V) -> V {
    output.spec_max_with(spec_bce_epsilon::<V>()).spec_min_with(
        V::spec_one().spec_minus(spec_bce_epsilon::<V>()),
    )
}

/// The sum of a sequence of scalars, accumulated left to right from zero.
pub open spec fn spec_sum<V: Scalar>(s: Seq<V>) -> V
    decreases s.len(),
{
    if s.len() == 0 {
        V::spec_zero()
    } else {
        spec_sum(s.drop_last()).spec_plus(s.last())
    }
}

/// The running maximum of a non-empty sequence, folded left to right from
/// its first element.
pub open spec fn spec_running_max<V: Scalar>(s: Seq<V>) -> V
    recommends
        s.len() >= 1,
    decreases s.len(),
{
    if s.len() <= 1 {
        s[0]
    } else {
        spec_running_max(s.drop_last()).spec_max_with(s.last())
    }
}

/// Every element shifted down by `m` and exponentiated.
pub open spec fn spec_shift_exps<V: Scalar>(s: Seq<V>, m: V) -> Seq<V> {
    s.map_values(|x: V| x.spec_minus(m).spec_exp())
}

/// Binary cross-entropy over a probability and a 0/1 target, the probability
/// clamped away from 0 and 1 to keep the logarithms finite.
pub struct BCELoss;

impl BCELoss {
    /// `-(t * ln(o') + (1 - t) * ln(1 - o'))` over the clamped probability
    /// `o'`.
    pub open spec fn spec_eval<V: Scalar>(output: V, target: V) -> V {
        let o = spec_clamped_probability(output);
        target.spec_times(o.spec_ln()).spec_plus(
            V::spec_one().spec_minus(target).spec_times(V::spec_one().spec_minus(o).spec_ln()),
        ).spec_neg()
    }

    /// `-(t / o' - (1 - t) / (1 - o'))` over the clamped probability `o'`.
    pub open spec fn spec_derivative<V: Scalar>(output: V, target: V) -> V {
        let o = spec_clamped_probability(output);
        target.spec_div_by(o).spec_minus(
            V::spec_one().spec_minus(target).spec_div_by(V::spec_one().spec_minus(o)),
        ).spec_neg()
    }

    /// `-(t * ln(o') + (1 - t) * ln(1 - o'))`, where `o'` is `output`
    /// clamped to `[1e-12, 1 - 1e-12]`.
    pub fn eval<V: Scalar>(output: V, target: V) -> (r: V)
        ensures
            r == Self::spec_eval(output, target),
    {
        let eps = V::one().div_by(V::from_u64(1000000000000));
        let output = output.max_with(eps).min_with(V::one().minus(eps));
        target.times(output.ln()).plus(
            V::one().minus(target).times(V::one().minus(output).ln()),
        ).neg()
    }

    /// `-(t / o' - (1 - t) / (1 - o'))`, with the same clamping as `eval`.
    pub fn derivative<V: Scalar>(output: V, target: V) -> (r: V)
        ensures
            r == Self::spec_derivative(output, target),
    {
        let eps = V::one().div_by(V::from_u64(1000000000000));
        let output = output.max_with(eps).min_with(V::one().minus(eps));
        target.div_by(output).minus(
            V::one().minus(target).div_by(V::one().minus(output)),
        ).neg()
    }
}

/// Binary cross-entropy taken on a raw logit: the sigmoid is applied first,
/// and the derivative uses the closed-form simplification.
pub struct BCEWithLogitsLoss;

impl BCEWithLogitsLoss {
    /// The binary cross-entropy of the sigmoid of the logit.
    pub open spec fn spec_eval<V: Scalar>(output: V, target: V) -> V {
        BCELoss::spec_eval(<Sigmoid as DifferentiableFn<V>>::spec_eval(output), target)
    }

    /// The closed form `sigmoid(output) - target`.
    pub open spec fn spec_derivative<V: Scalar>(output: V, target: V) -> V {
        <Sigmoid as DifferentiableFn<V>>::spec_eval(output).spec_minus(target)
    }

    /// `BCELoss::eval(sigmoid(output), target)`.
    pub fn eval<V: Scalar>(output: V, target: V) -> (r: V)
        ensures
            r == Self::spec_eval(output, target),
    {
        let output = <Sigmoid as DifferentiableFn<V>>::eval(output);
        BCELoss::eval(output, target)
    }

    /// The closed form `sigmoid(output) - target`.
    pub fn derivative<V: Scalar>(output: V, target: V) -> (r: V)
        ensures
            r == Self::spec_derivative(output, target),
    {
        <Sigmoid as DifferentiableFn<V>>::eval(output).minus(target)
    }
}

/// The logit loss's gradient is exactly the sigmoid of the logit minus the
/// target, for every scalar and every target.
pub proof fn lemma_bce_with_logits_derivative_closed_form<V: Scalar>(output: V, target: V)
    ensures
        BCEWithLogitsLoss::spec_derivative(output, target)
            == <Sigmoid as DifferentiableFn<V>>::spec_eval(output).spec_minus(target),
{
}

/// Categorical cross-entropy over a logit vector and a one-hot target, with
/// softmax normalization.
pub struct CrossEntropyLoss;

impl CrossEntropyLoss {
    /// The softmax of a vector: each element shifted down by the vector's
    /// running maximum, exponentiated, and divided by the sum of those
    /// exponentials; empty in, empty out.
    pub open spec fn spec_softmax<V: Scalar>(input: Seq<V>) -> Seq<V> {
        if input.len() == 0 {
            Seq::empty()
        } else {
            let e = spec_shift_exps(input, spec_running_max(input));
            let total = spec_sum(e);
            e.map_values(|x: V| x.spec_div_by(total))
        }
    }

    /// `-sum_i target[i] * ln(softmax(output)[i])`.
    pub open spec fn spec_eval<V: Scalar>(output: Seq<V>, target: Seq<V>) -> V {
        spec_sum(
            Seq::new(
                output.len(),
                |i: int| target[i].spec_times(Self::spec_softmax(output)[i].spec_ln()),
            ),
        ).spec_neg()
    }

    /// `softmax(output)[i] - target[i]`, one component per output.
    pub open spec fn spec_derivative<V: Scalar>(output: Seq<V>, target: Seq<V>) -> Seq<V> {
        Seq::new(output.len(), |i: int| Self::spec_softmax(output)[i].spec_minus(target[i]))
    }

    /// The softmax of `input`: `e^(v_i - max(v)) / sum_j e^(v_j - max(v))`,
    /// the maximum subtracted for numerical stability. One output per input.
    pub fn softmax<V: Scalar>(input: &Vec<V>) -> (r: Vec<V>)
        ensures
            r@.len() == input@.len(),
            r@ == Self::spec_softmax(input@),
    {
        if input.len() == 0 {
            let r: Vec<V> = Vec::new();
            proof {
                assert(r@ =~= Self::spec_softmax(input@));
            }
            return r;
        }
        let mut max = input[0];
        let n = input.len();
        proof {
            assert(input@.take(1) =~= seq![input@[0]]);
        }
        for k in 1..n
            invariant
                n == input@.len(),
                1 <= k <= n,
                max == spec_running_max(input@.take(k as int)),
        {
            max = max.max_with(input[k]);
            proof {
                let t = input@.take(k + 1 as int);
                assert(t.drop_last() =~= input@.take(k as int));
                assert(t.last() == input@[k as int]);
            }
        }
        proof {
            assert(input@.take(n as int) =~= input@);
        }
        let mut exps: Vec<V> = Vec::new();
        for k in 0..n
            invariant
                n == input@.len(),
                exps@.len() == k,
                max == spec_running_max(input@),
                forall|i: int|
                    0 <= i < k ==> #[trigger] exps@[i] == input@[i].spec_minus(max).spec_exp(),
        {
            exps.push(input[k].minus(max).exp());
        }
        proof {
            assert(exps@ =~= spec_shift_exps(input@, max));
        }
        let mut total = V::zero();
        for k in 0..exps.len()
            invariant
                total == spec_sum(exps@.take(k as int)),
        {
            total = total.plus(exps[k]);
            proof {
                let t = exps@.take(k + 1 as int);
                assert(t.drop_last() =~= exps@.take(k as int));
                assert(t.last() == exps@[k as int]);
            }
        }
        proof {
            assert(exps@.take(exps@.len() as int) =~= exps@);
        }
        let mut r: Vec<V> = Vec::new();
        for k in 0..exps.len()
            invariant
                r@.len() == k,
                total == spec_sum(exps@),
                forall|i: int| 0 <= i < k ==> #[trigger] r@[i] == exps@[i].spec_div_by(total),
        {
            r.push(exps[k].div_by(total));
        }
        proof {
            assert(r@ =~= Self::spec_softmax(input@));
        }
        r
    }

    /// `-sum_i target_i * ln(softmax(output)_i)`.
    pub fn eval<V: Scalar>(output: &Vec<V>, target: &Vec<V>) -> (r: V)
        requires
            target@.len() == output@.len(),
        ensures
            r == Self::spec_eval(output@, target@),
    {
        let sm = Self::softmax(output);
        let ghost terms = Seq::new(
            output@.len(),
            |i: int| target@[i].spec_times(Self::spec_softmax(output@)[i].spec_ln()),
        );
        let mut acc = V::zero();
        let n = sm.len();
        for k in 0..n
            invariant
                n == sm@.len(),
                sm@ == Self::spec_softmax(output@),
                sm@.len() == output@.len(),
                terms.len() == output@.len(),
                acc == spec_sum(terms.take(k as int)),
        {
            acc = acc.plus(target[k].times(sm[k].ln()));
            proof {
                let t = terms.take(k + 1 as int);
                assert(t.drop_last() =~= terms.take(k as int));
                assert(t.last() == terms[k as int]);
            }
        }
        proof {
            assert(terms.take(n as int) =~= terms);
        }
        acc.neg()
    }

    /// The gradient `softmax(output)_i - target_i`, one component per output.
    pub fn derivative<V: Scalar>(output: &Vec<V>, target: &Vec<V>) -> (r: Vec<V>)
        requires
            target@.len() == output@.len(),
        ensures
            r@.len() == output@.len(),
            r@ == Self::spec_derivative(output@, target@),
    {
        let sm = Self::softmax(output);
        let mut r: Vec<V> = Vec::new();
        let n = sm.len();
        for k in 0..n
            invariant
                n == sm@.len(),
                sm@ == Self::spec_softmax(output@),
                sm@.len() == output@.len(),
                r@.len() == k,
                forall|i: int|
                    0 <= i < k ==> #[trigger] r@[i] == sm@[i].spec_minus(target@[i]),
        {
            r.push(sm[k].minus(target[k]));
        }
        proof {
            assert(r@ =~= Self::spec_derivative(output@, target@));
        }
        r
    }
}

/// Mean-squared error over one scalar output and target.
pub struct MSELoss;

impl MSELoss {
    /// `(output - target) * (output - target)`.
    pub open spec fn spec_eval<V: Scalar>(output: V, target: V) -> V {
        output.spec_minus(target).spec_times(output.spec_minus(target))
    }

    /// `2 * (output - target)`.
    pub open spec fn spec_derivative<V: Scalar>(output: V, target: V) -> V {
        V::spec_from_u64(2).spec_times(output.spec_minus(target))
    }

    /// `(output - target)^2`.
    pub fn eval<V: Scalar>(output: V, target: V) -> (r: V)
        ensures
            r == Self::spec_eval(output, target),
    {
        let d = output.minus(target);
        d.times(d)
    }

    /// `2 * (output - target)`.
    pub fn derivative<V: Scalar>(output: V, target: V) -> (r: V)
        ensures
            r == Self::spec_derivative(output, target),
    {
        V::from_u64(2).times(output.minus(target))
    }
}

} // verus!
