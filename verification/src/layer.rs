//! The trainable-layer engine: neurons with a fixed sign polarity, units that
//! sum them into one output, and layers of units sharing one input vector.
use core::marker::PhantomData;

use vstd::prelude::*;

use crate::differentiable_fn::DifferentiableFn;
use crate::scalar::Scalar;
use crate::scalar::UniformSource;

verus! {

/// The polarity of a neuron, fixed at construction from its coordinates.
#[derive(Clone, Copy, Debug, PartialEq, Eq, Structural)]
pub enum NeuronType {
    Excitatory,
    Inhibitory,
}

/// The polarity a neuron gets from its output index `i` and input index `j`:
/// excitatory exactly when the two indices have the same parity.
pub open spec fn spec_neuron_type(i: nat, j: nat) -> NeuronType {
    if i % 2 == j % 2 {
        NeuronType::Excitatory
    } else {
        NeuronType::Inhibitory
    }
}

/// The initial weight a polarity makes of a unit-interval draw: the draw
/// itself for an excitatory neuron, its negation for an inhibitory one.
pub open spec fn spec_signed_draw<V: Scalar>(t: NeuronType, draw: V) -> V {
    match t {
        NeuronType::Excitatory => draw,
        NeuronType::Inhibitory => draw.spec_neg(),
    }
}

/// The initial-weight rule: an excitatory neuron's weight is a non-negative
/// unit-interval draw, an inhibitory neuron's weight is the negation of such
/// a draw.
pub open spec fn spec_signed_weight_ok<V: Scalar>(t: NeuronType, w: V) -> bool {
    match t {
        NeuronType::Excitatory => !w.spec_is_negative(),
        NeuronType::Inhibitory => exists|d: V| !d.spec_is_negative() && w == d.spec_neg(),
    }
}

impl NeuronType {
    /// The polarity for the coordinate pair `(i, j)`: `Excitatory` if and
    /// only if `i` and `j` have the same parity.
    pub fn new(i: usize, j: usize) -> (r: Self)
        ensures
            r == spec_neuron_type(i as nat, j as nat),
            r is Excitatory <==> i % 2 == j % 2,
    {
        if i % 2 == j % 2 {
            NeuronType::Excitatory
        } else {
            NeuronType::Inhibitory
        }
    }

    /// Applies the polarity's sign to a unit-interval draw.
    pub fn sign_applied<V: Scalar>(&self, draw: V) -> (r: V)
        ensures
            r == spec_signed_draw(*self, draw),
    {
        match self {
            NeuronType::Excitatory => draw,
            NeuronType::Inhibitory => draw.neg(),
        }
    }

    /// An initial weight: a unit-interval draw from `rng`, signed by the
    /// polarity — non-negative for an excitatory neuron, non-positive for an
    /// inhibitory one. Which value is drawn is the source's affair.
    pub fn weight<V: Scalar, R: UniformSource<V>>(&self, rng: &mut R) -> (r: V)
        ensures
            spec_signed_weight_ok(*self, r),
    {
        let d: V = rng.draw();
        let r = self.sign_applied(d);
        proof {
            assert(r == spec_signed_draw(*self, d));
        }
        r
    }
}

/// One scalar weight with a fixed polarity, applied multiplicatively to one
/// input.
#[derive(Debug)]
pub struct Neuron<V> {
    pub neuron_type: NeuronType,
    pub weight: V,
}

impl<V: Scalar> Neuron<V> {
    /// The weight after an update by `delta`: an excitatory neuron subtracts
    /// it, an inhibitory one adds it.
    pub open spec fn spec_appended(&self, delta: V) -> V {
        match self.neuron_type {
            NeuronType::Excitatory => self.weight.spec_minus(delta),
            NeuronType::Inhibitory => self.weight.spec_plus(delta),
        }
    }

    /// A neuron at coordinates `(i, j)`, with its polarity derived from the
    /// index parities and its weight a polarity-signed unit-interval draw
    /// from `rng`.
    pub fn new<R: UniformSource<V>>(rng: &mut R, i: usize, j: usize) -> (r: Self)
        ensures
            r.neuron_type == spec_neuron_type(i as nat, j as nat),
            spec_signed_weight_ok(r.neuron_type, r.weight),
    {
        let neuron_type = NeuronType::new(i, j);
        let weight = neuron_type.weight(rng);
        Neuron { neuron_type, weight }
    }

    /// The neuron's contribution to a unit's sum: `input * weight`.
    pub fn forward(&self, input: V) -> (r: V)
        ensures
            r == input.spec_times(self.weight),
    {
        input.times(self.weight)
    }

    /// Moves the weight by `delta`, against the neuron's polarity: an
    /// excitatory neuron subtracts it, an inhibitory one adds it. The
    /// polarity itself never changes.
    pub fn append_weight(&mut self, delta: V)
        ensures
            final (self).neuron_type == old(self).neuron_type,
            final (self).weight == old(self).spec_appended(delta),
    {
        match self.neuron_type {
            NeuronType::Excitatory => {
                self.weight = self.weight.minus(delta);
            },
            NeuronType::Inhibitory => {
                self.weight = self.weight.plus(delta);
            },
        }
    }
}

/// The parity gate: when the local delta is negative only even-indexed
/// neurons of a unit update, otherwise only odd-indexed ones.
pub open spec fn gate_selects(delta_is_negative: bool, index: int) -> bool {
    if delta_is_negative {
        index % 2 == 0
    } else {
        index % 2 == 1
    }
}

/// Decides whether the neuron at `index` updates on this example, given the
/// sign of the unit's local delta.
pub fn update_gate(delta_is_negative: bool, index: usize) -> (r: bool)
    ensures
        r == gate_selects(delta_is_negative, index as int),
{
    if delta_is_negative {
        index % 2 == 0
    } else {
        index % 2 == 1
    }
}

/// On any one example exactly one parity class of neurons is eligible: an
/// index is selected under a negative delta if and only if it is not
/// selected under a non-negative one.
pub proof fn lemma_gate_selects_one_parity(index: int)
    requires
        0 <= index,
    ensures
        gate_selects(true, index) <==> !gate_selects(false, index),
{
}

/// Every neuron index not selected under `delta_is_negative` holds the same
/// neuron in `post` as in `pre`.
pub open spec fn untouched_outside_gate<V>(
    delta_is_negative: bool,
    pre: Seq<Neuron<V>>,
    post: Seq<Neuron<V>>,
) -> bool {
    forall|k: int|
        #![trigger gate_selects(delta_is_negative, k)]
        0 <= k < pre.len() && !gate_selects(delta_is_negative, k) ==> post[k] == pre[k]
}

/// The weighted sum a unit computes: `sum_j inputs[j] * neurons[j].weight`,
/// accumulated left to right from zero.
pub open spec fn spec_weighted_sum<V: Scalar>(neurons: Seq<Neuron<V>>, inputs: Seq<V>) -> V
    decreases neurons.len(),
{
    if neurons.len() == 0 {
        V::spec_zero()
    } else {
        spec_weighted_sum(neurons.drop_last(), inputs).spec_plus(
            inputs[neurons.len() - 1].spec_times(neurons.last().weight),
        )
    }
}

/// The local delta a unit derives from an incoming error signal: the
/// activation's derivative at the stored pre-activation sum, times the
/// signal.
pub open spec fn spec_local_delta<V: Scalar, A: DifferentiableFn<V>>(
    u: SingleOutputUnit<V, A>,
    delta: V,
) -> V {
    A::spec_derivative(u.last_preactivation_sum).spec_times(delta)
}

/// What one parity-gated step makes of the neuron at `index`: if the local
/// delta's sign selects the index, the weight moves by the local delta
/// (negated on the non-negative branch) times the neuron's input; otherwise
/// the neuron is untouched.
pub open spec fn spec_gated_neuron<V: Scalar>(
    n: Neuron<V>,
    local: V,
    index: int,
    input: V,
) -> Neuron<V> {
    if gate_selects(local.spec_is_negative(), index) {
        let d = if local.spec_is_negative() {
            local.spec_times(input)
        } else {
            local.spec_neg().spec_times(input)
        };
        Neuron { neuron_type: n.neuron_type, weight: n.spec_appended(d) }
    } else {
        n
    }
}

/// The whole neuron row after one parity-gated step with local delta
/// `local` over the cached `inputs`.
pub open spec fn spec_gated_neurons<V: Scalar>(
    neurons: Seq<Neuron<V>>,
    local: V,
    inputs: Seq<V>,
) -> Seq<Neuron<V>> {
    Seq::new(neurons.len(), |i: int| spec_gated_neuron(neurons[i], local, i, inputs[i]))
}

/// A parity-gated step keeps the neuron count and every polarity, and
/// touches no neuron outside the parity class the local delta's sign
/// selects.
pub proof fn lemma_gated_neurons_frame<V: Scalar>(
    neurons: Seq<Neuron<V>>,
    local: V,
    inputs: Seq<V>,
)
    ensures
        spec_gated_neurons(neurons, local, inputs).len() == neurons.len(),
        forall|i: int|
            0 <= i < neurons.len() ==> (#[trigger] spec_gated_neurons(
                neurons,
                local,
                inputs,
            )[i]).neuron_type == neurons[i].neuron_type,
        untouched_outside_gate(
            local.spec_is_negative(),
            neurons,
            spec_gated_neurons(neurons, local, inputs),
        ),
{
    assert forall|i: int|
        0 <= i < neurons.len() implies (#[trigger] spec_gated_neurons(
        neurons,
        local,
        inputs,
    )[i]).neuron_type == neurons[i].neuron_type by {
        assert(spec_gated_neurons(neurons, local, inputs)[i] == spec_gated_neuron(
            neurons[i],
            local,
            i,
            inputs[i],
        ));
    }
}

/// An ordered sequence of neurons producing one scalar output, together with
/// the pre-activation sum of the most recent forward call.
#[derive(Debug)]
pub struct SingleOutputUnit<V, A> {
    pub neurons: Vec<Neuron<V>>,
    pub last_preactivation_sum: V,
    pub activation: PhantomData<A>,
}

impl<V, A> SingleOutputUnit<V, A> {
    /// The number of neurons, which is the input width the unit accepts.
    pub open spec fn width(&self) -> int {
        self.neurons@.len() as int
    }

    /// The ordered weights of the unit's neurons.
    pub open spec fn weights(&self) -> Seq<V> {
        self.neurons@.map_values(|n: Neuron<V>| n.weight)
    }

    /// Every neuron's polarity follows the parity rule for output index
    /// `out_index` and the neuron's own input index.
    pub open spec fn types_match(&self, out_index: nat) -> bool {
        forall|j: int|
            0 <= j < self.neurons@.len() ==> (#[trigger] self.neurons@[j]).neuron_type
                == spec_neuron_type(out_index, j as nat)
    }
}

impl<V: Scalar, A> SingleOutputUnit<V, A> {
    /// Every neuron's weight obeys the initial-weight rule for its polarity.
    pub open spec fn weights_sign_ok(&self) -> bool {
        forall|j: int|
            0 <= j < self.neurons@.len() ==> spec_signed_weight_ok(
                (#[trigger] self.neurons@[j]).neuron_type,
                self.neurons@[j].weight,
            )
    }
}

impl<V: Scalar, A: DifferentiableFn<V>> SingleOutputUnit<V, A> {
    /// A unit for output index `index` over `input` inputs: one neuron per
    /// input, each with the polarity the parity rule gives it and a
    /// polarity-signed unit-interval weight drawn from `rng`.
    pub fn new<R: UniformSource<V>>(rng: &mut R, index: usize, input: usize) -> (r: Self)
        ensures
            r.width() == input,
            r.types_match(index as nat),
            r.weights_sign_ok(),
    {
        let mut neurons: Vec<Neuron<V>> = Vec::new();
        for j in 0..input
            invariant
                neurons@.len() == j,
                forall|k: int|
                    0 <= k < j ==> (#[trigger] neurons@[k]).neuron_type == spec_neuron_type(
                        index as nat,
                        k as nat,
                    ),
                forall|k: int|
                    0 <= k < j ==> spec_signed_weight_ok(
                        (#[trigger] neurons@[k]).neuron_type,
                        neurons@[k].weight,
                    ),
        {
            neurons.push(Neuron::new(rng, index, j));
        }
        SingleOutputUnit { neurons, last_preactivation_sum: V::zero(), activation: PhantomData }
    }

    /// The plain weighted sum of the inputs, without storing it and without
    /// the activation.
    pub fn forward_without_activation(&self, inputs: &Vec<V>) -> (r: V)
        requires
            self.width() == inputs@.len(),
        ensures
            r == spec_weighted_sum(self.neurons@, inputs@),
    {
        let mut sum = V::zero();
        let n = self.neurons.len();
        for j in 0..n
            invariant
                n == self.neurons@.len(),
                sum == spec_weighted_sum(self.neurons@.take(j as int), inputs@),
        {
            sum = sum.plus(self.neurons[j].forward(inputs[j]));
            proof {
                let taken = self.neurons@.take(j + 1 as int);
                assert(taken.drop_last() =~= self.neurons@.take(j as int));
                assert(taken.last() == self.neurons@[j as int]);
            }
        }
        proof {
            assert(self.neurons@.take(n as int) =~= self.neurons@);
        }
        sum
    }

    /// Computes the weighted sum of the inputs, stores it as the unit's
    /// pre-activation sum, and returns the activated value. The neurons are
    /// untouched.
    pub fn forward(&mut self, inputs: &Vec<V>) -> (r: V)
        requires
            old(self).width() == inputs@.len(),
        ensures
            final (self).neurons == old(self).neurons,
            final (self).last_preactivation_sum == spec_weighted_sum(
                old(self).neurons@,
                inputs@,
            ),
            r == A::spec_eval(spec_weighted_sum(old(self).neurons@, inputs@)),
    {
        self.last_preactivation_sum = self.forward_without_activation(inputs);
        A::eval(self.last_preactivation_sum)
    }

    /// The activated weighted sum, without touching any stored state.
    pub fn forward_without_train(&self, inputs: &Vec<V>) -> (r: V)
        requires
            self.width() == inputs@.len(),
        ensures
            r == A::spec_eval(spec_weighted_sum(self.neurons@, inputs@)),
    {
        A::eval(self.forward_without_activation(inputs))
    }

    /// One parity-gated update step. The local delta is the activation's
    /// derivative at the stored pre-activation sum times `delta`; its sign
    /// picks the parity class that updates, each selected neuron moving by
    /// the local delta (negated on the non-negative branch) times its input.
    /// Returns the local delta.
    pub fn backward(&mut self, delta: V, last_inputs: &Vec<V>) -> (r: V)
        requires
            old(self).width() == last_inputs@.len(),
        ensures
            r == spec_local_delta(*old(self), delta),
            final (self).last_preactivation_sum == old(self).last_preactivation_sum,
            final (self).neurons@ == spec_gated_neurons(old(self).neurons@, r, last_inputs@),
    {
        let local = A::derivative(self.last_preactivation_sum).times(delta);
        let neg = local.is_negative();
        let ghost pre = self.neurons@;
        let ghost pre_sum = self.last_preactivation_sum;
        let n = self.neurons.len();
        for i in 0..n
            invariant
                self.neurons@.len() == pre.len(),
                n == pre.len(),
                last_inputs@.len() == pre.len(),
                self.last_preactivation_sum == pre_sum,
                forall|k: int| i <= k < pre.len() ==> #[trigger] self.neurons@[k] == pre[k],
                forall|k: int|
                    0 <= k < i ==> #[trigger] self.neurons@[k] == spec_gated_neuron(
                        pre[k],
                        local,
                        k,
                        last_inputs@[k],
                    ),
        {
            if update_gate(neg, i) {
                if neg {
                    let d = local.times(last_inputs[i]);
                    self.neurons[i].append_weight(d);
                } else {
                    let d = local.neg().times(last_inputs[i]);
                    self.neurons[i].append_weight(d);
                }
            }
        }
        proof {
            assert(self.neurons@ =~= spec_gated_neurons(pre, local, last_inputs@));
        }
        local
    }
}

/// A forward pass keeps every unit's neurons — count, polarities and
/// weights — exactly as they were.
pub open spec fn layer_weights_preserved<V, A>(pre: Layer<V, A>, post: Layer<V, A>) -> bool {
    &&& post.inner_layers@.len() == pre.inner_layers@.len()
    &&& forall|k: int|
        0 <= k < pre.inner_layers@.len() ==> (#[trigger] post.inner_layers@[k]).neurons
            == pre.inner_layers@[k].neurons
}

/// What one backward pass with error signal `delta` makes of a layer: the
/// unit count and the cached inputs are kept, and every unit keeps its
/// stored sum while its neuron row takes exactly one parity-gated step with
/// the unit's own local delta over the cached inputs.
pub open spec fn layer_backward_values<V: Scalar, A: DifferentiableFn<V>>(
    pre: Layer<V, A>,
    post: Layer<V, A>,
    delta: V,
) -> bool {
    &&& post.inner_layers@.len() == pre.inner_layers@.len()
    &&& post.last_inputs == pre.last_inputs
    &&& forall|k: int|
        0 <= k < pre.inner_layers@.len() ==> {
            &&& (#[trigger] post.inner_layers@[k]).last_preactivation_sum
                == pre.inner_layers@[k].last_preactivation_sum
            &&& post.inner_layers@[k].neurons@ == spec_gated_neurons(
                pre.inner_layers@[k].neurons@,
                spec_local_delta(pre.inner_layers@[k], delta),
                pre.last_inputs@,
            )
        }
}

/// The outputs a layer computes for `inputs`: per unit, the activation of
/// the unit's weighted sum.
pub open spec fn spec_layer_outputs<V: Scalar, A: DifferentiableFn<V>>(
    l: Layer<V, A>,
    inputs: Seq<V>,
) -> Seq<V> {
    Seq::new(
        l.inner_layers@.len(),
        |k: int| A::spec_eval(spec_weighted_sum(l.inner_layers@[k].neurons@, inputs)),
    )
}

/// A layer whose units' neurons are preserved keeps its shape: the unit
/// count and every unit's input width are as before.
pub proof fn lemma_layer_weights_preserved_shape<V, A>(
    pre: Layer<V, A>,
    post: Layer<V, A>,
    w: int,
)
    requires
        layer_weights_preserved(pre, post),
        pre.uniform_width(w),
    ensures
        post.uniform_width(w),
        post.output_width() == pre.output_width(),
{
    assert forall|k: int| 0 <= k < post.inner_layers@.len() implies (
    #[trigger] post.inner_layers@[k]).width() == w by {
        assert(post.inner_layers@[k].neurons == pre.inner_layers@[k].neurons);
        assert(pre.inner_layers@[k].width() == w);
    }
}

/// A backward pass cannot change a layer's shape: the unit count and every
/// unit's input width are as before.
pub proof fn lemma_layer_backward_preserves_shape<V: Scalar, A: DifferentiableFn<V>>(
    pre: Layer<V, A>,
    post: Layer<V, A>,
    delta: V,
    w: int,
)
    requires
        layer_backward_values(pre, post, delta),
        pre.uniform_width(w),
    ensures
        post.uniform_width(w),
        post.output_width() == pre.output_width(),
{
    assert forall|k: int| 0 <= k < post.inner_layers@.len() implies (
    #[trigger] post.inner_layers@[k]).width() == w by {
        lemma_gated_neurons_frame(
            pre.inner_layers@[k].neurons@,
            spec_local_delta(pre.inner_layers@[k], delta),
            pre.last_inputs@,
        );
        assert(pre.inner_layers@[k].width() == w);
    }
}

/// An ordered sequence of units sharing the same input vector, producing a
/// vector output, together with the input vector of the most recent forward
/// call.
#[derive(Debug)]
pub struct Layer<V, A> {
    pub inner_layers: Vec<SingleOutputUnit<V, A>>,
    pub last_inputs: Vec<V>,
}

impl<V, A> Layer<V, A> {
    /// The number of units, which is the width of the layer's output.
    pub open spec fn output_width(&self) -> int {
        self.inner_layers@.len() as int
    }

    /// Every unit accepts exactly `w` inputs.
    pub open spec fn uniform_width(&self, w: int) -> bool {
        forall|k: int|
            0 <= k < self.inner_layers@.len() ==> (#[trigger] self.inner_layers@[k]).width() == w
    }

    /// Every unit's neurons follow the parity rule for the unit's own index.
    pub open spec fn types_match(&self) -> bool {
        forall|k: int|
            0 <= k < self.inner_layers@.len() ==> (#[trigger] self.inner_layers@[k]).types_match(
                k as nat,
            )
    }
}

impl<V: Scalar, A> Layer<V, A> {
    /// Every unit's every weight obeys the initial-weight rule for its
    /// polarity.
    pub open spec fn weights_sign_ok(&self) -> bool {
        forall|k: int|
            0 <= k < self.inner_layers@.len() ==> (
            #[trigger] self.inner_layers@[k]).weights_sign_ok()
    }
}

impl<V: Scalar, A: DifferentiableFn<V>> Layer<V, A> {
    /// A layer of `output` units over `input` inputs; the units' weights are
    /// polarity-signed unit-interval values drawn from `rng` in unit order,
    /// and no input vector is cached yet.
    pub fn new<R: UniformSource<V>>(rng: &mut R, input: usize, output: usize) -> (r: Self)
        ensures
            r.output_width() == output,
            r.uniform_width(input as int),
            r.types_match(),
            r.weights_sign_ok(),
            r.last_inputs@.len() == 0,
    {
        let mut inner_layers: Vec<SingleOutputUnit<V, A>> = Vec::new();
        for i in 0..output
            invariant
                inner_layers@.len() == i,
                forall|k: int|
                    0 <= k < i ==> (#[trigger] inner_layers@[k]).width() == input,
                forall|k: int|
                    0 <= k < i ==> (#[trigger] inner_layers@[k]).types_match(k as nat),
                forall|k: int|
                    0 <= k < i ==> (#[trigger] inner_layers@[k]).weights_sign_ok(),
        {
            inner_layers.push(SingleOutputUnit::new(rng, i, input));
        }
        Layer { inner_layers, last_inputs: Vec::new() }
    }

    /// Runs every unit on `inputs`, stores `inputs` as the layer's cached
    /// input vector and each unit's weighted sum as its pre-activation sum,
    /// and returns the units' activated sums in order. The weights are
    /// untouched.
    pub fn forward(&mut self, inputs: Vec<V>) -> (r: Vec<V>)
        requires
            old(self).uniform_width(inputs@.len() as int),
        ensures
            r@ == spec_layer_outputs(*old(self), inputs@),
            final (self).last_inputs@ == inputs@,
            layer_weights_preserved(*old(self), *final (self)),
            forall|k: int|
                0 <= k < old(self).inner_layers@.len() ==> (#[trigger] final (self).inner_layers@[k]).last_preactivation_sum
                    == spec_weighted_sum(old(self).inner_layers@[k].neurons@, inputs@),
    {
        let ghost pre = self.inner_layers@;
        let mut output: Vec<V> = Vec::new();
        let n = self.inner_layers.len();
        for k in 0..n
            invariant
                n == pre.len(),
                self.inner_layers@.len() == pre.len(),
                output@.len() == k,
                self.last_inputs == old(self).last_inputs,
                forall|m: int| k <= m < pre.len() ==> #[trigger] self.inner_layers@[m] == pre[m],
                forall|m: int|
                    0 <= m < k ==> (#[trigger] self.inner_layers@[m]).neurons == pre[m].neurons,
                forall|m: int|
                    0 <= m < k ==> (#[trigger] self.inner_layers@[m]).last_preactivation_sum
                        == spec_weighted_sum(pre[m].neurons@, inputs@),
                forall|m: int|
                    0 <= m < k ==> output@[m] == A::spec_eval(
                        spec_weighted_sum(pre[m].neurons@, inputs@),
                    ),
        {
            let y = self.inner_layers[k].forward(&inputs);
            output.push(y);
        }
        proof {
            assert(output@ =~= spec_layer_outputs(*old(self), inputs@));
        }
        self.last_inputs = inputs;
        output
    }

    /// The units' activated weighted sums for `inputs`, touching no stored
    /// state.
    pub fn forward_without_train(&self, inputs: Vec<V>) -> (r: Vec<V>)
        requires
            self.uniform_width(inputs@.len() as int),
        ensures
            r@ == spec_layer_outputs(*self, inputs@),
    {
        let mut output: Vec<V> = Vec::new();
        let n = self.inner_layers.len();
        for k in 0..n
            invariant
                output@.len() == k,
                forall|m: int|
                    0 <= m < k ==> output@[m] == A::spec_eval(
                        spec_weighted_sum(self.inner_layers@[m].neurons@, inputs@),
                    ),
        {
            output.push(self.inner_layers[k].forward_without_train(&inputs));
        }
        proof {
            assert(output@ =~= spec_layer_outputs(*self, inputs@));
        }
        output
    }

    /// The layer's weight matrix: one row per unit, one entry per neuron,
    /// in order.
    pub fn weights(&self) -> (r: Vec<Vec<V>>)
        ensures
            r@.len() == self.output_width(),
            forall|k: int|
                0 <= k < self.inner_layers@.len() ==> (#[trigger] r@[k])@
                    == self.inner_layers@[k].weights(),
    {
        let mut r: Vec<Vec<V>> = Vec::new();
        for k in 0..self.inner_layers.len()
            invariant
                r@.len() == k,
                forall|m: int|
                    0 <= m < k ==> (#[trigger] r@[m])@ == self.inner_layers@[m].weights(),
        {
            let unit = &self.inner_layers[k];
            let mut row: Vec<V> = Vec::new();
            for j in 0..unit.neurons.len()
                invariant
                    row@.len() == j,
                    forall|i: int| 0 <= i < j ==> row@[i] == unit.neurons@[i].weight,
            {
                row.push(unit.neurons[j].weight);
            }
            proof {
                assert(row@ =~= self.inner_layers@[k as int].weights());
            }
            r.push(row);
        }
        r
    }

    /// Broadcasts the same error signal to every unit's backward pass, each
    /// reading the layer's cached input vector, and returns the units' local
    /// deltas in order. Each unit's neuron row takes exactly one
    /// parity-gated step.
    pub fn backward(&mut self, delta: V) -> (r: Vec<V>)
        requires
            old(self).uniform_width(old(self).last_inputs@.len() as int),
        ensures
            r@.len() == old(self).output_width(),
            forall|k: int|
                0 <= k < old(self).inner_layers@.len() ==> r@[k] == spec_local_delta(
                    #[trigger] old(self).inner_layers@[k],
                    delta,
                ),
            layer_backward_values(*old(self), *final (self), delta),
    {
        let ghost pre = self.inner_layers@;
        let mut output: Vec<V> = Vec::new();
        let n = self.inner_layers.len();
        for k in 0..n
            invariant
                n == pre.len(),
                self.inner_layers@.len() == pre.len(),
                output@.len() == k,
                self.last_inputs == old(self).last_inputs,
                forall|m: int| k <= m < pre.len() ==> #[trigger] self.inner_layers@[m] == pre[m],
                forall|m: int|
                    0 <= m < k ==> (#[trigger] self.inner_layers@[m]).last_preactivation_sum
                        == pre[m].last_preactivation_sum,
                forall|m: int|
                    0 <= m < k ==> (#[trigger] self.inner_layers@[m]).neurons@
                        == spec_gated_neurons(
                        pre[m].neurons@,
                        spec_local_delta(pre[m], delta),
                        old(self).last_inputs@,
                    ),
                forall|m: int|
                    0 <= m < k ==> output@[m] == spec_local_delta(pre[m], delta),
        {
            let y = self.inner_layers[k].backward(delta, &self.last_inputs);
            output.push(y);
        }
        output
    }
}

/// The outputs one lane of units computes for `inputs`: per unit, the
/// activation of the unit's weighted sum.
pub open spec fn spec_lane_outputs<V: Scalar, A: DifferentiableFn<V>>(
    lane: Seq<SingleOutputUnit<V, A>>,
    inputs: Seq<V>,
) -> Seq<V> {
    Seq::new(lane.len(), |u: int| A::spec_eval(spec_weighted_sum(lane[u].neurons@, inputs)))
}

/// A forward pass keeps every lane's every unit's neurons — count,
/// polarities and weights — exactly as they were.
pub open spec fn multi_weights_preserved<V, A>(
    pre: MultiOutputLayer<V, A>,
    post: MultiOutputLayer<V, A>,
) -> bool {
    &&& post.inner_layers@.len() == pre.inner_layers@.len()
    &&& forall|k: int|
        0 <= k < pre.inner_layers@.len() ==> (#[trigger] post.inner_layers@[k])@.len()
            == pre.inner_layers@[k]@.len()
    &&& forall|k: int, u: int|
        0 <= k < pre.inner_layers@.len() && 0 <= u < pre.inner_layers@[k]@.len() ==> (
        #[trigger] post.inner_layers@[k]@[u]).neurons == pre.inner_layers@[k]@[u].neurons
}

/// A multi-output layer whose units' neurons are preserved keeps its shape:
/// the lane count, every lane's unit count and every unit's input width are
/// as before.
pub proof fn lemma_multi_weights_preserved_shape<V, A>(
    pre: MultiOutputLayer<V, A>,
    post: MultiOutputLayer<V, A>,
    w: int,
)
    requires
        multi_weights_preserved(pre, post),
        forall|k: int| 0 <= k < pre.lanes() ==> pre.lane_uniform_width(k, w),
    ensures
        post.lanes() == pre.lanes(),
        forall|k: int| 0 <= k < post.lanes() ==> post.lane_uniform_width(k, w),
        forall|k: int|
            0 <= k < post.lanes() ==> (#[trigger] post.inner_layers@[k])@.len()
                == pre.inner_layers@[k]@.len(),
{
    assert forall|k: int| 0 <= k < post.lanes() implies post.lane_uniform_width(k, w) by {
        assert forall|u: int|
            0 <= u < post.inner_layers@[k]@.len() implies (
        #[trigger] post.inner_layers@[k]@[u]).width() == w by {
            assert(post.inner_layers@[k]@[u].neurons == pre.inner_layers@[k]@[u].neurons);
            assert(pre.lane_uniform_width(k, w));
            assert(pre.inner_layers@[k]@[u].width() == w);
        }
    }
}

/// What one backward pass with per-lane error signals `deltas` makes of a
/// multi-output layer: the lane count, the lane sizes and the cached inputs
/// are kept, and every unit keeps its stored sum while its neuron row takes
/// exactly one parity-gated step with the unit's own local delta over its
/// lane's cached inputs.
pub open spec fn multi_backward_values<V: Scalar, A: DifferentiableFn<V>>(
    pre: MultiOutputLayer<V, A>,
    post: MultiOutputLayer<V, A>,
    deltas: Seq<V>,
) -> bool {
    &&& post.inner_layers@.len() == pre.inner_layers@.len()
    &&& post.last_inputs == pre.last_inputs
    &&& forall|k: int|
        0 <= k < pre.inner_layers@.len() ==> (#[trigger] post.inner_layers@[k])@.len()
            == pre.inner_layers@[k]@.len()
    &&& forall|k: int, u: int|
        0 <= k < pre.inner_layers@.len() && 0 <= u < pre.inner_layers@[k]@.len() ==> {
            &&& (#[trigger] post.inner_layers@[k]@[u]).last_preactivation_sum
                == pre.inner_layers@[k]@[u].last_preactivation_sum
            &&& post.inner_layers@[k]@[u].neurons@ == spec_gated_neurons(
                pre.inner_layers@[k]@[u].neurons@,
                spec_local_delta(pre.inner_layers@[k]@[u], deltas[k]),
                pre.last_inputs@[k]@,
            )
        }
}

/// A backward pass cannot change a multi-output layer's shape: the lane
/// count, every lane's unit count and every unit's input width are as
/// before.
pub proof fn lemma_multi_backward_preserves_shape<V: Scalar, A: DifferentiableFn<V>>(
    pre: MultiOutputLayer<V, A>,
    post: MultiOutputLayer<V, A>,
    deltas: Seq<V>,
    w: int,
)
    requires
        multi_backward_values(pre, post, deltas),
        forall|k: int| 0 <= k < pre.lanes() ==> pre.lane_uniform_width(k, w),
    ensures
        post.lanes() == pre.lanes(),
        forall|k: int| 0 <= k < post.lanes() ==> post.lane_uniform_width(k, w),
        forall|k: int|
            0 <= k < post.lanes() ==> (#[trigger] post.inner_layers@[k])@.len()
                == pre.inner_layers@[k]@.len(),
{
    assert forall|k: int| 0 <= k < post.lanes() implies post.lane_uniform_width(k, w) by {
        assert forall|u: int|
            0 <= u < post.inner_layers@[k]@.len() implies (
        #[trigger] post.inner_layers@[k]@[u]).width() == w by {
            lemma_gated_neurons_frame(
                pre.inner_layers@[k]@[u].neurons@,
                spec_local_delta(pre.inner_layers@[k]@[u], deltas[k]),
                pre.last_inputs@[k]@,
            );
            assert(pre.lane_uniform_width(k, w));
            assert(pre.inner_layers@[k]@[u].width() == w);
        }
    }
}

/// Independent parallel groups ("lanes") of units: one group and one cached
/// input vector per output head, sharing a construction seed but no
/// transient state.
#[derive(Debug)]
pub struct MultiOutputLayer<V, A> {
    pub inner_layers: Vec<Vec<SingleOutputUnit<V, A>>>,
    pub last_inputs: Vec<Vec<V>>,
}

impl<V, A> MultiOutputLayer<V, A> {
    /// The number of parallel lanes.
    pub open spec fn lanes(&self) -> int {
        self.inner_layers@.len() as int
    }

    /// Every unit of lane `k` accepts exactly `w` inputs.
    pub open spec fn lane_uniform_width(&self, k: int, w: int) -> bool {
        forall|u: int|
            0 <= u < self.inner_layers@[k]@.len() ==> (#[trigger] self.inner_layers@[k]@[u]).width()
                == w
    }

    /// Every lane holds exactly `out` units.
    pub open spec fn uniform_lanes(&self, out: int) -> bool {
        forall|k: int|
            0 <= k < self.inner_layers@.len() ==> (#[trigger] self.inner_layers@[k])@.len() == out
    }

    /// In every lane, every unit's neurons follow the parity rule for the
    /// unit's own index within the lane.
    pub open spec fn types_match(&self) -> bool {
        forall|k: int, u: int|
            0 <= k < self.inner_layers@.len() && 0 <= u < self.inner_layers@[k]@.len() ==> (
            #[trigger] self.inner_layers@[k]@[u]).types_match(u as nat)
    }
}

impl<V: Scalar, A> MultiOutputLayer<V, A> {
    /// In every lane, every unit's every weight obeys the initial-weight
    /// rule for its polarity.
    pub open spec fn weights_sign_ok(&self) -> bool {
        forall|k: int, u: int|
            0 <= k < self.inner_layers@.len() && 0 <= u < self.inner_layers@[k]@.len() ==> (
            #[trigger] self.inner_layers@[k]@[u]).weights_sign_ok()
    }
}

impl<V: Scalar, A: DifferentiableFn<V>> MultiOutputLayer<V, A> {
    /// `last_output` lanes of `output` units each, over `input` inputs per
    /// unit; the polarity-signed unit-interval weights are drawn from `rng`
    /// lane by lane, unit by unit, and no input vectors are cached yet.
    pub fn new<R: UniformSource<V>>(
        rng: &mut R,
        last_output: usize,
        input: usize,
        output: usize,
    ) -> (r: Self)
        ensures
            r.lanes() == last_output,
            r.uniform_lanes(output as int),
            forall|k: int| 0 <= k < last_output ==> r.lane_uniform_width(k, input as int),
            r.types_match(),
            r.weights_sign_ok(),
            r.last_inputs@.len() == 0,
    {
        let mut inner_layers: Vec<Vec<SingleOutputUnit<V, A>>> = Vec::new();
        for k in 0..last_output
            invariant
                inner_layers@.len() == k,
                forall|m: int| 0 <= m < k ==> (#[trigger] inner_layers@[m])@.len() == output,
                forall|m: int, u: int|
                    0 <= m < k && 0 <= u < inner_layers@[m]@.len() ==> (
                    #[trigger] inner_layers@[m]@[u]).width() == input,
                forall|m: int, u: int|
                    0 <= m < k && 0 <= u < inner_layers@[m]@.len() ==> (
                    #[trigger] inner_layers@[m]@[u]).types_match(u as nat),
                forall|m: int, u: int|
                    0 <= m < k && 0 <= u < inner_layers@[m]@.len() ==> (
                    #[trigger] inner_layers@[m]@[u]).weights_sign_ok(),
        {
            let mut lane: Vec<SingleOutputUnit<V, A>> = Vec::new();
            for i in 0..output
                invariant
                    lane@.len() == i,
                    forall|u: int| 0 <= u < i ==> (#[trigger] lane@[u]).width() == input,
                    forall|u: int|
                        0 <= u < i ==> (#[trigger] lane@[u]).types_match(u as nat),
                    forall|u: int|
                        0 <= u < i ==> (#[trigger] lane@[u]).weights_sign_ok(),
            {
                lane.push(SingleOutputUnit::new(rng, i, input));
            }
            inner_layers.push(lane);
        }
        MultiOutputLayer { inner_layers, last_inputs: Vec::new() }
    }

    /// Runs lane `k` on `inputs[k]`, stores the whole input batch as the
    /// cached inputs and each unit's weighted sum as its pre-activation sum,
    /// and returns one output vector per lane. The weights are untouched.
    pub fn forward(&mut self, inputs: Vec<Vec<V>>) -> (r: Vec<Vec<V>>)
        requires
            inputs@.len() == old(self).lanes(),
            forall|k: int|
                0 <= k < old(self).lanes() ==> #[trigger] old(self).lane_uniform_width(
                    k,
                    inputs@[k]@.len() as int,
                ),
        ensures
            r@.len() == old(self).lanes(),
            final (self).last_inputs@ == inputs@,
            multi_weights_preserved(*old(self), *final (self)),
            forall|k: int|
                0 <= k < old(self).lanes() ==> (#[trigger] r@[k])@
                    == spec_lane_outputs(old(self).inner_layers@[k]@, inputs@[k]@),
            forall|k: int, u: int|
                0 <= k < old(self).lanes() && 0 <= u < old(self).inner_layers@[k]@.len() ==> (
                #[trigger] final (self).inner_layers@[k]@[u]).last_preactivation_sum
                    == spec_weighted_sum(old(self).inner_layers@[k]@[u].neurons@, inputs@[k]@),
    {
        let ghost pre = self.inner_layers@;
        let mut output: Vec<Vec<V>> = Vec::new();
        let n = self.inner_layers.len();
        for k in 0..n
            invariant
                n == pre.len(),
                self.inner_layers@.len() == pre.len(),
                output@.len() == k,
                self.last_inputs == old(self).last_inputs,
                forall|m: int| k <= m < pre.len() ==> #[trigger] self.inner_layers@[m] == pre[m],
                forall|m: int|
                    0 <= m < k ==> (#[trigger] self.inner_layers@[m])@.len() == pre[m]@.len(),
                forall|m: int|
                    0 <= m < k ==> (#[trigger] output@[m])@ == spec_lane_outputs(
                        pre[m]@,
                        inputs@[m]@,
                    ),
                forall|m: int, u: int|
                    0 <= m < k && 0 <= u < pre[m]@.len() ==> {
                        &&& (#[trigger] self.inner_layers@[m]@[u]).neurons == pre[m]@[u].neurons
                        &&& self.inner_layers@[m]@[u].last_preactivation_sum == spec_weighted_sum(
                            pre[m]@[u].neurons@,
                            inputs@[m]@,
                        )
                    },
        {
            let ghost mid = self.inner_layers@;
            let lane_len = self.inner_layers[k].len();
            let mut lane_out: Vec<V> = Vec::new();
            for u in 0..lane_len
                invariant
                    lane_len == pre[k as int]@.len(),
                    self.inner_layers@.len() == pre.len(),
                    self.inner_layers@[k as int]@.len() == pre[k as int]@.len(),
                    lane_out@.len() == u,
                    self.last_inputs == old(self).last_inputs,
                    forall|m: int|
                        0 <= m < pre.len() && m != k ==> #[trigger] self.inner_layers@[m]
                            == mid[m],
                    forall|v: int|
                        u <= v < pre[k as int]@.len() ==> #[trigger] self.inner_layers@[
                            k as int
                        ]@[v] == pre[k as int]@[v],
                    forall|v: int|
                        0 <= v < u ==> {
                            &&& (#[trigger] self.inner_layers@[k as int]@[v]).neurons == pre[
                                k as int
                            ]@[v].neurons
                            &&& self.inner_layers@[k as int]@[v].last_preactivation_sum
                                == spec_weighted_sum(
                                pre[k as int]@[v].neurons@,
                                inputs@[k as int]@,
                            )
                        },
                    forall|v: int|
                        0 <= v < u ==> #[trigger] lane_out@[v] == A::spec_eval(
                            spec_weighted_sum(pre[k as int]@[v].neurons@, inputs@[k as int]@),
                        ),
            {
                proof {
                    assert(old(self).lane_uniform_width(k as int, inputs@[k as int]@.len() as int));
                    assert(self.inner_layers@[k as int]@[u as int] == pre[k as int]@[u as int]);
                    assert(old(self).inner_layers@[k as int]@[u as int].width() == inputs@[
                        k as int
                    ]@.len());
                }
                let y = self.inner_layers[k][u].forward(&inputs[k]);
                lane_out.push(y);
            }
            proof {
                assert(lane_out@ =~= spec_lane_outputs(pre[k as int]@, inputs@[k as int]@));
            }
            output.push(lane_out);
        }
        self.last_inputs = inputs;
        output
    }

    /// The lanes' activated outputs for `inputs`, touching no stored state.
    pub fn forward_without_train(&self, inputs: Vec<Vec<V>>) -> (r: Vec<Vec<V>>)
        requires
            inputs@.len() == self.lanes(),
            forall|k: int|
                0 <= k < self.lanes() ==> #[trigger] self.lane_uniform_width(
                    k,
                    inputs@[k]@.len() as int,
                ),
        ensures
            r@.len() == self.lanes(),
            forall|k: int|
                0 <= k < self.lanes() ==> (#[trigger] r@[k])@ == spec_lane_outputs(
                    self.inner_layers@[k]@,
                    inputs@[k]@,
                ),
    {
        let mut output: Vec<Vec<V>> = Vec::new();
        let n = self.inner_layers.len();
        for k in 0..n
            invariant
                output@.len() == k,
                forall|m: int|
                    0 <= m < k ==> (#[trigger] output@[m])@ == spec_lane_outputs(
                        self.inner_layers@[m]@,
                        inputs@[m]@,
                    ),
        {
            let lane_len = self.inner_layers[k].len();
            let mut lane_out: Vec<V> = Vec::new();
            for u in 0..lane_len
                invariant
                    lane_len == self.inner_layers@[k as int]@.len(),
                    lane_out@.len() == u,
                    forall|v: int|
                        0 <= v < u ==> #[trigger] lane_out@[v] == A::spec_eval(
                            spec_weighted_sum(
                                self.inner_layers@[k as int]@[v].neurons@,
                                inputs@[k as int]@,
                            ),
                        ),
            {
                proof {
                    assert(self.lane_uniform_width(k as int, inputs@[k as int]@.len() as int));
                    assert(self.inner_layers@[k as int]@[u as int].width() == inputs@[
                        k as int
                    ]@.len());
                }
                let y = self.inner_layers[k][u].forward_without_train(&inputs[k]);
                lane_out.push(y);
            }
            proof {
                assert(lane_out@ =~= spec_lane_outputs(
                    self.inner_layers@[k as int]@,
                    inputs@[k as int]@,
                ));
            }
            output.push(lane_out);
        }
        output
    }

    /// Hands lane `k` the error signal `deltas[k]`, broadcast to every unit
    /// of the lane, each unit reading the lane's own cached input vector —
    /// so a forward call must have filled the cache. Per unit, the neuron
    /// row takes exactly one parity-gated step with the unit's local delta.
    pub fn backward(&mut self, deltas: &Vec<V>)
        requires
            deltas@.len() == old(self).lanes(),
            old(self).last_inputs@.len() == old(self).lanes(),
            forall|k: int|
                0 <= k < old(self).lanes() ==> #[trigger] old(self).lane_uniform_width(
                    k,
                    old(self).last_inputs@[k]@.len() as int,
                ),
        ensures
            multi_backward_values(*old(self), *final (self), deltas@),
    {
        let ghost pre = self.inner_layers@;
        let n = self.inner_layers.len();
        for k in 0..n
            invariant
                n == pre.len(),
                self.inner_layers@.len() == pre.len(),
                self.last_inputs == old(self).last_inputs,
                forall|m: int| k <= m < pre.len() ==> #[trigger] self.inner_layers@[m] == pre[m],
                forall|m: int|
                    0 <= m < k ==> (#[trigger] self.inner_layers@[m])@.len() == pre[m]@.len(),
                forall|m: int, u: int|
                    0 <= m < k && 0 <= u < pre[m]@.len() ==> {
                        &&& (#[trigger] self.inner_layers@[m]@[u]).last_preactivation_sum
                            == pre[m]@[u].last_preactivation_sum
                        &&& self.inner_layers@[m]@[u].neurons@ == spec_gated_neurons(
                            pre[m]@[u].neurons@,
                            spec_local_delta(pre[m]@[u], deltas@[m]),
                            old(self).last_inputs@[m]@,
                        )
                    },
        {
            let ghost mid = self.inner_layers@;
            let d = deltas[k];
            let lane_len = self.inner_layers[k].len();
            for u in 0..lane_len
                invariant
                    lane_len == pre[k as int]@.len(),
                    self.inner_layers@.len() == pre.len(),
                    self.inner_layers@[k as int]@.len() == pre[k as int]@.len(),
                    self.last_inputs == old(self).last_inputs,
                    forall|m: int|
                        0 <= m < pre.len() && m != k ==> #[trigger] self.inner_layers@[m]
                            == mid[m],
                    forall|v: int|
                        u <= v < pre[k as int]@.len() ==> #[trigger] self.inner_layers@[
                            k as int
                        ]@[v] == pre[k as int]@[v],
                    forall|v: int|
                        0 <= v < u ==> {
                            &&& (#[trigger] self.inner_layers@[k as int]@[v]).last_preactivation_sum
                                == pre[k as int]@[v].last_preactivation_sum
                            &&& self.inner_layers@[k as int]@[v].neurons@ == spec_gated_neurons(
                                pre[k as int]@[v].neurons@,
                                spec_local_delta(pre[k as int]@[v], deltas@[k as int]),
                                old(self).last_inputs@[k as int]@,
                            )
                        },
            {
                proof {
                    assert(old(self).lane_uniform_width(
                        k as int,
                        old(self).last_inputs@[k as int]@.len() as int,
                    ));
                    assert(self.inner_layers@[k as int]@[u as int] == pre[k as int]@[u as int]);
                    assert(old(self).inner_layers@[k as int]@[u as int].width() == old(
                        self,
                    ).last_inputs@[k as int]@.len());
                }
                self.inner_layers[k][u].backward(d, &self.last_inputs[k]);
            }
        }
    }
}

} // verus!
