//! A fixed 4→8→8→1 chain of layers for two-input binary gates, the two raw
//! inputs duplicated into four slots before the first layer.
use vstd::prelude::*;

use crate::differentiable_fn::DifferentiableFn;
use crate::differentiable_fn::Sigmoid;
use crate::layer::layer_backward_values;
use crate::layer::layer_weights_preserved;
use crate::layer::lemma_layer_backward_preserves_shape;
use crate::layer::spec_layer_outputs;
use crate::layer::Layer;
use crate::scalar::Scalar;
use crate::scalar::UniformSource;
use crate::util::spec_duplicate;

verus! {

/// Three chained layers, sigmoid in the two hidden ones and a caller-chosen
/// activation in the terminal one (pass-through when the output should stay
/// a logit).
pub struct Gate<V, LastActivation> {
    pub layer0: Layer<V, Sigmoid>,
    pub layer1: Layer<V, Sigmoid>,
    pub layer2: Layer<V, LastActivation>,
}

impl<V, LastActivation> Gate<V, LastActivation> {
    /// The fixed 4→8→8→1 shape.
    pub open spec fn wf(&self) -> bool {
        &&& self.layer0.output_width() == 8
        &&& self.layer0.uniform_width(4)
        &&& self.layer1.output_width() == 8
        &&& self.layer1.uniform_width(8)
        &&& self.layer2.output_width() == 1
        &&& self.layer2.uniform_width(8)
    }

    /// Well-shaped and with every layer's input cache filled by a forward
    /// call, as a backward pass needs.
    pub open spec fn ready(&self) -> bool {
        &&& self.wf()
        &&& self.layer0.last_inputs@.len() == 4
        &&& self.layer1.last_inputs@.len() == 8
        &&& self.layer2.last_inputs@.len() == 8
    }
}

impl<V: Scalar, LastActivation: DifferentiableFn<V>> Gate<V, LastActivation> {
    /// What the whole pipeline returns for two raw inputs: the terminal
    /// layer's single output after the duplicated inputs have run through
    /// the three layers in order.
    pub open spec fn spec_forward(&self, inputs: Seq<V>) -> V {
        spec_layer_outputs(
            self.layer2,
            spec_layer_outputs(
                self.layer1,
                spec_layer_outputs(self.layer0, spec_duplicate(inputs)),
            ),
        )[0]
    }

    /// The fixed pipeline, its polarity-signed unit-interval weights drawn
    /// from `rng` layer by layer.
    pub fn new<R: UniformSource<V>>(rng: &mut R) -> (r: Self)
        ensures
            r.wf(),
            r.layer0.types_match(),
            r.layer1.types_match(),
            r.layer2.types_match(),
            r.layer0.weights_sign_ok(),
            r.layer1.weights_sign_ok(),
            r.layer2.weights_sign_ok(),
    {
        Gate {
            layer0: Layer::new(rng, 4, 8),
            layer1: Layer::new(rng, 8, 8),
            layer2: Layer::new(rng, 8, 1),
        }
    }

    /// Duplicates the two raw inputs into four adjacent slots, runs the
    /// three layers in order, and returns the single terminal output. The
    /// weights are untouched, and each layer caches the inputs it saw.
    pub fn forward(&mut self, inputs: &Vec<V>) -> (r: V)
        requires
            old(self).wf(),
            inputs@.len() == 2,
        ensures
            final (self).ready(),
            layer_weights_preserved(old(self).layer0, final (self).layer0),
            layer_weights_preserved(old(self).layer1, final (self).layer1),
            layer_weights_preserved(old(self).layer2, final (self).layer2),
            final (self).layer0.last_inputs@ == spec_duplicate(inputs@),
            final (self).layer1.last_inputs@ == spec_layer_outputs(
                old(self).layer0,
                spec_duplicate(inputs@),
            ),
            final (self).layer2.last_inputs@ == spec_layer_outputs(
                old(self).layer1,
                spec_layer_outputs(old(self).layer0, spec_duplicate(inputs@)),
            ),
            r == old(self).spec_forward(inputs@),
    {
        let mut x: Vec<V> = Vec::new();
        x.push(inputs[0]);
        x.push(inputs[0]);
        x.push(inputs[1]);
        x.push(inputs[1]);
        proof {
            assert(x@ =~= spec_duplicate(inputs@));
        }
        let x = self.layer0.forward(x);
        let x = self.layer1.forward(x);
        let out = self.layer2.forward(x);
        out[0]
    }

    /// Propagates one scalar delta to every layer's backward pass in order:
    /// each layer's units take one parity-gated step over that layer's own
    /// cached inputs.
    pub fn backward(&mut self, delta: V)
        requires
            old(self).ready(),
        ensures
            final (self).ready(),
            layer_backward_values(old(self).layer0, final (self).layer0, delta),
            layer_backward_values(old(self).layer1, final (self).layer1, delta),
            layer_backward_values(old(self).layer2, final (self).layer2, delta),
    {
        let ghost pre = *self;
        self.layer0.backward(delta);
        self.layer1.backward(delta);
        self.layer2.backward(delta);
        proof {
            lemma_layer_backward_preserves_shape(pre.layer0, self.layer0, delta, 4);
            lemma_layer_backward_preserves_shape(pre.layer1, self.layer1, delta, 8);
            lemma_layer_backward_preserves_shape(pre.layer2, self.layer2, delta, 8);
        }
    }
}

} // verus!
