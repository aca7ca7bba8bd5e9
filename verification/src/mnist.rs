//! The image-classification pipeline: a 1568-input first layer, a chain of
//! equal-width sigmoid hidden layers, and a single-output pass-through
//! terminal layer producing a logit.
use vstd::prelude::*;

use crate::differentiable_fn::PassThrough;
use crate::differentiable_fn::Sigmoid;
use crate::layer::layer_backward_values;
use crate::layer::layer_weights_preserved;
use crate::layer::lemma_layer_backward_preserves_shape;
use crate::layer::lemma_layer_weights_preserved_shape;
use crate::layer::spec_layer_outputs;
use crate::layer::Layer;
use crate::scalar::Scalar;
use crate::scalar::UniformSource;
use crate::util::duplicate_elements;
use crate::util::spec_duplicate;

verus! {

/// The vector that comes out of running `inputs` through every layer of
/// `layers` in order.
pub open spec fn spec_chain_outputs<V: Scalar>(
    layers: Seq<Layer<V, Sigmoid>>,
    inputs: Seq<V>,
) -> Seq<V>
    decreases layers.len(),
{
    if layers.len() == 0 {
        inputs
    } else {
        spec_chain_outputs(
            layers.subrange(1, layers.len() as int),
            spec_layer_outputs(layers[0], inputs),
        )
    }
}

/// The pipeline: every raw 784-pixel input is duplicated into 1568 slots
/// before the first layer; the hidden chain keeps one fixed width; the
/// terminal layer emits one logit.
#[derive(Debug)]
pub struct Mnist<V> {
    pub first_layer: Layer<V, Sigmoid>,
    pub layers: Vec<Layer<V, Sigmoid>>,
    pub last_layer: Layer<V, PassThrough>,
}

impl<V> Mnist<V> {
    /// The shared width of the hidden layers, read off the first layer.
    pub open spec fn hidden_width(&self) -> int {
        self.first_layer.output_width()
    }

    /// The pipeline's shape: 1568 inputs into the first layer, every hidden
    /// layer mapping the shared width to itself, and one terminal output.
    pub open spec fn wf(&self) -> bool {
        &&& self.first_layer.uniform_width(1568)
        &&& forall|k: int|
            0 <= k < self.layers@.len() ==> (#[trigger] self.layers@[k]).output_width()
                == self.hidden_width() && self.layers@[k].uniform_width(self.hidden_width())
        &&& self.last_layer.output_width() == 1
        &&& self.last_layer.uniform_width(self.hidden_width())
    }

    /// Well-shaped and with every layer's input cache filled by a forward
    /// call, as a backward pass needs.
    pub open spec fn ready(&self) -> bool {
        &&& self.wf()
        &&& self.first_layer.last_inputs@.len() == 1568
        &&& forall|k: int|
            0 <= k < self.layers@.len() ==> (#[trigger] self.layers@[k]).last_inputs@.len()
                == self.hidden_width()
        &&& self.last_layer.last_inputs@.len() == self.hidden_width()
    }
}

impl<V: Scalar> Mnist<V> {
    /// What the whole pipeline returns for a 784-pixel input: the terminal
    /// layer's single logit after the duplicated pixels have run through the
    /// first layer and the hidden chain.
    pub open spec fn spec_forward(&self, inputs: Seq<V>) -> V {
        spec_layer_outputs(
            self.last_layer,
            spec_chain_outputs(
                self.layers@,
                spec_layer_outputs(self.first_layer, spec_duplicate(inputs)),
            ),
        )[0]
    }

    /// A pipeline of `layer_num` hidden layers of width `neural_num`, its
    /// polarity-signed unit-interval weights drawn from `rng` layer by
    /// layer.
    pub fn new<R: UniformSource<V>>(rng: &mut R, layer_num: usize, neural_num: usize) -> (r: Self)
        ensures
            r.wf(),
            r.layers@.len() == layer_num,
            r.hidden_width() == neural_num,
            r.first_layer.weights_sign_ok(),
            forall|k: int|
                0 <= k < layer_num ==> (#[trigger] r.layers@[k]).weights_sign_ok(),
            r.last_layer.weights_sign_ok(),
    {
        let first_layer: Layer<V, Sigmoid> = Layer::new(rng, 784 * 2, neural_num);
        let mut layers: Vec<Layer<V, Sigmoid>> = Vec::new();
        for k in 0..layer_num
            invariant
                layers@.len() == k,
                forall|m: int|
                    0 <= m < k ==> (#[trigger] layers@[m]).output_width() == neural_num
                        && layers@[m].uniform_width(neural_num as int),
                forall|m: int| 0 <= m < k ==> (#[trigger] layers@[m]).weights_sign_ok(),
        {
            layers.push(Layer::new(rng, neural_num, neural_num));
        }
        let last_layer: Layer<V, PassThrough> = Layer::new(rng, neural_num, 1);
        Mnist { first_layer, layers, last_layer }
    }

    /// Duplicates the 784 raw inputs into 1568 slots, runs the whole chain,
    /// and returns the single terminal logit. The weights are untouched.
    pub fn forward(&mut self, inputs: &Vec<V>) -> (r: V)
        requires
            old(self).wf(),
            inputs@.len() == 784,
        ensures
            final (self).ready(),
            final (self).layers@.len() == old(self).layers@.len(),
            layer_weights_preserved(old(self).first_layer, final (self).first_layer),
            forall|k: int|
                0 <= k < old(self).layers@.len() ==> layer_weights_preserved(
                    #[trigger] old(self).layers@[k],
                    final (self).layers@[k],
                ),
            layer_weights_preserved(old(self).last_layer, final (self).last_layer),
            r == old(self).spec_forward(inputs@),
    {
        let x = duplicate_elements(inputs);
        let ghost x0 = spec_layer_outputs(old(self).first_layer, spec_duplicate(inputs@));
        let mut x = self.first_layer.forward(x);
        let n = self.layers.len();
        proof {
            assert(old(self).layers@.subrange(0, n as int) =~= old(self).layers@);
        }
        for k in 0..n
            invariant
                n == old(self).layers@.len(),
                self.layers@.len() == n,
                x@.len() == old(self).hidden_width(),
                self.first_layer.last_inputs@.len() == 1568,
                layer_weights_preserved(old(self).first_layer, self.first_layer),
                self.last_layer == old(self).last_layer,
                spec_chain_outputs(old(self).layers@.subrange(k as int, n as int), x@)
                    == spec_chain_outputs(old(self).layers@, x0),
                forall|m: int| k <= m < n ==> #[trigger] self.layers@[m] == old(self).layers@[m],
                forall|m: int|
                    0 <= m < k ==> layer_weights_preserved(
                        #[trigger] old(self).layers@[m],
                        self.layers@[m],
                    ),
                forall|m: int|
                    0 <= m < k ==> (#[trigger] self.layers@[m]).last_inputs@.len() == old(
                        self,
                    ).hidden_width(),
        {
            proof {
                let rest = old(self).layers@.subrange(k as int, n as int);
                assert(rest[0] == old(self).layers@[k as int]);
                assert(rest.subrange(1, rest.len() as int) =~= old(self).layers@.subrange(
                    k + 1 as int,
                    n as int,
                ));
            }
            x = self.layers[k].forward(x);
        }
        proof {
            assert(old(self).layers@.subrange(n as int, n as int) =~= Seq::<
                Layer<V, Sigmoid>,
            >::empty());
            assert(x@ == spec_chain_outputs(old(self).layers@, x0));
        }
        let ghost pre_last = self.last_layer;
        let out = self.last_layer.forward(x);
        proof {
            lemma_layer_weights_preserved_shape(
                old(self).first_layer,
                self.first_layer,
                1568,
            );
            lemma_layer_weights_preserved_shape(
                pre_last,
                self.last_layer,
                old(self).hidden_width(),
            );
            assert forall|m: int| 0 <= m < old(self).layers@.len() implies (
            #[trigger] self.layers@[m]).output_width() == self.hidden_width()
                && self.layers@[m].uniform_width(self.hidden_width()) by {
                lemma_layer_weights_preserved_shape(
                    old(self).layers@[m],
                    self.layers@[m],
                    old(self).hidden_width(),
                );
            }
        }
        out[0]
    }

    /// The chain's terminal logit for `inputs`, touching no stored state.
    pub fn forward_without_train(&self, inputs: &Vec<V>) -> (r: V)
        requires
            self.wf(),
            inputs@.len() == 784,
        ensures
            r == self.spec_forward(inputs@),
    {
        let x = duplicate_elements(inputs);
        let ghost x0 = spec_layer_outputs(self.first_layer, spec_duplicate(inputs@));
        let mut x = self.first_layer.forward_without_train(x);
        let n = self.layers.len();
        proof {
            assert(self.layers@.subrange(0, n as int) =~= self.layers@);
        }
        for k in 0..n
            invariant
                n == self.layers@.len(),
                x@.len() == self.hidden_width(),
                spec_chain_outputs(self.layers@.subrange(k as int, n as int), x@)
                    == spec_chain_outputs(self.layers@, x0),
        {
            proof {
                let rest = self.layers@.subrange(k as int, n as int);
                assert(rest[0] == self.layers@[k as int]);
                assert(rest.subrange(1, rest.len() as int) =~= self.layers@.subrange(
                    k + 1 as int,
                    n as int,
                ));
            }
            x = self.layers[k].forward_without_train(x);
        }
        proof {
            assert(self.layers@.subrange(n as int, n as int) =~= Seq::<
                Layer<V, Sigmoid>,
            >::empty());
            assert(x@ == spec_chain_outputs(self.layers@, x0));
        }
        let out = self.last_layer.forward_without_train(x);
        out[0]
    }

    /// Propagates one scalar delta to every layer's backward pass in order:
    /// each layer's units take one parity-gated step over that layer's own
    /// cached inputs.
    pub fn backward(&mut self, delta: V)
        requires
            old(self).ready(),
        ensures
            final (self).ready(),
            final (self).layers@.len() == old(self).layers@.len(),
            layer_backward_values(old(self).first_layer, final (self).first_layer, delta),
            forall|k: int|
                0 <= k < old(self).layers@.len() ==> layer_backward_values(
                    #[trigger] old(self).layers@[k],
                    final (self).layers@[k],
                    delta,
                ),
            layer_backward_values(old(self).last_layer, final (self).last_layer, delta),
    {
        self.first_layer.backward(delta);
        proof {
            lemma_layer_backward_preserves_shape(
                old(self).first_layer,
                self.first_layer,
                delta,
                1568,
            );
        }
        let n = self.layers.len();
        for k in 0..n
            invariant
                n == old(self).layers@.len(),
                self.layers@.len() == n,
                layer_backward_values(old(self).first_layer, self.first_layer, delta),
                self.first_layer.uniform_width(1568),
                self.first_layer.output_width() == old(self).hidden_width(),
                self.first_layer.last_inputs@.len() == 1568,
                self.last_layer == old(self).last_layer,
                forall|m: int| k <= m < n ==> #[trigger] self.layers@[m] == old(self).layers@[m],
                forall|m: int|
                    0 <= m < k ==> layer_backward_values(
                        #[trigger] old(self).layers@[m],
                        self.layers@[m],
                        delta,
                    ),
                forall|m: int|
                    0 <= m < k ==> (#[trigger] self.layers@[m]).output_width() == old(
                        self,
                    ).hidden_width() && self.layers@[m].uniform_width(old(self).hidden_width())
                        && self.layers@[m].last_inputs@.len() == old(self).hidden_width(),
        {
            let ghost pre_k = self.layers@[k as int];
            self.layers[k].backward(delta);
            proof {
                lemma_layer_backward_preserves_shape(
                    pre_k,
                    self.layers@[k as int],
                    delta,
                    old(self).hidden_width(),
                );
            }
        }
        let ghost pre_last = self.last_layer;
        self.last_layer.backward(delta);
        proof {
            lemma_layer_backward_preserves_shape(
                pre_last,
                self.last_layer,
                delta,
                old(self).hidden_width(),
            );
        }
    }
}

} // verus!
