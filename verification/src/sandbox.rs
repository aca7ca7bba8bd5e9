//! A two-head one-hot gate: two parallel lanes, each running the duplicated
//! raw inputs through a sixteen-unit sigmoid group and a single-logit
//! pass-through group, so that softmax cross-entropy can be taken over the
//! two lane logits.
use vstd::prelude::*;

use crate::differentiable_fn::PassThrough;
use crate::differentiable_fn::Sigmoid;
use crate::layer::multi_backward_values;
use crate::layer::multi_weights_preserved;
use crate::layer::lemma_multi_backward_preserves_shape;
use crate::layer::lemma_multi_weights_preserved_shape;
use crate::layer::spec_lane_outputs;
use crate::layer::MultiOutputLayer;
use crate::scalar::Scalar;
use crate::scalar::UniformSource;
use crate::util::duplicate_elements;
use crate::util::spec_duplicate;

verus! {

/// Two multi-output layers chained lane by lane: a sigmoid hidden group and
/// a pass-through terminal group per lane.
pub struct Gate<V> {
    pub layer0: MultiOutputLayer<V, Sigmoid>,
    pub last_layer: MultiOutputLayer<V, PassThrough>,
}

impl<V> Gate<V> {
    /// The fixed two-lane 4→16→1 shape.
    pub open spec fn wf(&self) -> bool {
        &&& self.layer0.lanes() == 2
        &&& self.layer0.uniform_lanes(16)
        &&& forall|k: int| 0 <= k < 2 ==> #[trigger] self.layer0.lane_uniform_width(k, 4)
        &&& self.last_layer.lanes() == 2
        &&& self.last_layer.uniform_lanes(1)
        &&& forall|k: int| 0 <= k < 2 ==> #[trigger] self.last_layer.lane_uniform_width(k, 16)
    }

    /// Well-shaped and with every lane's input cache filled by a forward
    /// call, as a backward pass needs.
    pub open spec fn ready(&self) -> bool {
        &&& self.wf()
        &&& self.layer0.last_inputs@.len() == 2
        &&& forall|k: int|
            0 <= k < 2 ==> (#[trigger] self.layer0.last_inputs@[k])@.len() == 4
        &&& self.last_layer.last_inputs@.len() == 2
        &&& forall|k: int|
            0 <= k < 2 ==> (#[trigger] self.last_layer.last_inputs@[k])@.len() == 16
    }
}

impl<V: Scalar> Gate<V> {
    /// What the model returns for two raw inputs: per lane, the terminal
    /// group's single logit after the duplicated inputs have run through
    /// that lane's hidden group.
    pub open spec fn spec_forward(&self, inputs: Seq<V>) -> Seq<V> {
        Seq::new(
            self.last_layer.inner_layers@.len(),
            |k: int|
                spec_lane_outputs(
                    self.last_layer.inner_layers@[k]@,
                    spec_lane_outputs(self.layer0.inner_layers@[k]@, spec_duplicate(inputs)),
                )[0],
        )
    }

    /// The fixed two-lane model, its polarity-signed unit-interval weights
    /// drawn from `rng` layer by layer.
    pub fn new<R: UniformSource<V>>(rng: &mut R) -> (r: Self)
        ensures
            r.wf(),
            r.layer0.types_match(),
            r.last_layer.types_match(),
            r.layer0.weights_sign_ok(),
            r.last_layer.weights_sign_ok(),
    {
        Gate {
            layer0: MultiOutputLayer::new(rng, 2, 4, 16),
            last_layer: MultiOutputLayer::new(rng, 2, 16, 1),
        }
    }

    /// Duplicates the two raw inputs into four adjacent slots, hands the
    /// same duplicated vector to both lanes, runs the two groups in order,
    /// and returns one logit per lane. The weights are untouched.
    pub fn forward(&mut self, inputs: &Vec<V>) -> (r: Vec<V>)
        requires
            old(self).wf(),
            inputs@.len() == 2,
        ensures
            final (self).ready(),
            multi_weights_preserved(old(self).layer0, final (self).layer0),
            multi_weights_preserved(old(self).last_layer, final (self).last_layer),
            r@ == old(self).spec_forward(inputs@),
    {
        let x_a = duplicate_elements(inputs);
        let x_b = duplicate_elements(inputs);
        let mut batch: Vec<Vec<V>> = Vec::new();
        batch.push(x_a);
        batch.push(x_b);
        let ghost batch_view = batch@;
        let y0 = self.layer0.forward(batch);
        let ghost y0_view = y0@;
        let ghost pre_last = self.last_layer;
        proof {
            assert forall|k: int|
                0 <= k < 2 implies #[trigger] pre_last.lane_uniform_width(
                k,
                y0_view[k]@.len() as int,
            ) by {
                assert(y0_view[k]@ == spec_lane_outputs(
                    old(self).layer0.inner_layers@[k]@,
                    batch_view[k]@,
                ));
                assert(y0_view[k]@.len() == 16);
            }
        }
        let y1 = self.last_layer.forward(y0);
        let mut out: Vec<V> = Vec::new();
        let n = y1.len();
        proof {
            assert forall|m: int| 0 <= m < n implies (#[trigger] y1@[m])@.len() == 1 by {
                assert(y1@[m]@ == spec_lane_outputs(pre_last.inner_layers@[m]@, y0_view[m]@));
            }
        }
        for k in 0..n
            invariant
                n == y1@.len(),
                out@.len() == k,
                forall|m: int| 0 <= m < n ==> (#[trigger] y1@[m])@.len() == 1,
                forall|m: int| 0 <= m < k ==> #[trigger] out@[m] == y1@[m]@[0],
        {
            let v = y1[k][0];
            out.push(v);
        }
        proof {
            lemma_multi_weights_preserved_shape(old(self).layer0, self.layer0, 4);
            lemma_multi_weights_preserved_shape(pre_last, self.last_layer, 16);
            assert forall|k: int|
                0 <= k < 2 implies #[trigger] out@[k] == old(self).spec_forward(inputs@)[k] by {
                assert(y1@[k]@ == spec_lane_outputs(pre_last.inner_layers@[k]@, y0_view[k]@));
                assert(y0_view[k]@ == spec_lane_outputs(
                    old(self).layer0.inner_layers@[k]@,
                    batch_view[k]@,
                ));
                assert(batch_view[k]@ == spec_duplicate(inputs@));
            }
            assert(out@ =~= old(self).spec_forward(inputs@));
        }
        out
    }

    /// The two lane logits for `inputs`, touching no stored state.
    pub fn forward_without_train(&self, inputs: &Vec<V>) -> (r: Vec<V>)
        requires
            self.wf(),
            inputs@.len() == 2,
        ensures
            r@ == self.spec_forward(inputs@),
    {
        let x_a = duplicate_elements(inputs);
        let x_b = duplicate_elements(inputs);
        let mut batch: Vec<Vec<V>> = Vec::new();
        batch.push(x_a);
        batch.push(x_b);
        let ghost batch_view = batch@;
        let y0 = self.layer0.forward_without_train(batch);
        let ghost y0_view = y0@;
        proof {
            assert forall|k: int|
                0 <= k < 2 implies #[trigger] self.last_layer.lane_uniform_width(
                k,
                y0_view[k]@.len() as int,
            ) by {
                assert(y0_view[k]@ == spec_lane_outputs(
                    self.layer0.inner_layers@[k]@,
                    batch_view[k]@,
                ));
                assert(y0_view[k]@.len() == 16);
            }
        }
        let y1 = self.last_layer.forward_without_train(y0);
        let mut out: Vec<V> = Vec::new();
        let n = y1.len();
        proof {
            assert forall|m: int| 0 <= m < n implies (#[trigger] y1@[m])@.len() == 1 by {
                assert(y1@[m]@ == spec_lane_outputs(
                    self.last_layer.inner_layers@[m]@,
                    y0_view[m]@,
                ));
            }
        }
        for k in 0..n
            invariant
                n == y1@.len(),
                out@.len() == k,
                forall|m: int| 0 <= m < n ==> (#[trigger] y1@[m])@.len() == 1,
                forall|m: int| 0 <= m < k ==> #[trigger] out@[m] == y1@[m]@[0],
        {
            let v = y1[k][0];
            out.push(v);
        }
        proof {
            assert forall|k: int|
                0 <= k < 2 implies #[trigger] out@[k] == self.spec_forward(inputs@)[k] by {
                assert(y1@[k]@ == spec_lane_outputs(
                    self.last_layer.inner_layers@[k]@,
                    y0_view[k]@,
                ));
                assert(y0_view[k]@ == spec_lane_outputs(
                    self.layer0.inner_layers@[k]@,
                    batch_view[k]@,
                ));
                assert(batch_view[k]@ == spec_duplicate(inputs@));
            }
            assert(out@ =~= self.spec_forward(inputs@));
        }
        out
    }

    /// Hands each lane its own error signal, in both groups: per unit, one
    /// parity-gated step with the unit's local delta over its lane's cached
    /// inputs.
    pub fn backward(&mut self, deltas: Vec<V>)
        requires
            old(self).ready(),
            deltas@.len() == 2,
        ensures
            final (self).ready(),
            multi_backward_values(old(self).layer0, final (self).layer0, deltas@),
            multi_backward_values(old(self).last_layer, final (self).last_layer, deltas@),
    {
        let ghost pre = *self;
        self.layer0.backward(&deltas);
        self.last_layer.backward(&deltas);
        proof {
            lemma_multi_backward_preserves_shape(pre.layer0, self.layer0, deltas@, 4);
            lemma_multi_backward_preserves_shape(pre.last_layer, self.last_layer, deltas@, 16);
        }
    }
}

} // verus!
