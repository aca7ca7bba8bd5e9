//! The layer engine and the composed pipelines instantiated with IEEE-754
//! doubles and a seeded pseudo-random source.
use ed::duplicate_elements;
use ed::layer::update_gate;
use ed::sandbox;
use ed::unduplicate_elements;
use ed::BCELoss;
use ed::BCEWithLogitsLoss;
use ed::CrossEntropyLoss;
use ed::DifferentiableFn;
use ed::Gate;
use ed::Layer;
use ed::MSELoss;
use ed::Mnist;
use ed::MultiOutputLayer;
use ed::NeuronType;
use ed::PassThrough;
use ed::Scalar;
use ed::Sigmoid;
use ed::UniformSource;

use rand::rngs::StdRng;
use rand::Rng;
use rand::SeedableRng;

/// An IEEE-754 double as the network scalar.
#[derive(Clone, Copy, Debug, PartialEq)]
struct F(f64);

impl Scalar for F {

    // The verifier's spec items survive erasure as plain trait items; they
    // model the operations and are never called at run time.
    fn spec_zero() -> F {
        unreachable!()
    }
    fn spec_one() -> F {
        unreachable!()
    }
    fn spec_from_u64(_n: u64) -> F {
        unreachable!()
    }
    fn spec_plus(self, _other: F) -> F {
        unreachable!()
    }
    fn spec_minus(self, _other: F) -> F {
        unreachable!()
    }
    fn spec_times(self, _other: F) -> F {
        unreachable!()
    }
    fn spec_div_by(self, _other: F) -> F {
        unreachable!()
    }
    fn spec_neg(self) -> F {
        unreachable!()
    }
    fn spec_exp(self) -> F {
        unreachable!()
    }
    fn spec_ln(self) -> F {
        unreachable!()
    }
    fn spec_max_with(self, _other: F) -> F {
        unreachable!()
    }
    fn spec_min_with(self, _other: F) -> F {
        unreachable!()
    }
    fn spec_is_negative(self) -> bool {
        unreachable!()
    }

    fn zero() -> F {
        F(0.0)
    }
    fn one() -> F {
        F(1.0)
    }
    fn from_u64(n: u64) -> F {
        F(n as f64)
    }
    fn plus(self, other: F) -> F {
        F(self.0 + other.0)
    }
    fn minus(self, other: F) -> F {
        F(self.0 - other.0)
    }
    fn times(self, other: F) -> F {
        F(self.0 * other.0)
    }
    fn div_by(self, other: F) -> F {
        F(self.0 / other.0)
    }
    fn neg(self) -> F {
        F(-self.0)
    }
    fn exp(self) -> F {
        F(self.0.exp())
    }
    fn ln(self) -> F {
        F(self.0.ln())
    }
    fn max_with(self, other: F) -> F {
        F(self.0.max(other.0))
    }
    fn min_with(self, other: F) -> F {
        F(self.0.min(other.0))
    }
    fn is_negative(self) -> bool {
        self.0 < 0.0
    }
}

/// A deterministically seeded uniform source over the standard generator.
struct SeededUniform(StdRng);

impl SeededUniform {
    fn seeded(seed: u64) -> SeededUniform {
        SeededUniform(StdRng::seed_from_u64(seed))
    }
}

impl UniformSource<F> for SeededUniform {
    fn draw(&mut self) -> F {
        F(self.0.gen())
    }
}

fn fv(values: &[f64]) -> Vec<F> {
    values.iter().map(|&x| F(x)).collect()
}

#[test]
fn test_bce_loss() {
    let inputs = [[0., 0.], [0., 1.], [1., 0.], [1., 1.]];
    let targets = [0., 1., 1., 0.];

    let mut rng = SeededUniform::seeded(42);
    let mut xor: Gate<F, Sigmoid> = Gate::new(&mut rng);

    for _ in 0..200 {
        let mut loss = 0.;

        for (inputs, &target) in inputs.iter().zip(targets.iter()) {
            let output = xor.forward(&fv(inputs));
            let delta = BCELoss::derivative(output, F(target));
            xor.backward(delta.times(F(0.5)));

            loss += BCELoss::eval(output, F(target)).0;
        }

        println!("loss: {:.8}", loss / 4.);
    }

    for (inputs, &target) in inputs.iter().zip(targets.iter()) {
        let output = xor.forward(&fv(inputs));
        println!(
            "{}, {} -> {:.8}, {:.0}",
            inputs[0], inputs[1], output.0, target
        );
    }
}

#[test]
fn test_mse_loss() {
    let inputs = [[0., 0.], [0., 1.], [1., 0.], [1., 1.]];
    let targets = [0., 1., 1., 0.];

    let mut rng = SeededUniform::seeded(42);
    let mut xor: Gate<F, Sigmoid> = Gate::new(&mut rng);

    for _ in 0..200 {
        let mut loss = 0.;

        for (inputs, &target) in inputs.iter().zip(targets.iter()) {
            let output = xor.forward(&fv(inputs));
            let delta = MSELoss::derivative(output, F(target));
            xor.backward(delta.times(F(0.5)));

            loss += MSELoss::eval(output, F(target)).0;
        }

        println!("loss: {:.8}", loss / 4.);
    }

    for (inputs, &target) in inputs.iter().zip(targets.iter()) {
        let output = xor.forward(&fv(inputs));
        println!(
            "{}, {} -> {:.8}, {:.0}",
            inputs[0], inputs[1], output.0, target
        );
    }
}

#[test]
fn test_bce_with_logits_loss() {
    let inputs = [[0., 0.], [0., 1.], [1., 0.], [1., 1.]];
    let targets = [0., 1., 1., 0.];

    let mut rng = SeededUniform::seeded(42);
    let mut xor: Gate<F, PassThrough> = Gate::new(&mut rng);

    for _ in 0..200 {
        let mut loss = 0.;

        for (inputs, &target) in inputs.iter().zip(targets.iter()) {
            let output = xor.forward(&fv(inputs));
            let delta = BCEWithLogitsLoss::derivative(output, F(target));
            xor.backward(delta.times(F(0.5)));

            loss += BCEWithLogitsLoss::eval(output, F(target)).0;
        }

        println!("loss: {:.8}", loss / 4.);
    }

    for (inputs, &target) in inputs.iter().zip(targets.iter()) {
        let output = xor.forward(&fv(inputs));
        println!(
            "{}, {} -> {:.8}, {:.0}",
            inputs[0],
            inputs[1],
            <Sigmoid as DifferentiableFn<F>>::eval(output).0,
            target
        );
    }
}

#[test]
fn neuron_type_parity_grid() {
    for i in 0..16usize {
        for j in 0..16usize {
            let t = NeuronType::new(i, j);
            if i % 2 == j % 2 {
                assert_eq!(t, NeuronType::Excitatory);
            } else {
                assert_eq!(t, NeuronType::Inhibitory);
            }
        }
    }
}

#[test]
fn layer_seeded_weights_bit_identical() {
    let mut rng_a = SeededUniform::seeded(7);
    let mut rng_b = SeededUniform::seeded(7);
    let layer_a: Layer<F, Sigmoid> = Layer::new(&mut rng_a, 4, 8);
    let layer_b: Layer<F, Sigmoid> = Layer::new(&mut rng_b, 4, 8);
    let wa = layer_a.weights();
    let wb = layer_b.weights();
    assert_eq!(wa.len(), 8);
    assert!(wa.iter().all(|row| row.len() == 4));
    assert_eq!(wa, wb);
}

#[test]
fn initial_weight_sign_follows_polarity() {
    let mut rng = SeededUniform::seeded(11);
    let layer: Layer<F, Sigmoid> = Layer::new(&mut rng, 6, 6);
    let weights = layer.weights();
    for (i, row) in weights.iter().enumerate() {
        for (j, w) in row.iter().enumerate() {
            if i % 2 == j % 2 {
                assert!(w.0 >= 0.0, "excitatory weight at ({}, {}) was {}", i, j, w.0);
            } else {
                assert!(w.0 <= 0.0, "inhibitory weight at ({}, {}) was {}", i, j, w.0);
            }
        }
    }
}

fn train_xor_layer(seed: u64, epochs: usize, learning_rate: f64) -> (Vec<Vec<F>>, Vec<F>) {
    let rows = [[0., 0.], [0., 1.], [1., 0.], [1., 1.]];
    let targets = [0., 1., 1., 0.];

    let mut rng = SeededUniform::seeded(seed);
    let mut layer: Layer<F, Sigmoid> = Layer::new(&mut rng, 4, 1);

    for _ in 0..epochs {
        for (row, &target) in rows.iter().zip(targets.iter()) {
            let x = fv(&[row[0], row[0], row[1], row[1]]);
            let output = layer.forward(x)[0];
            let delta = MSELoss::derivative(output, F(target));
            layer.backward(delta.times(F(learning_rate)));
        }
    }

    let outputs = rows
        .iter()
        .map(|row| layer.forward_without_train(fv(&[row[0], row[0], row[1], row[1]]))[0])
        .collect();
    (layer.weights(), outputs)
}

#[test]
fn xor_layer_training_deterministic() {
    let (weights_a, outputs_a) = train_xor_layer(42, 50, 0.5);
    let (weights_b, outputs_b) = train_xor_layer(42, 50, 0.5);
    assert_eq!(weights_a, weights_b);
    assert_eq!(outputs_a, outputs_b);
    assert_eq!(outputs_a.len(), 4);
}

#[test]
fn backward_moves_only_one_parity_class() {
    let mut rng = SeededUniform::seeded(3);
    let mut layer: Layer<F, Sigmoid> = Layer::new(&mut rng, 4, 1);
    let before = layer.weights();
    layer.forward(fv(&[1.0, 1.0, 1.0, 1.0]));
    layer.backward(F(0.25));
    let after = layer.weights();
    let moved: Vec<usize> = (0..4).filter(|&j| before[0][j] != after[0][j]).collect();
    assert!(!moved.is_empty());
    let first_parity = moved[0] % 2;
    assert!(moved.iter().all(|j| j % 2 == first_parity));
}

#[test]
fn multi_output_layer_shapes_and_determinism() {
    let mut rng = SeededUniform::seeded(42);
    let mut model: MultiOutputLayer<F, Sigmoid> = MultiOutputLayer::new(&mut rng, 2, 4, 16);

    let lane_inputs = vec![fv(&[0., 0., 1., 1.]), fv(&[1., 1., 0., 0.])];
    let output = model.forward(lane_inputs.clone());
    assert_eq!(output.len(), 2);
    assert!(output.iter().all(|lane| lane.len() == 16));

    // Without training the same inputs give the same outputs again.
    let replay = model.forward_without_train(lane_inputs);
    assert_eq!(output, replay);

    let deltas = fv(&[0.125, -0.25]);
    model.backward(&deltas);
}

#[test]
fn mnist_pipeline_forward_backward() {
    let mut rng = SeededUniform::seeded(42);
    let mut model: Mnist<F> = Mnist::new(&mut rng, 2, 4);

    let image: Vec<F> = (0..784).map(|i| F((i % 10) as f64 / 10.0)).collect();
    let logit = model.forward(&image);
    assert!(logit.0.is_finite());

    let replay = model.forward_without_train(&image);
    assert_eq!(logit, replay);

    let delta = BCEWithLogitsLoss::derivative(logit, F(1.0));
    model.backward(delta.times(F(0.02)));

    // Two identically seeded pipelines stay identical through training.
    let mut rng_b = SeededUniform::seeded(42);
    let mut model_b: Mnist<F> = Mnist::new(&mut rng_b, 2, 4);
    let logit_b = model_b.forward(&image);
    assert_eq!(logit, logit_b);
    model_b.backward(BCEWithLogitsLoss::derivative(logit_b, F(1.0)).times(F(0.02)));
    assert_eq!(model.forward_without_train(&image), model_b.forward_without_train(&image));
}

#[test]
fn duplicate_elements_repeats_each_value() {
    let v = vec![1.5, -2.0, 3.25];
    let d = duplicate_elements(&v);
    assert_eq!(d, vec![1.5, 1.5, -2.0, -2.0, 3.25, 3.25]);
    let empty: Vec<f64> = Vec::new();
    assert!(duplicate_elements(&empty).is_empty());
}

#[test]
fn unduplicate_elements_takes_even_indices() {
    assert_eq!(unduplicate_elements(&vec![1, 2, 3, 4]), vec![1, 3]);
    assert_eq!(unduplicate_elements(&vec![1, 2, 3]), vec![1, 3]);
    let v = vec![0.5, -1.0, 7.75];
    assert_eq!(unduplicate_elements(&duplicate_elements(&v)), v);
}

#[test]
fn update_gate_picks_parity_from_sign() {
    for index in 0..8usize {
        assert_eq!(update_gate(true, index), index % 2 == 0);
        assert_eq!(update_gate(false, index), index % 2 == 1);
    }
}

#[test]
fn unit_forward_is_activated_weighted_sum() {
    let mut rng = SeededUniform::seeded(5);
    let mut layer: Layer<F, Sigmoid> = Layer::new(&mut rng, 3, 1);
    let w = layer.weights();
    let x = [0.5, -1.25, 2.0];
    let output = layer.forward(fv(&x))[0];

    let mut sum = 0.0f64;
    for j in 0..3 {
        sum += x[j] * w[0][j].0;
    }
    let expected = <Sigmoid as DifferentiableFn<F>>::eval(F(sum));
    assert_eq!(output, expected);
}

#[test]
fn backward_update_formula() {
    let x = [0.5, 1.0, -1.5, 2.0];

    // A non-negative local delta updates the odd (here inhibitory) neurons
    // by adding the negated local delta times the neuron's input.
    let mut rng = SeededUniform::seeded(9);
    let mut layer: Layer<F, Sigmoid> = Layer::new(&mut rng, 4, 1);
    let before = layer.weights();
    layer.forward(fv(&x));
    let mut sum = 0.0f64;
    for j in 0..4 {
        sum += x[j] * before[0][j].0;
    }
    let s = <Sigmoid as DifferentiableFn<F>>::eval(F(sum)).0;
    let local = (s * (1.0 - s)) * 0.3;
    assert!(local >= 0.0);
    layer.backward(F(0.3));
    let after = layer.weights();
    assert_eq!(after[0][0], before[0][0]);
    assert_eq!(after[0][2], before[0][2]);
    assert_eq!(after[0][1].0, before[0][1].0 + (-local) * x[1]);
    assert_eq!(after[0][3].0, before[0][3].0 + (-local) * x[3]);

    // A negative local delta updates the even (here excitatory) neurons by
    // subtracting the local delta times the neuron's input.
    let mut rng = SeededUniform::seeded(9);
    let mut layer: Layer<F, Sigmoid> = Layer::new(&mut rng, 4, 1);
    layer.forward(fv(&x));
    let local = (s * (1.0 - s)) * -0.3;
    assert!(local < 0.0);
    layer.backward(F(-0.3));
    let after = layer.weights();
    assert_eq!(after[0][1], before[0][1]);
    assert_eq!(after[0][3], before[0][3]);
    assert_eq!(after[0][0].0, before[0][0].0 - local * x[0]);
    assert_eq!(after[0][2].0, before[0][2].0 - local * x[2]);
}

#[test]
fn one_hot_gate_shapes_and_determinism() {
    let mut rng = SeededUniform::seeded(42);
    let mut model: sandbox::Gate<F> = sandbox::Gate::new(&mut rng);

    let input = fv(&[1.0, 0.0]);
    let logits = model.forward(&input);
    assert_eq!(logits.len(), 2);

    // Without training the same input gives the same logits again.
    assert_eq!(model.forward_without_train(&input), logits);

    let scores = CrossEntropyLoss::softmax(&logits);
    let sum: f64 = scores.iter().map(|x| x.0).sum();
    assert!((sum - 1.0).abs() <= 1e-9);

    let deltas = CrossEntropyLoss::derivative(&logits, &fv(&[0.0, 1.0]));
    model.backward(deltas);

    // An identically seeded model walks through the identical states.
    let mut rng_b = SeededUniform::seeded(42);
    let mut model_b: sandbox::Gate<F> = sandbox::Gate::new(&mut rng_b);
    let logits_b = model_b.forward(&input);
    assert_eq!(logits, logits_b);
    model_b.backward(CrossEntropyLoss::derivative(&logits_b, &fv(&[0.0, 1.0])));
    assert_eq!(
        model.forward_without_train(&input),
        model_b.forward_without_train(&input)
    );
}
