//! Activation and loss functions instantiated with IEEE-754 doubles.
use ed::BCELoss;
use ed::BCEWithLogitsLoss;
use ed::CrossEntropyLoss;
use ed::DifferentiableFn;
use ed::MSELoss;
use ed::PassThrough;
use ed::Scalar;
use ed::Sigmoid;

/// An IEEE-754 double as the network scalar.
#[derive(Clone, Copy, Debug, PartialEq)]
struct F(f64);

impl Scalar for F {

    // The verifier's spec items survive erasure as plain trait items; they
    // model the operations and are never called at run time.
    fn spec_zero() -> F {
        unreachable!()
    }
    fn spec_one() -> F {
        unreachable!()
    }
    fn spec_from_u64(_n: u64) -> F {
        unreachable!()
    }
    fn spec_plus(self, _other: F) -> F {
        unreachable!()
    }
    fn spec_minus(self, _other: F) -> F {
        unreachable!()
    }
    fn spec_times(self, _other: F) -> F {
        unreachable!()
    }
    fn spec_div_by(self, _other: F) -> F {
        unreachable!()
    }
    fn spec_neg(self) -> F {
        unreachable!()
    }
    fn spec_exp(self) -> F {
        unreachable!()
    }
    fn spec_ln(self) -> F {
        unreachable!()
    }
    fn spec_max_with(self, _other: F) -> F {
        unreachable!()
    }
    fn spec_min_with(self, _other: F) -> F {
        unreachable!()
    }
    fn spec_is_negative(self) -> bool {
        unreachable!()
    }

    fn zero() -> F {
        F(0.0)
    }
    fn one() -> F {
        F(1.0)
    }
    fn from_u64(n: u64) -> F {
        F(n as f64)
    }
    fn plus(self, other: F) -> F {
        F(self.0 + other.0)
    }
    fn minus(self, other: F) -> F {
        F(self.0 - other.0)
    }
    fn times(self, other: F) -> F {
        F(self.0 * other.0)
    }
    fn div_by(self, other: F) -> F {
        F(self.0 / other.0)
    }
    fn neg(self) -> F {
        F(-self.0)
    }
    fn exp(self) -> F {
        F(self.0.exp())
    }
    fn ln(self) -> F {
        F(self.0.ln())
    }
    fn max_with(self, other: F) -> F {
        F(self.0.max(other.0))
    }
    fn min_with(self, other: F) -> F {
        F(self.0.min(other.0))
    }
    fn is_negative(self) -> bool {
        self.0 < 0.0
    }
}

fn fv(values: &[f64]) -> Vec<F> {
    values.iter().map(|&x| F(x)).collect()
}

#[test]
fn test_softmax() {
    let input = fv(&[1.0, 2.0, 3.0]);
    let output = CrossEntropyLoss::softmax(&input);
    assert_eq!(
        output,
        fv(&[0.09003057317038046, 0.24472847105479764, 0.6652409557748218])
    );
}

#[test]
fn test_cross_entropy_loss() {
    let output = fv(&[1.0, 2.0, 3.0]);
    let target = fv(&[0.0, 1.0, 0.0]);
    let loss = CrossEntropyLoss::eval(&output, &target);
    assert_eq!(loss, F(1.4076059644443804));
}

#[test]
fn test_cross_entropy_loss_derivative() {
    let output = fv(&[1.0, 2.0, 3.0]);
    let target = fv(&[0.0, 1.0, 0.0]);
    let derivative = CrossEntropyLoss::derivative(&output, &target);
    assert_eq!(
        derivative,
        fv(&[0.09003057317038046, -0.7552715289452023, 0.6652409557748218])
    );
}

#[test]
fn softmax_sums_to_one() {
    let cases: Vec<Vec<f64>> = vec![
        vec![1.0, 2.0, 3.0],
        vec![0.0],
        vec![-5.5, 0.25, 17.0, -3.0],
        vec![100.0, 100.5, 99.5],
        vec![-1000.0, -999.0],
    ];
    for case in cases {
        let input = fv(&case);
        let output = CrossEntropyLoss::softmax(&input);
        assert_eq!(output.len(), input.len());
        let sum: f64 = output.iter().map(|x| x.0).sum();
        assert!((sum - 1.0).abs() <= 1e-9, "sum was {}", sum);
    }
}

#[test]
fn softmax_shift_invariant() {
    let base = [1.0, 2.0, 3.0, -0.5];
    for shift in [0.25, -3.0, 10.0] {
        let plain = CrossEntropyLoss::softmax(&fv(&base));
        let shifted: Vec<f64> = base.iter().map(|x| x + shift).collect();
        let shifted = CrossEntropyLoss::softmax(&fv(&shifted));
        for (a, b) in plain.iter().zip(shifted.iter()) {
            assert!((a.0 - b.0).abs() <= 1e-9);
        }
    }
}

#[test]
fn sigmoid_derivative_identity() {
    for x in [-20.0, -3.5, -1.0, 0.0, 0.5, 2.0, 17.25] {
        let s = <Sigmoid as DifferentiableFn<F>>::eval(F(x));
        let d = <Sigmoid as DifferentiableFn<F>>::derivative(F(x));
        assert_eq!(d, F(s.0 * (1.0 - s.0)));
    }
}

#[test]
fn sigmoid_eval_values() {
    assert_eq!(<Sigmoid as DifferentiableFn<F>>::eval(F(0.0)), F(0.5));
    let s = <Sigmoid as DifferentiableFn<F>>::eval(F(100.0));
    assert!((s.0 - 1.0).abs() <= 1e-12);
    let s = <Sigmoid as DifferentiableFn<F>>::eval(F(-100.0));
    assert!(s.0.abs() <= 1e-12);
}

#[test]
fn pass_through_is_identity_with_unit_derivative() {
    for x in [-2.5, 0.0, 3.75] {
        assert_eq!(<PassThrough as DifferentiableFn<F>>::eval(F(x)), F(x));
        assert_eq!(<PassThrough as DifferentiableFn<F>>::derivative(F(x)), F(1.0));
    }
}

#[test]
fn bce_with_logits_derivative_closed_form() {
    for o in [-30.0, -2.0, -0.25, 0.0, 0.5, 4.0, 25.0] {
        for t in [0.0, 1.0] {
            let d = BCEWithLogitsLoss::derivative(F(o), F(t));
            let s = <Sigmoid as DifferentiableFn<F>>::eval(F(o));
            assert_eq!(d, F(s.0 - t));
        }
    }
}

#[test]
fn bce_exact_values() {
    // An unclamped interior probability.
    assert_eq!(BCELoss::eval(F(0.5), F(1.0)), F(-(0.5f64.ln())));
    assert_eq!(BCELoss::derivative(F(0.5), F(1.0)), F(-2.0));
    // A probability at 0 is clamped to 1e-12, keeping the loss finite.
    let clamped = BCELoss::eval(F(0.0), F(1.0));
    assert!(clamped.0.is_finite());
    assert_eq!(clamped, F(-(1e-12f64.ln())));
    // The clamp also moves a perfect prediction off exactly zero loss.
    let near_zero = BCELoss::eval(F(0.0), F(0.0));
    assert!(near_zero.0 > 0.0);
    assert_eq!(near_zero, F(-((1.0f64 - 1e-12).ln())));
}

#[test]
fn bce_with_logits_eval_composes_sigmoid() {
    for o in [-3.0, 0.0, 1.5] {
        for t in [0.0, 1.0] {
            let s = <Sigmoid as DifferentiableFn<F>>::eval(F(o));
            assert_eq!(BCEWithLogitsLoss::eval(F(o), F(t)), BCELoss::eval(s, F(t)));
        }
    }
}

#[test]
fn mse_exact_values() {
    assert_eq!(MSELoss::eval(F(3.0), F(1.0)), F(4.0));
    assert_eq!(MSELoss::eval(F(1.0), F(3.0)), F(4.0));
    assert_eq!(MSELoss::derivative(F(3.0), F(1.0)), F(4.0));
    assert_eq!(MSELoss::derivative(F(1.0), F(3.0)), F(-4.0));
    assert_eq!(MSELoss::eval(F(2.0), F(2.0)), F(0.0));
}

#[test]
fn cross_entropy_empty_input() {
    let empty: Vec<F> = Vec::new();
    let output = CrossEntropyLoss::softmax(&empty);
    assert!(output.is_empty());
    let derivative = CrossEntropyLoss::derivative(&empty, &Vec::new());
    assert!(derivative.is_empty());
    assert_eq!(CrossEntropyLoss::eval(&empty, &Vec::new()), F(-0.0));
}
