//! A small framework of composable, differentiable layers of neurons with
//! pluggable activation and loss functions, trained by a parity-gated
//! weight-update rule.
//!
//! The numeric scalar is abstract: every component is generic over a
//! [`scalar::Scalar`], so the structural behaviour of the engine — neuron
//! polarity, the parity gate, shapes and bookkeeping — is verified once for
//! every scalar type, while callers supply the concrete arithmetic.
#![verifier::loop_isolation(false)]

pub mod differentiable_fn;
pub mod gate;
pub mod layer;
pub mod loss_fn;
pub mod mnist;
pub mod sandbox;
pub mod scalar;
pub mod util;

pub use differentiable_fn::DifferentiableFn;
pub use differentiable_fn::PassThrough;
pub use differentiable_fn::Sigmoid;
pub use gate::Gate;
pub use layer::Layer;
pub use layer::MultiOutputLayer;
pub use layer::Neuron;
pub use layer::NeuronType;
pub use layer::SingleOutputUnit;
pub use loss_fn::BCELoss;
pub use loss_fn::BCEWithLogitsLoss;
pub use loss_fn::CrossEntropyLoss;
pub use loss_fn::MSELoss;
pub use mnist::Mnist;
pub use scalar::Scalar;
pub use scalar::UniformSource;
pub use util::duplicate_elements;
pub use util::unduplicate_elements;
