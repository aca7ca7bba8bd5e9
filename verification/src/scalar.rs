//! The abstract numeric scalar and the pseudo-random source.
//!
//! The engine never fixes a number representation: callers choose the scalar
//! type and supply its arithmetic by implementing [`Scalar`], and supply a
//! seedable stream of unit-interval draws by implementing [`UniformSource`].
//! Each arithmetic operation has a spec-level counterpart that the
//! executable method is bound to, so every computed value in the engine is
//! pinned, as a term over the implementation's own operations; which numbers
//! those operations denote is the implementation's affair.
use vstd::prelude::*;

verus! {

/// Arithmetic interface of the numeric scalar the network computes with.
///
/// The intended model is an IEEE-754 double: `exp` and `ln` are the usual
/// transcendentals, `max_with` / `min_with` the usual comparisons, and
/// `is_negative` the strict test against zero. The `spec_*` functions are
/// the implementation's mathematical account of its operations; each
/// executable method must return exactly what its spec counterpart denotes.
pub trait Scalar: Sized + Copy {
    /// What `zero` returns.
    spec fn spec_zero() -> Self;

    /// What `one` returns.
    spec fn spec_one() -> Self;

    /// What `from_u64` returns.
    spec fn spec_from_u64(n: u64) -> Self;

    /// What `plus` returns.
    spec fn spec_plus(self, other: Self) -> Self;

    /// What `minus` returns.
    spec fn spec_minus(self, other: Self) -> Self;

    /// What `times` returns.
    spec fn spec_times(self, other: Self) -> Self;

    /// What `div_by` returns.
    spec fn spec_div_by(self, other: Self) -> Self;

    /// What `neg` returns.
    spec fn spec_neg(self) -> Self;

    /// What `exp` returns.
    spec fn spec_exp(self) -> Self;

    /// What `ln` returns.
    spec fn spec_ln(self) -> Self;

    /// What `max_with` returns.
    spec fn spec_max_with(self, other: Self) -> Self;

    /// What `min_with` returns.
    spec fn spec_min_with(self, other: Self) -> Self;

    /// Whether `is_negative` holds.
    spec fn spec_is_negative(self) -> bool;

    /// The additive identity.
    fn zero() -> (r: Self)
        ensures
            r == Self::spec_zero(),
    ;

    /// The multiplicative identity.
    fn one() -> (r: Self)
        ensures
            r == Self::spec_one(),
    ;

    /// The scalar standing for the small natural number `n`.
    fn from_u64(n: u64) -> (r: Self)
        ensures
            r == Self::spec_from_u64(n),
    ;

    /// `self + other`.
    fn plus(self, other: Self) -> (r: Self)
        ensures
            r == self.spec_plus(other),
    ;

    /// `self - other`.
    fn minus(self, other: Self) -> (r: Self)
        ensures
            r == self.spec_minus(other),
    ;

    /// `self * other`.
    fn times(self, other: Self) -> (r: Self)
        ensures
            r == self.spec_times(other),
    ;

    /// `self / other`.
    fn div_by(self, other: Self) -> (r: Self)
        ensures
            r == self.spec_div_by(other),
    ;

    /// `-self`.
    fn neg(self) -> (r: Self)
        ensures
            r == self.spec_neg(),
    ;

    /// The exponential `e^self`.
    fn exp(self) -> (r: Self)
        ensures
            r == self.spec_exp(),
    ;

    /// The natural logarithm of `self`.
    fn ln(self) -> (r: Self)
        ensures
            r == self.spec_ln(),
    ;

    /// The larger of the two scalars.
    fn max_with(self, other: Self) -> (r: Self)
        ensures
            r == self.spec_max_with(other),
    ;

    /// The smaller of the two scalars.
    fn min_with(self, other: Self) -> (r: Self)
        ensures
            r == self.spec_min_with(other),
    ;

    /// Whether `self` is strictly below zero.
    fn is_negative(self) -> (r: bool)
        ensures
            r == self.spec_is_negative(),
    ;
}

/// A stream of pseudo-random scalars drawn uniformly from `[0, 1)`.
///
/// Weight initialization consumes one draw per neuron, in construction
/// order; a deterministically seeded implementation therefore reproduces the
/// same initial weights on every run with the same seed. Beyond lying in the
/// unit interval a draw promises nothing: no two calls need agree.
pub trait UniformSource<V: Scalar> {
    /// The next draw of the stream: a value in `[0, 1)`, so never negative.
    fn draw(&mut self) -> (r: V)
        ensures
            !r.spec_is_negative(),
    ;
}

} // verus!
