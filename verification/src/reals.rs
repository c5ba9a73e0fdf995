//! Defines operations only meaningful for real numbers.
//!
//! Not every `Field` has a square root or a sine/cosine - these aren't field
//! axioms, only true for reals - so they live in their own traits here
//! rather than being pulled into `Field` itself.
//!
//! Each operation is a function of its argument: the `spec_*` function of a
//! trait names the value that the operation returns, and an implementation
//! promises that its method returns exactly that value.

use vstd::prelude::*;

verus! {

/// A quantity that has a square root
pub trait Sqrt: Sized {
    /// The value that `sqrt` returns
    spec fn spec_sqrt(self) -> Self;

    /// Returns the square root
    fn sqrt(self) -> (r: Self)
        ensures
            r == self.spec_sqrt(),
    ;
}

/// A quantity that has a sine
pub trait Sin: Sized {
    /// The value that `sin` returns
    spec fn spec_sin(self) -> Self;

    /// Returns the sine, taking `self` as radians
    fn sin(self) -> (r: Self)
        ensures
            r == self.spec_sin(),
    ;
}

/// A quantity that has a cosine
pub trait Cos: Sized {
    /// The value that `cos` returns
    spec fn spec_cos(self) -> Self;

    /// Returns the cosine, taking `self` as radians
    fn cos(self) -> (r: Self)
        ensures
            r == self.spec_cos(),
    ;
}

/// A quantity that has a tangent
pub trait Tan: Sized {
    /// The value that `tan` returns
    spec fn spec_tan(self) -> Self;

    /// Returns the tangent, taking `self` as radians
    fn tan(self) -> (r: Self)
        ensures
            r == self.spec_tan(),
    ;
}

/// A quantity that has an inverse sine (arcsine)
pub trait Asin: Sized {
    /// The value that `asin` returns
    spec fn spec_asin(self) -> Self;

    /// Returns the arcsine, in radians
    fn asin(self) -> (r: Self)
        ensures
            r == self.spec_asin(),
    ;
}

/// A quantity that has an inverse cosine (arccosine)
pub trait Acos: Sized {
    /// The value that `acos` returns
    spec fn spec_acos(self) -> Self;

    /// Returns the arccosine, in radians
    fn acos(self) -> (r: Self)
        ensures
            r == self.spec_acos(),
    ;
}

/// A quantity that has an inverse tangent (arctangent)
pub trait Atan: Sized {
    /// The value that `atan` returns
    spec fn spec_atan(self) -> Self;

    /// Returns the arctangent, in radians
    fn atan(self) -> (r: Self)
        ensures
            r == self.spec_atan(),
    ;
}

/// A quantity that can be rounded to a whole number
pub trait Round: Sized {
    /// The value that `floor` returns
    spec fn spec_floor(self) -> Self;

    /// The value that `ceil` returns
    spec fn spec_ceil(self) -> Self;

    /// The value that `round` returns
    spec fn spec_round(self) -> Self;

    /// Rounds down to the nearest whole number
    fn floor(self) -> (r: Self)
        ensures
            r == self.spec_floor(),
    ;

    /// Rounds up to the nearest whole number
    fn ceil(self) -> (r: Self)
        ensures
            r == self.spec_ceil(),
    ;

    /// Rounds to the nearest whole number, away from zero on a tie
    fn round(self) -> (r: Self)
        ensures
            r == self.spec_round(),
    ;
}

/// A quantity that can be compared for approximate equality, to work around
/// rounding error that makes exact `PartialEq` unreliable after arithmetic
/// (e.g. `0.1 + 0.2 != 0.3`).
///
/// `epsilon` is an absolute tolerance, so it's a poor fit for comparing
/// values whose magnitude is very different from the epsilon itself - pick
/// an epsilon appropriate to the scale of the values being compared, or fall
/// back to `is_close_default`/`default_epsilon` for a reasonable
/// one-size-fits-most choice.
#[allow(clippy::wrong_self_convention)]
pub trait Approx: Sized {
    /// The value that `default_epsilon` returns
    spec fn spec_default_epsilon() -> Self;

    /// Whether `self` and `other` differ by at most `epsilon`
    spec fn spec_is_close(self, other: Self, epsilon: Self) -> bool;

    /// A reasonable default tolerance for this type, used by
    /// `is_close_default`
    fn default_epsilon() -> (r: Self)
        ensures
            r == Self::spec_default_epsilon(),
    ;

    /// Returns whether `self` and `other` differ by at most `epsilon`
    fn is_close(self, other: Self, epsilon: Self) -> (r: bool)
        ensures
            r == self.spec_is_close(other, epsilon),
    ;

    /// Like `is_close`, but using `Self::default_epsilon()` as the
    /// tolerance
    fn is_close_default(self, other: Self) -> (r: bool)
        ensures
            r == self.spec_is_close(other, Self::spec_default_epsilon()),
    {
        let epsilon = Self::default_epsilon();
        self.is_close(other, epsilon)
    }
}

} // verus!
