//! Defines additive and multiplicative identities
//!
//! These are their own traits, rather than methods on `Field` directly,
//! because the identity values can't be derived from the arithmetic
//! operators alone - each numeric type has to state what its zero and one
//! actually are.

use core::ops::{Add, Mul};
use vstd::prelude::*;

verus! {

/// A quantity that has an additive identity: `x + Self::zero() == x`
pub trait Zero: Sized + Add {
    /// The value that `zero` returns
    spec fn spec_zero() -> Self;

    /// The additive identity
    fn zero() -> (r: Self)
        ensures
            r == Self::spec_zero(),
    ;

    /// Adding zero is defined and gives back the other operand:
    /// `x + Self::zero() == x`, wherever `+` computes what its
    /// specification says.
    proof fn lemma_add_zero(x: Self)
        where Self: Add<Output = Self>
        ensures
            <Self as vstd::std_specs::ops::AddSpec>::obeys_add_spec() ==> {
                &&& <Self as vstd::std_specs::ops::AddSpec>::add_req(x, Self::spec_zero())
                &&& <Self as vstd::std_specs::ops::AddSpec>::add_spec(x, Self::spec_zero()) == x
            },
    ;
}

/// A quantity that has a multiplicative identity: `x * Self::one() == x`
pub trait One: Sized + Mul {
    /// The value that `one` returns
    spec fn spec_one() -> Self;

    /// The multiplicative identity
    fn one() -> (r: Self)
        ensures
            r == Self::spec_one(),
    ;

    /// Multiplying by one is defined and gives back the other operand:
    /// `x * Self::one() == x`, wherever `*` computes what its
    /// specification says.
    proof fn lemma_mul_one(x: Self)
        where Self: Mul<Output = Self>
        ensures
            <Self as vstd::std_specs::ops::MulSpec>::obeys_mul_spec() ==> {
                &&& <Self as vstd::std_specs::ops::MulSpec>::mul_req(x, Self::spec_one())
                &&& <Self as vstd::std_specs::ops::MulSpec>::mul_spec(x, Self::spec_one()) == x
            },
    ;
}

impl Zero for i8 {
    open spec fn spec_zero() -> i8 {
        0
    }

    fn zero() -> i8 {
        0
    }

    proof fn lemma_add_zero(x: i8) {
    }
}

impl One for i8 {
    open spec fn spec_one() -> i8 {
        1
    }

    fn one() -> i8 {
        1
    }

    proof fn lemma_mul_one(x: i8) {
    }
}

impl Zero for i16 {
    open spec fn spec_zero() -> i16 {
        0
    }

    fn zero() -> i16 {
        0
    }

    proof fn lemma_add_zero(x: i16) {
    }
}

impl One for i16 {
    open spec fn spec_one() -> i16 {
        1
    }

    fn one() -> i16 {
        1
    }

    proof fn lemma_mul_one(x: i16) {
    }
}

impl Zero for i32 {
    open spec fn spec_zero() -> i32 {
        0
    }

    fn zero() -> i32 {
        0
    }

    proof fn lemma_add_zero(x: i32) {
    }
}

impl One for i32 {
    open spec fn spec_one() -> i32 {
        1
    }

    fn one() -> i32 {
        1
    }

    proof fn lemma_mul_one(x: i32) {
    }
}

impl Zero for i64 {
    open spec fn spec_zero() -> i64 {
        0
    }

    fn zero() -> i64 {
        0
    }

    proof fn lemma_add_zero(x: i64) {
    }
}

impl One for i64 {
    open spec fn spec_one() -> i64 {
        1
    }

    fn one() -> i64 {
        1
    }

    proof fn lemma_mul_one(x: i64) {
    }
}

impl Zero for i128 {
    open spec fn spec_zero() -> i128 {
        0
    }

    fn zero() -> i128 {
        0
    }

    proof fn lemma_add_zero(x: i128) {
    }
}

impl One for i128 {
    open spec fn spec_one() -> i128 {
        1
    }

    fn one() -> i128 {
        1
    }

    proof fn lemma_mul_one(x: i128) {
    }
}

impl Zero for isize {
    open spec fn spec_zero() -> isize {
        0
    }

    fn zero() -> isize {
        0
    }

    proof fn lemma_add_zero(x: isize) {
    }
}

impl One for isize {
    open spec fn spec_one() -> isize {
        1
    }

    fn one() -> isize {
        1
    }

    proof fn lemma_mul_one(x: isize) {
    }
}

impl Zero for u8 {
    open spec fn spec_zero() -> u8 {
        0
    }

    fn zero() -> u8 {
        0
    }

    proof fn lemma_add_zero(x: u8) {
    }
}

impl One for u8 {
    open spec fn spec_one() -> u8 {
        1
    }

    fn one() -> u8 {
        1
    }

    proof fn lemma_mul_one(x: u8) {
    }
}

impl Zero for u16 {
    open spec fn spec_zero() -> u16 {
        0
    }

    fn zero() -> u16 {
        0
    }

    proof fn lemma_add_zero(x: u16) {
    }
}

impl One for u16 {
    open spec fn spec_one() -> u16 {
        1
    }

    fn one() -> u16 {
        1
    }

    proof fn lemma_mul_one(x: u16) {
    }
}

impl Zero for u32 {
    open spec fn spec_zero() -> u32 {
        0
    }

    fn zero() -> u32 {
        0
    }

    proof fn lemma_add_zero(x: u32) {
    }
}

impl One for u32 {
    open spec fn spec_one() -> u32 {
        1
    }

    fn one() -> u32 {
        1
    }

    proof fn lemma_mul_one(x: u32) {
    }
}

impl Zero for u64 {
    open spec fn spec_zero() -> u64 {
        0
    }

    fn zero() -> u64 {
        0
    }

    proof fn lemma_add_zero(x: u64) {
    }
}

impl One for u64 {
    open spec fn spec_one() -> u64 {
        1
    }

    fn one() -> u64 {
        1
    }

    proof fn lemma_mul_one(x: u64) {
    }
}

impl Zero for u128 {
    open spec fn spec_zero() -> u128 {
        0
    }

    fn zero() -> u128 {
        0
    }

    proof fn lemma_add_zero(x: u128) {
    }
}

impl One for u128 {
    open spec fn spec_one() -> u128 {
        1
    }

    fn one() -> u128 {
        1
    }

    proof fn lemma_mul_one(x: u128) {
    }
}

impl Zero for usize {
    open spec fn spec_zero() -> usize {
        0
    }

    fn zero() -> usize {
        0
    }

    proof fn lemma_add_zero(x: usize) {
    }
}

impl One for usize {
    open spec fn spec_one() -> usize {
        1
    }

    fn one() -> usize {
        1
    }

    proof fn lemma_mul_one(x: usize) {
    }
}

} // verus!
