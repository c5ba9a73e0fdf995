//! Defines a `min`/`max` capability that works for both integers and
//! floats.
//!
//! `core::cmp::Ord` can't be the bound for this: floats only implement
//! `PartialOrd` (`NaN` breaks the total ordering `Ord` requires). Instead,
//! each type gets its own impl, same pattern as `Zero`/`One`.

use vstd::prelude::*;

verus! {

/// A quantity that can be compared and picked between, without requiring a
/// total order (`Ord`) - so it works for floats too.
pub trait MinMax: Sized {
    /// The value that `min` returns
    spec fn spec_min(self, other: Self) -> Self;

    /// The value that `max` returns
    spec fn spec_max(self, other: Self) -> Self;

    /// Returns the smaller of the two values
    fn min(self, other: Self) -> (r: Self)
        ensures
            r == self.spec_min(other),
    ;

    /// Returns the larger of the two values
    fn max(self, other: Self) -> (r: Self)
        ensures
            r == self.spec_max(other),
    ;
}

/// As `Ord::min` and `Ord::max`: on a tie `min` gives `self` and `max` gives
/// `other`, which for integers is the same value.
impl MinMax for i8 {
    open spec fn spec_min(self, other: i8) -> i8 {
        if self <= other {
            self
        } else {
            other
        }
    }

    open spec fn spec_max(self, other: i8) -> i8 {
        if other >= self {
            other
        } else {
            self
        }
    }

    fn min(self, other: i8) -> i8 {
        if self <= other {
            self
        } else {
            other
        }
    }

    fn max(self, other: i8) -> i8 {
        if other >= self {
            other
        } else {
            self
        }
    }
}

/// As `Ord::min` and `Ord::max`: on a tie `min` gives `self` and `max` gives
/// `other`, which for integers is the same value.
impl MinMax for i16 {
    open spec fn spec_min(self, other: i16) -> i16 {
        if self <= other {
            self
        } else {
            other
        }
    }

    open spec fn spec_max(self, other: i16) -> i16 {
        if other >= self {
            other
        } else {
            self
        }
    }

    fn min(self, other: i16) -> i16 {
        if self <= other {
            self
        } else {
            other
        }
    }

    fn max(self, other: i16) -> i16 {
        if other >= self {
            other
        } else {
            self
        }
    }
}

/// As `Ord::min` and `Ord::max`: on a tie `min` gives `self` and `max` gives
/// `other`, which for integers is the same value.
impl MinMax for i32 {
    open spec fn spec_min(self, other: i32) -> i32 {
        if self <= other {
            self
        } else {
            other
        }
    }

    open spec fn spec_max(self, other: i32) -> i32 {
        if other >= self {
            other
        } else {
            self
        }
    }

    fn min(self, other: i32) -> i32 {
        if self <= other {
            self
        } else {
            other
        }
    }

    fn max(self, other: i32) -> i32 {
        if other >= self {
            other
        } else {
            self
        }
    }
}

/// As `Ord::min` and `Ord::max`: on a tie `min` gives `self` and `max` gives
/// `other`, which for integers is the same value.
impl MinMax for i64 {
    open spec fn spec_min(self, other: i64) -> i64 {
        if self <= other {
            self
        } else {
            other
        }
    }

    open spec fn spec_max(self, other: i64) -> i64 {
        if other >= self {
            other
        } else {
            self
        }
    }

    fn min(self, other: i64) -> i64 {
        if self <= other {
            self
        } else {
            other
        }
    }

    fn max(self, other: i64) -> i64 {
        if other >= self {
            other
        } else {
            self
        }
    }
}

/// As `Ord::min` and `Ord::max`: on a tie `min` gives `self` and `max` gives
/// `other`, which for integers is the same value.
impl MinMax for i128 {
    open spec fn spec_min(self, other: i128) -> i128 {
        if self <= other {
            self
        } else {
            other
        }
    }

    open spec fn spec_max(self, other: i128) -> i128 {
        if other >= self {
            other
        } else {
            self
        }
    }

    fn min(self, other: i128) -> i128 {
        if self <= other {
            self
        } else {
            other
        }
    }

    fn max(self, other: i128) -> i128 {
        if other >= self {
            other
        } else {
            self
        }
    }
}

/// As `Ord::min` and `Ord::max`: on a tie `min` gives `self` and `max` gives
/// `other`, which for integers is the same value.
impl MinMax for isize {
    open spec fn spec_min(self, other: isize) -> isize {
        if self <= other {
            self
        } else {
            other
        }
    }

    open spec fn spec_max(self, other: isize) -> isize {
        if other >= self {
            other
        } else {
            self
        }
    }

    fn min(self, other: isize) -> isize {
        if self <= other {
            self
        } else {
            other
        }
    }

    fn max(self, other: isize) -> isize {
        if other >= self {
            other
        } else {
            self
        }
    }
}

/// For every signed integer type, `min` gives the smaller of its operands
/// and `max` the larger: the result is one of the two, and is no greater
/// (for `min`) or no less (for `max`) than either.
pub proof fn lemma_integer_min_max()
    ensures
        forall|a: i8, b: i8| {
            &&& #[trigger] a.spec_min(b) <= a &&& a.spec_min(b) <= b
            &&& (a.spec_min(b) == a || a.spec_min(b) == b)
        },
        forall|a: i8, b: i8| {
            &&& #[trigger] a.spec_max(b) >= a &&& a.spec_max(b) >= b
            &&& (a.spec_max(b) == a || a.spec_max(b) == b)
        },
        forall|a: i16, b: i16| {
            &&& #[trigger] a.spec_min(b) <= a &&& a.spec_min(b) <= b
            &&& (a.spec_min(b) == a || a.spec_min(b) == b)
        },
        forall|a: i16, b: i16| {
            &&& #[trigger] a.spec_max(b) >= a &&& a.spec_max(b) >= b
            &&& (a.spec_max(b) == a || a.spec_max(b) == b)
        },
        forall|a: i32, b: i32| {
            &&& #[trigger] a.spec_min(b) <= a &&& a.spec_min(b) <= b
            &&& (a.spec_min(b) == a || a.spec_min(b) == b)
        },
        forall|a: i32, b: i32| {
            &&& #[trigger] a.spec_max(b) >= a &&& a.spec_max(b) >= b
            &&& (a.spec_max(b) == a || a.spec_max(b) == b)
        },
        forall|a: i64, b: i64| {
            &&& #[trigger] a.spec_min(b) <= a &&& a.spec_min(b) <= b
            &&& (a.spec_min(b) == a || a.spec_min(b) == b)
        },
        forall|a: i64, b: i64| {
            &&& #[trigger] a.spec_max(b) >= a &&& a.spec_max(b) >= b
            &&& (a.spec_max(b) == a || a.spec_max(b) == b)
        },
        forall|a: i128, b: i128| {
            &&& #[trigger] a.spec_min(b) <= a &&& a.spec_min(b) <= b
            &&& (a.spec_min(b) == a || a.spec_min(b) == b)
        },
        forall|a: i128, b: i128| {
            &&& #[trigger] a.spec_max(b) >= a &&& a.spec_max(b) >= b
            &&& (a.spec_max(b) == a || a.spec_max(b) == b)
        },
        forall|a: isize, b: isize| {
            &&& #[trigger] a.spec_min(b) <= a &&& a.spec_min(b) <= b
            &&& (a.spec_min(b) == a || a.spec_min(b) == b)
        },
        forall|a: isize, b: isize| {
            &&& #[trigger] a.spec_max(b) >= a &&& a.spec_max(b) >= b
            &&& (a.spec_max(b) == a || a.spec_max(b) == b)
        },
{
}

} // verus!
