//! A three-valued truth: known true, known false, or unknown.
//!
//! Polymorphic equality uses it to record, per value domain, whether both
//! operands were comparable there and how they compared.

use vstd::prelude::*;
use vstd::std_specs::cmp::PartialEqSpec;

verus! {

/// A truth value that may be undetermined.
#[derive(Debug, Clone, Copy, PartialEq, Eq, Structural)]
pub enum UncertainBool {
    /// Definitely true.
    True,
    /// Definitely false.
    False,
    /// Neither side of the question could be settled.
    Unknown,
}

impl UncertainBool {
    /// Is this definitely true?
    pub fn is_true(&self) -> (r: bool)
        ensures
            r == (*self is True),
    {
        matches!(self, UncertainBool::True)
    }

    /// Is this definitely false?
    pub fn is_false(&self) -> (r: bool)
        ensures
            r == (*self is False),
    {
        matches!(self, UncertainBool::False)
    }
}

/// The comparison of two optional values: equal when both are present and
/// equal, unknown when both are absent, and unequal otherwise.
pub open spec fn spec_option_eq<T: PartialEq>(a: Option<T>, b: Option<T>) -> UncertainBool {
    match (a, b) {
        (Some(x), Some(y)) => if x.eq_spec(&y) {
            UncertainBool::True
        } else {
            UncertainBool::False
        },
        (None, None) => UncertainBool::Unknown,
        _ => UncertainBool::False,
    }
}

/// Compare two optional values, reporting `Unknown` when neither side has
/// a value.
pub fn is_option_eq<T: PartialEq>(a: Option<T>, b: Option<T>) -> (r: UncertainBool)
    ensures
        T::obeys_eq_spec() ==> r == spec_option_eq(a, b),
{
    match (a, b) {
        (Some(x), Some(y)) => {
            if x == y {
                UncertainBool::True
            } else {
                UncertainBool::False
            }
        },
        (None, None) => UncertainBool::Unknown,
        _ => UncertainBool::False,
    }
}

} // verus!
