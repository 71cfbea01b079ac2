//! Whole percentages known to lie within [0, 100].
use vstd::prelude::*;

verus! {

/// Why a value is no percentage.
#[derive(Debug, Clone, Copy, PartialEq, Eq, Structural)]
pub enum ClampedPercentageError {
    TooLittle,
    TooBig,
}

/// A whole percentage between 0 and 100.
#[derive(Debug, Clone, Copy, PartialEq, Eq, Structural)]
pub struct ClampedPercentage {
    value: u32,
}

impl ClampedPercentage {
    pub closed spec fn spec_value(&self) -> u32 {
        self.value
    }

    #[verifier::type_invariant]
    spec fn within_bounds(&self) -> bool {
        self.value <= 100
    }

    /// The percentage `percentage`, which must lie within [0, 100].
    pub fn new(percentage: i64) -> (r: ClampedPercentage)
        requires
            0 <= percentage <= 100,
        ensures
            r.spec_value() == percentage,
    {
        ClampedPercentage { value: percentage as u32 }
    }

    /// The percentage `percentage`, or why it is none.
    pub fn try_new(percentage: i64) -> (r: Result<ClampedPercentage, ClampedPercentageError>)
        ensures
            percentage < 0 ==> r == Err::<ClampedPercentage, ClampedPercentageError>(ClampedPercentageError::TooLittle),
            percentage > 100 ==> r == Err::<ClampedPercentage, ClampedPercentageError>(ClampedPercentageError::TooBig),
            0 <= percentage <= 100 ==> r is Ok && r.unwrap().spec_value() == percentage,
    {
        if percentage < 0 {
            Err(ClampedPercentageError::TooLittle)
        } else if percentage > 100 {
            Err(ClampedPercentageError::TooBig)
        } else {
            Ok(ClampedPercentage { value: percentage as u32 })
        }
    }

    pub fn value(&self) -> (r: u32)
        ensures
            r == self.spec_value(),
            r <= 100,
    {
        proof {
            use_type_invariant(self);
        }
        self.value
    }
}

} // verus!
