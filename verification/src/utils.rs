//! Scalar validation.
//!
//! Callers hand the engine raw numeric input.  [`Numeric`] models the
//! full domain such input can come from: not-a-number, infinite, or a
//! finite rational value.  Validation classifies a scalar before any
//! market state is touched, and [`FinitePositiveValue`] carries the proof
//! that a scalar passed.

use vstd::prelude::*;

use crate::rational::Ratio;

verus! {

/// A raw numeric input: either a genuine finite value or one of the
/// degenerate shapes (not-a-number, infinite) that validation rejects.
#[derive(Clone, Copy, Debug, PartialEq, Eq, Structural)]
pub enum Numeric {
    /// Not a number.
    Nan,
    /// Positively or negatively infinite.
    Infinite,
    /// A finite value, as an exact rational.
    Finite(Ratio),
}

impl Numeric {
    /// A well-formed input carries a well-formed rational when finite.
    pub open spec fn wf(&self) -> bool {
        match *self {
            Numeric::Finite(r) => r.wf(),
            _ => true,
        }
    }

    /// Whether the input is a finite value.
    pub open spec fn is_finite(&self) -> bool {
        matches!(*self, Numeric::Finite(_))
    }

    /// The finite value carried; meaningful only when `is_finite()`.
    pub open spec fn value(&self) -> Ratio {
        self->Finite_0
    }

    /// Whether the input is finite and strictly negative.
    pub open spec fn is_negative_value(&self) -> bool {
        match *self {
            Numeric::Finite(r) => r@.num < 0,
            _ => false,
        }
    }
}

/// Why a scalar failed validation.
#[derive(Clone, Copy, Debug, PartialEq, Eq, Structural)]
pub enum ScalarError {
    /// The value is not a number.
    IsNan,
    /// The value is infinite.
    IsInfinite,
    /// The value is strictly negative.
    IsNegative,
}

/// Accepts exactly the finite, non-negative scalars; the error reports
/// the first failed check, in the order not-a-number, infinite, negative.
pub fn validate(value: &Numeric) -> (r: Result<(), ScalarError>)
    requires
        value.wf(),
    ensures
        match r {
            Ok(()) => value.is_finite() && !value.is_negative_value(),
            Err(e) => match e {
                ScalarError::IsNan => *value is Nan,
                ScalarError::IsInfinite => *value is Infinite,
                ScalarError::IsNegative => value.is_negative_value(),
            },
        },
{
    match value {
        Numeric::Nan => Err(ScalarError::IsNan),
        Numeric::Infinite => Err(ScalarError::IsInfinite),
        Numeric::Finite(v) => {
            if v.is_negative() {
                Err(ScalarError::IsNegative)
            } else {
                Ok(())
            }
        },
    }
}

/// A scalar that passed validation: finite and at least zero.
#[derive(Clone, Copy, Debug, PartialEq, Eq, Structural)]
pub struct FinitePositiveValue(pub Ratio);

impl FinitePositiveValue {
    /// The carried value is well-formed and never below zero.
    pub open spec fn wf(&self) -> bool {
        &&& self.0.wf()
        &&& self.0@.num >= 0
    }

    /// The carried value, for contracts.
    pub open spec fn view(&self) -> Ratio {
        self.0
    }

    /// Validates a raw scalar; succeeds exactly on finite, non-negative
    /// input and then carries that value unchanged.
    pub fn try_new(value: &Numeric) -> (r: Result<FinitePositiveValue, ScalarError>)
        requires
            value.wf(),
        ensures
            match r {
                Ok(f) => {
                    &&& f.wf()
                    &&& value.is_finite()
                    &&& !value.is_negative_value()
                    &&& f@ == value.value()
                },
                Err(e) => match e {
                    ScalarError::IsNan => *value is Nan,
                    ScalarError::IsInfinite => *value is Infinite,
                    ScalarError::IsNegative => value.is_negative_value(),
                },
            },
    {
        match validate(value) {
            Err(e) => Err(e),
            Ok(()) => match value {
                Numeric::Finite(v) => Ok(FinitePositiveValue(*v)),
                _ => Err(ScalarError::IsNan),
            },
        }
    }

    /// The validated scalar itself.
    pub fn inner(&self) -> (r: Ratio)
        ensures
            r == self@,
    {
        self.0
    }
}

} // verus!
