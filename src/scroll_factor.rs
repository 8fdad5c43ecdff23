use crate::double::Double;
use vstd::prelude::*;

verus! {

/// A scroll speed factor: a finite number greater than zero.
#[derive(Clone, Copy, Debug, PartialEq, Eq)]
pub struct ScrollFactor {
    value: Double,
}

/// The refusal of a number that is not finite or not greater than zero.
#[derive(Clone, Copy, Debug, PartialEq, Eq)]
pub struct TryFromFloatError {}

impl TryFromFloatError {
    pub fn message(&self) -> (r: String)
        ensures
            r@ == "scroll factor must be a positive finite number"@,
    {
        "scroll factor must be a positive finite number".to_owned()
    }
}

impl ScrollFactor {
    #[verifier::type_invariant]
    spec fn inv(self) -> bool {
        self.value.is_positive_finite()
    }

    pub closed spec fn view(self) -> Double {
        self.value
    }

    /// Accepts `value` exactly when it is finite and greater than zero.
    pub fn try_from(value: Double) -> (r: Result<ScrollFactor, TryFromFloatError>)
        ensures
            r is Ok <==> value.is_positive_finite(),
            r is Ok ==> r->Ok_0.view() == value,
    {
        if value.is_positive_finite_exec() {
            Ok(ScrollFactor { value })
        } else {
            Err(TryFromFloatError {  })
        }
    }

    pub fn value(&self) -> (r: Double)
        ensures
            r == self.view(),
            r.is_positive_finite(),
    {
        proof {
            use_type_invariant(self);
        }
        self.value
    }
}

impl Default for ScrollFactor {
    /// The factor one.
    fn default() -> (r: ScrollFactor)
        ensures
            r.view().bits == crate::double::ONE_BITS,
    {
        ScrollFactor { value: Double::one() }
    }
}

/// Scroll speed factors for the vertical and the horizontal axis.
#[derive(Clone, Copy, Debug, PartialEq, Eq)]
pub struct ScrollFactorPair {
    pub vertical: ScrollFactor,
    pub horizontal: ScrollFactor,
}

impl Default for ScrollFactorPair {
    /// One on both axes.
    fn default() -> (r: ScrollFactorPair)
        ensures
            r.vertical.view().bits == crate::double::ONE_BITS,
            r.horizontal.view().bits == crate::double::ONE_BITS,
    {
        ScrollFactorPair { vertical: ScrollFactor::default(), horizontal: ScrollFactor::default() }
    }
}

} // verus!
