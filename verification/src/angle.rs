//! Angles, held by their cosine and sine.

use crate::fixed::Fixed;
use vstd::prelude::*;

verus! {

/// Mathematical model of an [`Angle`]: the raw cosine and sine.
pub ghost struct Trig {
    pub cos: int,
    pub sin: int,
}

/// An angle, given by its cosine and its sine.
///
/// The library has no trigonometry of its own: whoever makes an `Angle`
/// supplies both numbers, and the rotations are built from them as they are.
#[derive(Debug, Clone, Copy)]
pub struct Angle {
    pub cos: Fixed,
    pub sin: Fixed,
}

impl View for Angle {
    type V = Trig;

    open spec fn view(&self) -> Trig {
        Trig { cos: self.cos@, sin: self.sin@ }
    }
}

impl Angle {
    /// The angle with the given cosine and sine.
    pub fn new(cos: Fixed, sin: Fixed) -> (a: Angle)
        ensures
            a@ == (Trig { cos: cos@, sin: sin@ }),
    {
        Angle { cos, sin }
    }

    /// The angle of no rotation.
    pub fn zero() -> (a: Angle)
        ensures
            a@ == (Trig { cos: 0x1_0000, sin: 0 }),
    {
        Angle { cos: Fixed::one(), sin: Fixed::zero() }
    }

    /// The same angle the other way round.
    pub fn negated(self) -> (a: Angle)
        ensures
            a@ == (Trig { cos: self@.cos, sin: -self@.sin }),
    {
        Angle { cos: Fixed::from_raw(self.cos.raw()), sin: self.sin.neg() }
    }

    /// The tangent, as sine over cosine.
    pub fn tan(self) -> (t: Fixed)
        ensures
            t@ == crate::fixed::fx_div(self@.sin, self@.cos),
    {
        self.sin.div(self.cos)
    }
}

} // verus!
