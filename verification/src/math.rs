//! Sides of a hyperplane and coordinate axes.

use vstd::prelude::*;

verus! {

/// The side of a hyperplane that a point lies on.
#[derive(Copy, Clone, Debug, PartialEq, Eq, Structural)]
pub enum HyperplaneSide {
    Positive,
    Negative,
}

impl HyperplaneSide {
    /// The number of this value.
    pub open spec fn spec_code(self) -> u8 {
        match self {
            HyperplaneSide::Positive => 0,
            HyperplaneSide::Negative => 1,
        }
    }

    /// The value with the given number, if there is one.
    pub open spec fn spec_from_u8(v: u8) -> Option<HyperplaneSide> {
        match v {
            0 => Some(HyperplaneSide::Positive),
            1 => Some(HyperplaneSide::Negative),
            _ => None,
        }
    }

    /// The number of this value.
    pub fn code(self) -> (r: u8)
        ensures
            r == self.spec_code(),
    {
        match self {
            HyperplaneSide::Positive => 0,
            HyperplaneSide::Negative => 1,
        }
    }

    /// The value with the given number, if there is one.
    pub fn from_u8(v: u8) -> (r: Option<HyperplaneSide>)
        ensures
            r == HyperplaneSide::spec_from_u8(v),
    {
        match v {
            0 => Some(HyperplaneSide::Positive),
            1 => Some(HyperplaneSide::Negative),
            _ => None,
        }
    }

    /// Reading back the number of a value gives the value.
    pub proof fn lemma_code_roundtrip(self)
        ensures
            HyperplaneSide::spec_from_u8(self.spec_code()) == Some(self),
    {
    }
}
impl HyperplaneSide {
    /// The other side.
    pub open spec fn spec_neg(self) -> HyperplaneSide {
        match self {
            HyperplaneSide::Positive => HyperplaneSide::Negative,
            HyperplaneSide::Negative => HyperplaneSide::Positive,
        }
    }

    /// The other side.
    pub fn neg(self) -> (r: HyperplaneSide)
        ensures
            r == self.spec_neg(),
    {
        match self {
            HyperplaneSide::Positive => HyperplaneSide::Negative,
            HyperplaneSide::Negative => HyperplaneSide::Positive,
        }
    }
}

/// Taking the other side twice gives the side back.
pub proof fn lemma_neg_neg(s: HyperplaneSide)
    ensures
        s.spec_neg().spec_neg() == s,
        s.spec_neg() != s,
{
}

/// A coordinate axis.
#[derive(Copy, Clone, Debug, PartialEq, Eq, Structural)]
pub enum Axis {
    X,
    Y,
    Z,
}

impl Axis {
    /// The number of this value.
    pub open spec fn spec_code(self) -> u8 {
        match self {
            Axis::X => 0,
            Axis::Y => 1,
            Axis::Z => 2,
        }
    }

    /// The value with the given number, if there is one.
    pub open spec fn spec_from_u8(v: u8) -> Option<Axis> {
        match v {
            0 => Some(Axis::X),
            1 => Some(Axis::Y),
            2 => Some(Axis::Z),
            _ => None,
        }
    }

    /// The number of this value.
    pub fn code(self) -> (r: u8)
        ensures
            r == self.spec_code(),
    {
        match self {
            Axis::X => 0,
            Axis::Y => 1,
            Axis::Z => 2,
        }
    }

    /// The value with the given number, if there is one.
    pub fn from_u8(v: u8) -> (r: Option<Axis>)
        ensures
            r == Axis::spec_from_u8(v),
    {
        match v {
            0 => Some(Axis::X),
            1 => Some(Axis::Y),
            2 => Some(Axis::Z),
            _ => None,
        }
    }

    /// Reading back the number of a value gives the value.
    pub proof fn lemma_code_roundtrip(self)
        ensures
            Axis::spec_from_u8(self.spec_code()) == Some(self),
    {
    }
}
} // verus!
