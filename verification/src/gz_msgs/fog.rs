//! Fog kinds of `gz.msgs.Fog`.
use vstd::prelude::*;

verus! {

/// The kind of fog.
#[derive(Clone, Copy, Debug, PartialEq, Eq, Structural, Hash, PartialOrd, Ord)]
pub enum FogType {
    NoFog,
    Linear,
    Exponential,
    Exponential2,
}

impl FogType {
    /// The wire number of this value.
    pub open spec fn code(self) -> i32 {
        match self {
            FogType::NoFog => 0,
            FogType::Linear => 1,
            FogType::Exponential => 2,
            FogType::Exponential2 => 3,
        }
    }

    /// The value whose wire number is `value`, if any.
    pub open spec fn of_code(value: i32) -> Option<Self> {
        if value == 0 {
            Some(FogType::NoFog)
        } else if value == 1 {
            Some(FogType::Linear)
        } else if value == 2 {
            Some(FogType::Exponential)
        } else if value == 3 {
            Some(FogType::Exponential2)
        } else {
            None
        }
    }

    /// Returns `true` if `value` is the wire number of a variant.
    pub fn is_valid(value: i32) -> (b: bool)
        ensures
            b == Self::of_code(value) is Some,
    {
        0 <= value && value <= 3
    }

    /// Converts a wire number to a value, or `None` if no variant has it.
    pub fn from_i32(value: i32) -> (r: Option<Self>)
        ensures
            r == Self::of_code(value),
    {
        match value {
            0 => Some(FogType::NoFog),
            1 => Some(FogType::Linear),
            2 => Some(FogType::Exponential),
            3 => Some(FogType::Exponential2),
            _ => None,
        }
    }

    /// The wire number of this value.
    pub fn to_i32(self) -> (r: i32)
        ensures
            r == self.code(),
    {
        match self {
            FogType::NoFog => 0,
            FogType::Linear => 1,
            FogType::Exponential => 2,
            FogType::Exponential2 => 3,
        }
    }

    /// Reading back a value's wire number gives the value; a wire number
    /// that reads as a value is that value's number.
    pub proof fn lemma_code_roundtrip(self, value: i32)
        ensures
            Self::of_code(self.code()) == Some(self),
            Self::of_code(value) matches Some(t) ==> t.code() == value,
    {
    }
}

impl Default for FogType {
    /// The first variant, `NoFog` (wire number 0).
    fn default() -> (r: Self)
        ensures
            r == FogType::NoFog,
    {
        FogType::NoFog
    }
}

/// Each variant has the wire number that gz.msgs assigns it, and exactly
/// the numbers 0 to 3 name a variant.
pub proof fn lemma_wire_numbers()
    ensures
        FogType::NoFog.code() == 0,
        FogType::Linear.code() == 1,
        FogType::Exponential.code() == 2,
        FogType::Exponential2.code() == 3,
        FogType::of_code(0) == Some(FogType::NoFog),
        FogType::of_code(1) == Some(FogType::Linear),
        FogType::of_code(2) == Some(FogType::Exponential),
        FogType::of_code(3) == Some(FogType::Exponential2),
        forall|value: i32| (value < 0 || value > 3) ==> FogType::of_code(value) is None,
{
}

} // verus!
