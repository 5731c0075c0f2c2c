//! Light kinds of `gz.msgs.Light`.
use vstd::prelude::*;

verus! {

/// The kind of a light.
#[derive(Clone, Copy, Debug, PartialEq, Eq, Structural, Hash, PartialOrd, Ord)]
pub enum LightType {
    Point,
    Spot,
    Directional,
}

impl LightType {
    /// The wire number of this value.
    pub open spec fn code(self) -> i32 {
        match self {
            LightType::Point => 0,
            LightType::Spot => 1,
            LightType::Directional => 2,
        }
    }

    /// The value whose wire number is `value`, if any.
    pub open spec fn of_code(value: i32) -> Option<Self> {
        if value == 0 {
            Some(LightType::Point)
        } else if value == 1 {
            Some(LightType::Spot)
        } else if value == 2 {
            Some(LightType::Directional)
        } else {
            None
        }
    }

    /// Returns `true` if `value` is the wire number of a variant.
    pub fn is_valid(value: i32) -> (b: bool)
        ensures
            b == Self::of_code(value) is Some,
    {
        0 <= value && value <= 2
    }

    /// Converts a wire number to a value, or `None` if no variant has it.
    pub fn from_i32(value: i32) -> (r: Option<Self>)
        ensures
            r == Self::of_code(value),
    {
        match value {
            0 => Some(LightType::Point),
            1 => Some(LightType::Spot),
            2 => Some(LightType::Directional),
            _ => None,
        }
    }

    /// The wire number of this value.
    pub fn to_i32(self) -> (r: i32)
        ensures
            r == self.code(),
    {
        match self {
            LightType::Point => 0,
            LightType::Spot => 1,
            LightType::Directional => 2,
        }
    }

    /// Reading back a value's wire number gives the value; a wire number
    /// that reads as a value is that value's number.
    pub proof fn lemma_code_roundtrip(self, value: i32)
        ensures
            Self::of_code(self.code()) == Some(self),
            Self::of_code(value) matches Some(t) ==> t.code() == value,
    {
    }
}

impl Default for LightType {
    /// The first variant, `Point` (wire number 0).
    fn default() -> (r: Self)
        ensures
            r == LightType::Point,
    {
        LightType::Point
    }
}

/// Each variant has the wire number that gz.msgs assigns it, and exactly
/// the numbers 0 to 2 name a variant.
pub proof fn lemma_wire_numbers()
    ensures
        LightType::Point.code() == 0,
        LightType::Spot.code() == 1,
        LightType::Directional.code() == 2,
        LightType::of_code(0) == Some(LightType::Point),
        LightType::of_code(1) == Some(LightType::Spot),
        LightType::of_code(2) == Some(LightType::Directional),
        forall|value: i32| (value < 0 || value > 2) ==> LightType::of_code(value) is None,
{
}

} // verus!
