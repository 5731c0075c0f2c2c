//! Joint kinds of `gz.msgs.Joint`.
use vstd::prelude::*;

verus! {

/// The kind of a joint.
#[derive(Clone, Copy, Debug, PartialEq, Eq, Structural, Hash, PartialOrd, Ord)]
pub enum Type {
    Revolute,
    Revolute2,
    Prismatic,
    Universal,
    Ball,
    Screw,
    Gearbox,
    Fixed,
    Continuous,
}

impl Type {
    /// The wire number of this value.
    pub open spec fn code(self) -> i32 {
        match self {
            Type::Revolute => 0,
            Type::Revolute2 => 1,
            Type::Prismatic => 2,
            Type::Universal => 3,
            Type::Ball => 4,
            Type::Screw => 5,
            Type::Gearbox => 6,
            Type::Fixed => 7,
            Type::Continuous => 8,
        }
    }

    /// The value whose wire number is `value`, if any.
    pub open spec fn of_code(value: i32) -> Option<Self> {
        if value == 0 {
            Some(Type::Revolute)
        } else if value == 1 {
            Some(Type::Revolute2)
        } else if value == 2 {
            Some(Type::Prismatic)
        } else if value == 3 {
            Some(Type::Universal)
        } else if value == 4 {
            Some(Type::Ball)
        } else if value == 5 {
            Some(Type::Screw)
        } else if value == 6 {
            Some(Type::Gearbox)
        } else if value == 7 {
            Some(Type::Fixed)
        } else if value == 8 {
            Some(Type::Continuous)
        } else {
            None
        }
    }

    /// Returns `true` if `value` is the wire number of a variant.
    pub fn is_valid(value: i32) -> (b: bool)
        ensures
            b == Self::of_code(value) is Some,
    {
        0 <= value && value <= 8
    }

    /// Converts a wire number to a value, or `None` if no variant has it.
    pub fn from_i32(value: i32) -> (r: Option<Self>)
        ensures
            r == Self::of_code(value),
    {
        match value {
            0 => Some(Type::Revolute),
            1 => Some(Type::Revolute2),
            2 => Some(Type::Prismatic),
            3 => Some(Type::Universal),
            4 => Some(Type::Ball),
            5 => Some(Type::Screw),
            6 => Some(Type::Gearbox),
            7 => Some(Type::Fixed),
            8 => Some(Type::Continuous),
            _ => None,
        }
    }

    /// The wire number of this value.
    pub fn to_i32(self) -> (r: i32)
        ensures
            r == self.code(),
    {
        match self {
            Type::Revolute => 0,
            Type::Revolute2 => 1,
            Type::Prismatic => 2,
            Type::Universal => 3,
            Type::Ball => 4,
            Type::Screw => 5,
            Type::Gearbox => 6,
            Type::Fixed => 7,
            Type::Continuous => 8,
        }
    }

    /// Reading back a value's wire number gives the value; a wire number
    /// that reads as a value is that value's number.
    pub proof fn lemma_code_roundtrip(self, value: i32)
        ensures
            Self::of_code(self.code()) == Some(self),
            Self::of_code(value) matches Some(t) ==> t.code() == value,
    {
    }
}

impl Default for Type {
    /// The first variant, `Revolute` (wire number 0).
    fn default() -> (r: Self)
        ensures
            r == Type::Revolute,
    {
        Type::Revolute
    }
}

/// Each variant has the wire number that gz.msgs assigns it, and exactly
/// the numbers 0 to 8 name a variant.
pub proof fn lemma_wire_numbers()
    ensures
        Type::Revolute.code() == 0,
        Type::Revolute2.code() == 1,
        Type::Prismatic.code() == 2,
        Type::Universal.code() == 3,
        Type::Ball.code() == 4,
        Type::Screw.code() == 5,
        Type::Gearbox.code() == 6,
        Type::Fixed.code() == 7,
        Type::Continuous.code() == 8,
        Type::of_code(0) == Some(Type::Revolute),
        Type::of_code(1) == Some(Type::Revolute2),
        Type::of_code(2) == Some(Type::Prismatic),
        Type::of_code(3) == Some(Type::Universal),
        Type::of_code(4) == Some(Type::Ball),
        Type::of_code(5) == Some(Type::Screw),
        Type::of_code(6) == Some(Type::Gearbox),
        Type::of_code(7) == Some(Type::Fixed),
        Type::of_code(8) == Some(Type::Continuous),
        forall|value: i32| (value < 0 || value > 8) ==> Type::of_code(value) is None,
{
}

} // verus!
