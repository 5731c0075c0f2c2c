//! Nested messages of `gz.msgs.Visual`.
use vstd::prelude::*;

verus! {

/// Visual metadata.
#[derive(Clone, Debug, PartialEq, Default)]
pub struct Meta {
    pub layer: i32,
}

/// The kind of entity a visual belongs to.
#[derive(Clone, Copy, Debug, PartialEq, Eq, Structural, Hash, PartialOrd, Ord)]
pub enum Type {
    Entity,
    Model,
    Link,
    Visual,
    Collision,
    Sensor,
    Gui,
    Physics,
}

impl Type {
    /// The wire number of this value.
    pub open spec fn code(self) -> i32 {
        match self {
            Type::Entity => 0,
            Type::Model => 1,
            Type::Link => 2,
            Type::Visual => 3,
            Type::Collision => 4,
            Type::Sensor => 5,
            Type::Gui => 6,
            Type::Physics => 7,
        }
    }

    /// The value whose wire number is `value`, if any.
    pub open spec fn of_code(value: i32) -> Option<Self> {
        if value == 0 {
            Some(Type::Entity)
        } else if value == 1 {
            Some(Type::Model)
        } else if value == 2 {
            Some(Type::Link)
        } else if value == 3 {
            Some(Type::Visual)
        } else if value == 4 {
            Some(Type::Collision)
        } else if value == 5 {
            Some(Type::Sensor)
        } else if value == 6 {
            Some(Type::Gui)
        } else if value == 7 {
            Some(Type::Physics)
        } else {
            None
        }
    }

    /// Returns `true` if `value` is the wire number of a variant.
    pub fn is_valid(value: i32) -> (b: bool)
        ensures
            b == Self::of_code(value) is Some,
    {
        0 <= value && value <= 7
    }

    /// Converts a wire number to a value, or `None` if no variant has it.
    pub fn from_i32(value: i32) -> (r: Option<Self>)
        ensures
            r == Self::of_code(value),
    {
        match value {
            0 => Some(Type::Entity),
            1 => Some(Type::Model),
            2 => Some(Type::Link),
            3 => Some(Type::Visual),
            4 => Some(Type::Collision),
            5 => Some(Type::Sensor),
            6 => Some(Type::Gui),
            7 => Some(Type::Physics),
            _ => None,
        }
    }

    /// The wire number of this value.
    pub fn to_i32(self) -> (r: i32)
        ensures
            r == self.code(),
    {
        match self {
            Type::Entity => 0,
            Type::Model => 1,
            Type::Link => 2,
            Type::Visual => 3,
            Type::Collision => 4,
            Type::Sensor => 5,
            Type::Gui => 6,
            Type::Physics => 7,
        }
    }

    /// Reading back a value's wire number gives the value; a wire number
    /// that reads as a value is that value's number.
    pub proof fn lemma_code_roundtrip(self, value: i32)
        ensures
            Self::of_code(self.code()) == Some(self),
            Self::of_code(value) matches Some(t) ==> t.code() == value,
    {
    }
}

impl Default for Type {
    /// The first variant, `Entity` (wire number 0).
    fn default() -> (r: Self)
        ensures
            r == Type::Entity,
    {
        Type::Entity
    }
}

/// Each variant has the wire number that gz.msgs assigns it, and exactly
/// the numbers 0 to 7 name a variant.
pub proof fn lemma_wire_numbers()
    ensures
        Type::Entity.code() == 0,
        Type::Model.code() == 1,
        Type::Link.code() == 2,
        Type::Visual.code() == 3,
        Type::Collision.code() == 4,
        Type::Sensor.code() == 5,
        Type::Gui.code() == 6,
        Type::Physics.code() == 7,
        Type::of_code(0) == Some(Type::Entity),
        Type::of_code(1) == Some(Type::Model),
        Type::of_code(2) == Some(Type::Link),
        Type::of_code(3) == Some(Type::Visual),
        Type::of_code(4) == Some(Type::Collision),
        Type::of_code(5) == Some(Type::Sensor),
        Type::of_code(6) == Some(Type::Gui),
        Type::of_code(7) == Some(Type::Physics),
        forall|value: i32| (value < 0 || value > 7) ==> Type::of_code(value) is None,
{
}

} // verus!
