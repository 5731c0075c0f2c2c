//! Nested messages of `gz.msgs.Material`.
pub mod pbr;

use vstd::prelude::*;

verus! {

/// The shader kind of a material.
#[derive(Clone, Copy, Debug, PartialEq, Eq, Structural, Hash, PartialOrd, Ord)]
pub enum ShaderType {
    Vertex,
    Pixel,
    NormalMapObjectSpace,
    NormalMapTangentSpace,
}

impl ShaderType {
    /// The wire number of this value.
    pub open spec fn code(self) -> i32 {
        match self {
            ShaderType::Vertex => 0,
            ShaderType::Pixel => 1,
            ShaderType::NormalMapObjectSpace => 2,
            ShaderType::NormalMapTangentSpace => 3,
        }
    }

    /// The value whose wire number is `value`, if any.
    pub open spec fn of_code(value: i32) -> Option<Self> {
        if value == 0 {
            Some(ShaderType::Vertex)
        } else if value == 1 {
            Some(ShaderType::Pixel)
        } else if value == 2 {
            Some(ShaderType::NormalMapObjectSpace)
        } else if value == 3 {
            Some(ShaderType::NormalMapTangentSpace)
        } else {
            None
        }
    }

    /// Returns `true` if `value` is the wire number of a variant.
    pub fn is_valid(value: i32) -> (b: bool)
        ensures
            b == Self::of_code(value) is Some,
    {
        0 <= value && value <= 3
    }

    /// Converts a wire number to a value, or `None` if no variant has it.
    pub fn from_i32(value: i32) -> (r: Option<Self>)
        ensures
            r == Self::of_code(value),
    {
        match value {
            0 => Some(ShaderType::Vertex),
            1 => Some(ShaderType::Pixel),
            2 => Some(ShaderType::NormalMapObjectSpace),
            3 => Some(ShaderType::NormalMapTangentSpace),
            _ => None,
        }
    }

    /// The wire number of this value.
    pub fn to_i32(self) -> (r: i32)
        ensures
            r == self.code(),
    {
        match self {
            ShaderType::Vertex => 0,
            ShaderType::Pixel => 1,
            ShaderType::NormalMapObjectSpace => 2,
            ShaderType::NormalMapTangentSpace => 3,
        }
    }

    /// Reading back a value's wire number gives the value; a wire number
    /// that reads as a value is that value's number.
    pub proof fn lemma_code_roundtrip(self, value: i32)
        ensures
            Self::of_code(self.code()) == Some(self),
            Self::of_code(value) matches Some(t) ==> t.code() == value,
    {
    }
}

impl Default for ShaderType {
    /// The first variant, `Vertex` (wire number 0).
    fn default() -> (r: Self)
        ensures
            r == ShaderType::Vertex,
    {
        ShaderType::Vertex
    }
}

/// A material script: its URIs and name.
#[derive(Clone, Debug, PartialEq, Default)]
pub struct Script {
    pub uri: Vec<String>,
    pub name: String,
}

/// Each variant has the wire number that gz.msgs assigns it, and exactly
/// the numbers 0 to 3 name a variant.
pub proof fn lemma_wire_numbers()
    ensures
        ShaderType::Vertex.code() == 0,
        ShaderType::Pixel.code() == 1,
        ShaderType::NormalMapObjectSpace.code() == 2,
        ShaderType::NormalMapTangentSpace.code() == 3,
        ShaderType::of_code(0) == Some(ShaderType::Vertex),
        ShaderType::of_code(1) == Some(ShaderType::Pixel),
        ShaderType::of_code(2) == Some(ShaderType::NormalMapObjectSpace),
        ShaderType::of_code(3) == Some(ShaderType::NormalMapTangentSpace),
        forall|value: i32| (value < 0 || value > 3) ==> ShaderType::of_code(value) is None,
{
}

} // verus!
