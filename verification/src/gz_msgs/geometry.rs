//! Geometry kinds of `gz.msgs.Geometry`.
use vstd::prelude::*;

verus! {

/// The shape kind of a geometry.
#[derive(Clone, Copy, Debug, PartialEq, Eq, Structural, Hash, PartialOrd, Ord)]
pub enum Type {
    Box,
    Cylinder,
    Sphere,
    Plane,
    Image,
    Heightmap,
    Mesh,
    TriangleFan,
    LineStrip,
    Polyline,
    Cone,
    Empty,
    Arrow,
    Axis,
    Capsule,
    Ellipsoid,
}

impl Type {
    /// The wire number of this value.
    pub open spec fn code(self) -> i32 {
        match self {
            Type::Box => 0,
            Type::Cylinder => 1,
            Type::Sphere => 2,
            Type::Plane => 3,
            Type::Image => 4,
            Type::Heightmap => 5,
            Type::Mesh => 6,
            Type::TriangleFan => 7,
            Type::LineStrip => 8,
            Type::Polyline => 9,
            Type::Cone => 10,
            Type::Empty => 11,
            Type::Arrow => 12,
            Type::Axis => 13,
            Type::Capsule => 14,
            Type::Ellipsoid => 15,
        }
    }

    /// The value whose wire number is `value`, if any.
    pub open spec fn of_code(value: i32) -> Option<Self> {
        if value == 0 {
            Some(Type::Box)
        } else if value == 1 {
            Some(Type::Cylinder)
        } else if value == 2 {
            Some(Type::Sphere)
        } else if value == 3 {
            Some(Type::Plane)
        } else if value == 4 {
            Some(Type::Image)
        } else if value == 5 {
            Some(Type::Heightmap)
        } else if value == 6 {
            Some(Type::Mesh)
        } else if value == 7 {
            Some(Type::TriangleFan)
        } else if value == 8 {
            Some(Type::LineStrip)
        } else if value == 9 {
            Some(Type::Polyline)
        } else if value == 10 {
            Some(Type::Cone)
        } else if value == 11 {
            Some(Type::Empty)
        } else if value == 12 {
            Some(Type::Arrow)
        } else if value == 13 {
            Some(Type::Axis)
        } else if value == 14 {
            Some(Type::Capsule)
        } else if value == 15 {
            Some(Type::Ellipsoid)
        } else {
            None
        }
    }

    /// Returns `true` if `value` is the wire number of a variant.
    pub fn is_valid(value: i32) -> (b: bool)
        ensures
            b == Self::of_code(value) is Some,
    {
        0 <= value && value <= 15
    }

    /// Converts a wire number to a value, or `None` if no variant has it.
    pub fn from_i32(value: i32) -> (r: Option<Self>)
        ensures
            r == Self::of_code(value),
    {
        match value {
            0 => Some(Type::Box),
            1 => Some(Type::Cylinder),
            2 => Some(Type::Sphere),
            3 => Some(Type::Plane),
            4 => Some(Type::Image),
            5 => Some(Type::Heightmap),
            6 => Some(Type::Mesh),
            7 => Some(Type::TriangleFan),
            8 => Some(Type::LineStrip),
            9 => Some(Type::Polyline),
            10 => Some(Type::Cone),
            11 => Some(Type::Empty),
            12 => Some(Type::Arrow),
            13 => Some(Type::Axis),
            14 => Some(Type::Capsule),
            15 => Some(Type::Ellipsoid),
            _ => None,
        }
    }

    /// The wire number of this value.
    pub fn to_i32(self) -> (r: i32)
        ensures
            r == self.code(),
    {
        match self {
            Type::Box => 0,
            Type::Cylinder => 1,
            Type::Sphere => 2,
            Type::Plane => 3,
            Type::Image => 4,
            Type::Heightmap => 5,
            Type::Mesh => 6,
            Type::TriangleFan => 7,
            Type::LineStrip => 8,
            Type::Polyline => 9,
            Type::Cone => 10,
            Type::Empty => 11,
            Type::Arrow => 12,
            Type::Axis => 13,
            Type::Capsule => 14,
            Type::Ellipsoid => 15,
        }
    }

    /// Reading back a value's wire number gives the value; a wire number
    /// that reads as a value is that value's number.
    pub proof fn lemma_code_roundtrip(self, value: i32)
        ensures
            Self::of_code(self.code()) == Some(self),
            Self::of_code(value) matches Some(t) ==> t.code() == value,
    {
    }
}

impl Default for Type {
    /// The first variant, `Box` (wire number 0).
    fn default() -> (r: Self)
        ensures
            r == Type::Box,
    {
        Type::Box
    }
}

/// Each variant has the wire number that gz.msgs assigns it, and exactly
/// the numbers 0 to 15 name a variant.
pub proof fn lemma_wire_numbers()
    ensures
        Type::Box.code() == 0,
        Type::Cylinder.code() == 1,
        Type::Sphere.code() == 2,
        Type::Plane.code() == 3,
        Type::Image.code() == 4,
        Type::Heightmap.code() == 5,
        Type::Mesh.code() == 6,
        Type::TriangleFan.code() == 7,
        Type::LineStrip.code() == 8,
        Type::Polyline.code() == 9,
        Type::Cone.code() == 10,
        Type::Empty.code() == 11,
        Type::Arrow.code() == 12,
        Type::Axis.code() == 13,
        Type::Capsule.code() == 14,
        Type::Ellipsoid.code() == 15,
        Type::of_code(0) == Some(Type::Box),
        Type::of_code(1) == Some(Type::Cylinder),
        Type::of_code(2) == Some(Type::Sphere),
        Type::of_code(3) == Some(Type::Plane),
        Type::of_code(4) == Some(Type::Image),
        Type::of_code(5) == Some(Type::Heightmap),
        Type::of_code(6) == Some(Type::Mesh),
        Type::of_code(7) == Some(Type::TriangleFan),
        Type::of_code(8) == Some(Type::LineStrip),
        Type::of_code(9) == Some(Type::Polyline),
        Type::of_code(10) == Some(Type::Cone),
        Type::of_code(11) == Some(Type::Empty),
        Type::of_code(12) == Some(Type::Arrow),
        Type::of_code(13) == Some(Type::Axis),
        Type::of_code(14) == Some(Type::Capsule),
        Type::of_code(15) == Some(Type::Ellipsoid),
        forall|value: i32| (value < 0 || value > 15) ==> Type::of_code(value) is None,
{
}

} // verus!
