//! PBR workflows of `gz.msgs.Material.PBR`.
use vstd::prelude::*;

verus! {

/// The PBR workflow.
#[derive(Clone, Copy, Debug, PartialEq, Eq, Structural, Hash, PartialOrd, Ord)]
pub enum WorkflowType {
    NoWorkflow,
    Metal,
    Specular,
}

impl WorkflowType {
    /// The wire number of this value.
    pub open spec fn code(self) -> i32 {
        match self {
            WorkflowType::NoWorkflow => 0,
            WorkflowType::Metal => 1,
            WorkflowType::Specular => 2,
        }
    }

    /// The value whose wire number is `value`, if any.
    pub open spec fn of_code(value: i32) -> Option<Self> {
        if value == 0 {
            Some(WorkflowType::NoWorkflow)
        } else if value == 1 {
            Some(WorkflowType::Metal)
        } else if value == 2 {
            Some(WorkflowType::Specular)
        } else {
            None
        }
    }

    /// Returns `true` if `value` is the wire number of a variant.
    pub fn is_valid(value: i32) -> (b: bool)
        ensures
            b == Self::of_code(value) is Some,
    {
        0 <= value && value <= 2
    }

    /// Converts a wire number to a value, or `None` if no variant has it.
    pub fn from_i32(value: i32) -> (r: Option<Self>)
        ensures
            r == Self::of_code(value),
    {
        match value {
            0 => Some(WorkflowType::NoWorkflow),
            1 => Some(WorkflowType::Metal),
            2 => Some(WorkflowType::Specular),
            _ => None,
        }
    }

    /// The wire number of this value.
    pub fn to_i32(self) -> (r: i32)
        ensures
            r == self.code(),
    {
        match self {
            WorkflowType::NoWorkflow => 0,
            WorkflowType::Metal => 1,
            WorkflowType::Specular => 2,
        }
    }

    /// Reading back a value's wire number gives the value; a wire number
    /// that reads as a value is that value's number.
    pub proof fn lemma_code_roundtrip(self, value: i32)
        ensures
            Self::of_code(self.code()) == Some(self),
            Self::of_code(value) matches Some(t) ==> t.code() == value,
    {
    }
}

impl Default for WorkflowType {
    /// The first variant, `NoWorkflow` (wire number 0).
    fn default() -> (r: Self)
        ensures
            r == WorkflowType::NoWorkflow,
    {
        WorkflowType::NoWorkflow
    }
}

/// Each variant has the wire number that gz.msgs assigns it, and exactly
/// the numbers 0 to 2 name a variant.
pub proof fn lemma_wire_numbers()
    ensures
        WorkflowType::NoWorkflow.code() == 0,
        WorkflowType::Metal.code() == 1,
        WorkflowType::Specular.code() == 2,
        WorkflowType::of_code(0) == Some(WorkflowType::NoWorkflow),
        WorkflowType::of_code(1) == Some(WorkflowType::Metal),
        WorkflowType::of_code(2) == Some(WorkflowType::Specular),
        forall|value: i32| (value < 0 || value > 2) ==> WorkflowType::of_code(value) is None,
{
}

} // verus!
