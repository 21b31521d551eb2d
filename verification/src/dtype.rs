//! The numeric types a tensor can be tagged with.

use vstd::prelude::*;

verus! {

/// The numeric element type a tensor is tagged with.
#[derive(Copy, Clone, Debug, PartialEq, Eq, Structural)]
pub enum DataType {
    Float32,
    Float64,
    Int32,
    Int64,
}

impl DataType {
    pub open spec fn spec_size_in_bytes(self) -> nat {
        match self {
            DataType::Float32 => 4,
            DataType::Float64 => 8,
            DataType::Int32 => 4,
            DataType::Int64 => 8,
        }
    }

    /// Width of one element in bytes.
    pub fn size_in_bytes(&self) -> (r: usize)
        ensures
            r == self.spec_size_in_bytes(),
    {
        match self {
            DataType::Float32 => 4,
            DataType::Float64 => 8,
            DataType::Int32 => 4,
            DataType::Int64 => 8,
        }
    }
}

impl Default for DataType {
    fn default() -> (r: Self)
        ensures
            r == DataType::Float32,
    {
        DataType::Float32
    }
}

} // verus!
