use vstd::prelude::*;

verus! {

/// Failures of memory allocation.
#[derive(Debug, Clone, Copy, PartialEq, Eq, Structural)]
pub enum AllocError {
    OutOfMemory,
    InvalidLayout,
    NullPointer,
    StringConversionError,
}

impl AllocError {
    /// The message that describes the failure.
    pub fn message(&self) -> (r: &'static str)
        ensures
            r@ == match self {
                AllocError::OutOfMemory => "Out of memory"@,
                AllocError::InvalidLayout => "Invalid memory layout"@,
                AllocError::NullPointer => "Null pointer returned"@,
                AllocError::StringConversionError => "String conversion error"@,
            },
    {
        match self {
            AllocError::OutOfMemory => {
                proof { reveal_strlit("Out of memory"); }
                "Out of memory"
            },
            AllocError::InvalidLayout => {
                proof { reveal_strlit("Invalid memory layout"); }
                "Invalid memory layout"
            },
            AllocError::NullPointer => {
                proof { reveal_strlit("Null pointer returned"); }
                "Null pointer returned"
            },
            AllocError::StringConversionError => {
                proof { reveal_strlit("String conversion error"); }
                "String conversion error"
            },
        }
    }
}

} // verus!
