//! The failures the allocation protocol itself can diagnose.
//!
//! Failures to reach the counter directory, to take the lock or to write the
//! file are environmental and are reported by the caller that performs the
//! I/O; the two conditions here are decided by the allocation logic alone.

use vstd::prelude::*;

verus! {

/// An error found while allocating an identity for one declaration.
#[derive(Debug, Clone, Copy, PartialEq, Eq, Structural)]
pub enum AllocError {
    /// The persisted counter has exhausted the 64-bit range; no further base
    /// can be reserved from this directory.
    CounterOverflow,
    /// The declaration carries a const generic parameter, which the generator
    /// does not support.
    UnsupportedConstParam,
}

impl AllocError {
    /// The diagnostic shown when this error aborts a code-generation step,
    /// naming the recovery action available to the operator.
    pub fn diagnostic(&self) -> (r: &'static str)
        ensures
            self is CounterOverflow ==> r@ =~= "type id counter overflow: clear the build directory, or reduce the number of identified declarations"@,
            self is UnsupportedConstParam ==> r@ =~= "const generics are not supported yet"@,
    {
        match self {
            AllocError::CounterOverflow => "type id counter overflow: clear the build directory, or reduce the number of identified declarations",
            AllocError::UnsupportedConstParam => "const generics are not supported yet",
        }
    }
}

} // verus!
