//! Checks at the boundary to native code: a condition that must hold, and
//! the violation that is reported when it does not.

use vstd::prelude::*;

verus! {

/// A violated contract: what was violated, and where.
#[derive(Debug, Clone, Copy, PartialEq, Eq)]
pub struct ContractViolation {
    pub message: &'static str,
    pub location: &'static str,
}

/// The result of an operation that checks a contract.
pub type ContractResult<T> = Result<T, ContractViolation>;

/// Types whose values can be handed to native code.
pub trait FfiSafe: Sized {
    /// Checks that this value can be handed to native code.
    fn validate(&self) -> ContractResult<()>;
}

/// Types whose values can be sent to a GPU.
pub trait GpuSafe: FfiSafe {

}

/// Types whose values can be used on assembly paths.
pub trait AsmSafe: FfiSafe {

}

/// Checks a condition that must hold before an operation.
pub fn require(condition: bool, message: &'static str, location: &'static str) -> (r:
    ContractResult<()>)
    ensures
        condition ==> r is Ok,
        !condition ==> r == Err::<(), ContractViolation>(ContractViolation { message, location }),
{
    if condition {
        Ok(())
    } else {
        Err(ContractViolation { message, location })
    }
}

/// Checks a condition that must hold after an operation.
pub fn ensure(condition: bool, message: &'static str, location: &'static str) -> (r:
    ContractResult<()>)
    ensures
        condition ==> r is Ok,
        !condition ==> r == Err::<(), ContractViolation>(ContractViolation { message, location }),
{
    require(condition, message, location)
}

} // verus!
