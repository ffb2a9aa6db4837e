//! Reading the answer to a webhook creation where only its success matters.
use vstd::prelude::*;

verus! {

/// Why a webhook could not be created.
#[derive(Clone, Copy, Debug, PartialEq, Eq, Structural)]
pub enum HookError {
    /// Unknown error
    Unknown,
    /// The hook already exists
    AlreadyExists,
}

impl HookError {
    pub open spec fn spec_message(self) -> Seq<char> {
        match self {
            HookError::Unknown => "Unknown error"@,
            HookError::AlreadyExists => "The hook already exists"@,
        }
    }

    /// A one-line description of the error.
    pub fn message(&self) -> (r: &'static str)
        ensures
            r@ == self.spec_message(),
    {
        match self {
            HookError::Unknown => "Unknown error",
            HookError::AlreadyExists => "The hook already exists",
        }
    }
}

/// Reads the status code of the answer to a webhook creation: 201 is success,
/// 422 means that the hook exists already, anything else is unknown.
pub fn check_created(status: u16) -> (r: Result<(), HookError>)
    ensures
        status == 201 ==> r == Ok::<(), HookError>(()),
        status == 422 ==> r == Err::<(), HookError>(HookError::AlreadyExists),
        status != 201 && status != 422 ==> r == Err::<(), HookError>(HookError::Unknown),
{
    if status == 201 {
        Ok(())
    } else if status == 422 {
        Err(HookError::AlreadyExists)
    } else {
        Err(HookError::Unknown)
    }
}

} // verus!
