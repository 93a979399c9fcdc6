//! Status codes of the editor's calls.

use vstd::prelude::*;

verus! {

/// A failed call, by the operating system's error number that it returned.
#[derive(Debug, Clone, Copy, PartialEq, Eq, Structural)]
pub struct Errno {
    pub code: i32,
}

/// What a status code means, as a value: 0 is success, anything else is the
/// error of that number.
pub open spec fn status_result(status: i32) -> Result<(), Errno> {
    if status == 0 {
        Ok(())
    } else {
        Err(Errno { code: status })
    }
}

/// Turns the status code of a call into its result.
pub fn check_status(status: i32) -> (result: Result<(), Errno>)
    ensures
        result == status_result(status),
{
    if status == 0 {
        Ok(())
    } else {
        Err(Errno { code: status })
    }
}

} // verus!
