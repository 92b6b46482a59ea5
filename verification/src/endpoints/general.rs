//! Answers that say no more than whether an operation went through.

use vstd::prelude::*;

verus! {

/// Whether an operation went through.
#[derive(Debug, Clone, Copy, PartialEq, Eq, Structural)]
pub struct SuccessFailResponse {
    pub success: bool,
}

impl SuccessFailResponse {
    /// The answer to an operation that went through (`done`) or did not.
    pub fn of(done: bool) -> (r: SuccessFailResponse)
        ensures
            r.success == done,
    {
        SuccessFailResponse { success: done }
    }
}

/// The answer of the health check: the service is up.
pub fn index() -> (r: SuccessFailResponse)
    ensures
        r.success,
{
    SuccessFailResponse::of(true)
}

} // verus!
