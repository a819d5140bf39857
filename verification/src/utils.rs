//! Small helper values shared by the launcher and its callers.

use vstd::prelude::*;

verus! {

/// A request to terminate the process with this status code and no message:
/// the child ran and exited on its own terms, so nothing is an error worth
/// reporting.
#[derive(Clone, Copy, Debug)]
pub struct QuietExit(pub i32);

impl QuietExit {
    /// The status code the process should exit with.
    pub fn code(&self) -> (r: i32)
        ensures
            r == self.0,
    {
        self.0
    }
}

} // verus!
