//! Socket-activation helper library: parse textual socket specifications into
//! typed descriptors, create the matching bound (and, where applicable,
//! listening) OS sockets, and prepare the environment a child process needs to
//! adopt those handles.

use vstd::prelude::*;

pub mod addr;
pub mod fd;
pub mod laws;
pub mod num;
pub mod osapi;
pub mod spawn;
mod utils;

pub use utils::QuietExit;

verus! {

/// An OS-level failure: the errno of the syscall that failed, with a
/// human-readable message.
#[derive(Debug)]
pub struct OsErr {
    pub code: i32,
    pub msg: String,
}

impl OsErr {
    /// Builds an error value from an errno and its description.
    pub fn new(code: i32, msg: String) -> (r: OsErr)
        ensures
            r.code == code,
            r.msg == msg,
    {
        OsErr { code, msg }
    }
}

} // verus!
