//! The operating system's side of a read: a handle for a process, and the
//! copy of a range of its memory. Nothing in this file is proved; each item
//! says what it takes on trust.
use vstd::prelude::*;

use read_process_memory::{Pid, ProcessHandle};

verus! {

/// `read_process_memory::ProcessHandle`: the system's capability to read one
/// process. Nothing is known of what it holds.
#[verifier::external_type_specification]
#[verifier::external_body]
pub struct ExProcessHandle(ProcessHandle);

/// `std::io::Error`: what the system reports when it refuses. Nothing is
/// known of what it holds.
#[verifier::external_type_specification]
#[verifier::external_body]
pub struct ExIoError(std::io::Error);

/// `ProcessHandle::try_from(pid)`. Whether the system grants a handle
/// depends on the system and on the processes that run, so nothing is
/// claimed of the outcome.
#[verifier::external_body]
pub(crate) fn pid_to_handle(pid: Pid) -> (opened: Result<ProcessHandle, std::io::Error>) {
    ProcessHandle::try_from(pid)
}

/// `read_process_memory::copy_address`. It allocates `length` zeroed bytes,
/// has the system fill them from `address` in the process of `handle`, and
/// returns that buffer only if the system filled all of it; so a successful
/// copy has exactly `length` bytes. The allocation panics beyond
/// `isize::MAX` bytes, which `requires` leaves out. Which bytes come back,
/// and whether any do, depends on the other process.
#[verifier::external_body]
pub(crate) fn copy_address(address: usize, length: usize, handle: &ProcessHandle) -> (copied:
    Result<Vec<u8>, std::io::Error>)
    requires
        length <= isize::MAX,
    ensures
        copied is Ok ==> copied->Ok_0@.len() == length,
{
    read_process_memory::copy_address(address, length, handle)
}

/// `std::io::Error`'s `to_string`: the system's words for the error. They
/// vary with the system, so nothing is claimed of them.
#[verifier::external_body]
pub(crate) fn error_text(error: &std::io::Error) -> (text: String) {
    error.to_string()
}

} // verus!
