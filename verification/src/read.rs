//! The two read requests: raw bytes, and values of a given width.
use vstd::prelude::*;
use vstd::string::StringExecFns;

use read_process_memory::{Pid, ProcessHandle};

use crate::assemble::{assembled, byte_vec_to_value_vec};
use crate::error::ReadError;
use crate::process::{copy_address, error_text, pid_to_handle};

verus! {

/// Whether a process identifier fits the system's own identifier type.
pub open spec fn fits_native(pid: usize) -> bool {
    pid <= Pid::MAX
}

/// The cause that is reported for an identifier that does not fit.
pub open spec fn pid_not_found_text() -> Seq<char> {
    "pid not found"@
}

/// What a request makes of the system's answer to the request for a handle:
/// the handle itself, or a process that was not found.
pub fn handle_or_not_found(opened: Result<ProcessHandle, std::io::Error>) -> (handle: Result<
    ProcessHandle,
    ReadError,
>)
    ensures
        match opened {
            Ok(granted) => handle == Ok::<ProcessHandle, ReadError>(granted),
            Err(_) => handle is Err && handle->Err_0 is ProcessNotFound,
        },
{
    match opened {
        Ok(granted) => Ok(granted),
        Err(error) => Err(ReadError::ProcessNotFound(error_text(&error))),
    }
}

/// What a request makes of the system's answer to a copy: all the bytes, or
/// a memory access that failed. There is nothing in between.
pub fn bytes_or_access_error(copied: Result<Vec<u8>, std::io::Error>) -> (memory: Result<
    Vec<u8>,
    ReadError,
>)
    ensures
        match copied {
            Ok(bytes) => memory == Ok::<Vec<u8>, ReadError>(bytes),
            Err(_) => memory is Err && memory->Err_0 is MemoryAccess,
        },
{
    match copied {
        Ok(bytes) => Ok(bytes),
        Err(error) => Err(ReadError::MemoryAccess(error_text(&error))),
    }
}

/// Reads `length` bytes at `address` in the process `pid`.
///
/// An identifier that does not fit the system's type is not found, whatever
/// else is asked. A request for no bytes is then answered with no bytes and
/// without a word to the system. Any other request opens a handle, copies
/// once and lets the handle go: it gives all `length` bytes or fails.
pub fn read_memory(pid: usize, address: usize, length: usize) -> (memory: Result<
    Vec<u8>,
    ReadError,
>)
    requires
        length <= isize::MAX,
    ensures
        !fits_native(pid) ==> memory is Err && memory->Err_0 is ProcessNotFound
            && memory->Err_0.cause_text() == pid_not_found_text(),
        fits_native(pid) && length == 0 ==> memory is Ok,
        memory is Ok ==> memory->Ok_0@.len() == length,
        memory is Err ==> memory->Err_0 is ProcessNotFound || memory->Err_0 is MemoryAccess,
{
    let native: Pid = match Pid::try_from(pid) {
        Ok(native) => native,
        Err(_) => {
            return Err(ReadError::ProcessNotFound(String::from_str("pid not found")));
        },
    };
    if length == 0 {
        return Ok(Vec::new());
    }
    let handle = handle_or_not_found(pid_to_handle(native))?;
    bytes_or_access_error(copy_address(address, length, &handle))
}

/// Reads `length` values of `data_size` bytes each at `address` in the
/// process `pid`: `length * data_size` bytes in one read, then one value for
/// each window of `data_size` bytes, the first byte least significant.
pub fn read_memory_with_data_size(
    pid: usize,
    address: usize,
    length: usize,
    data_size: usize,
) -> (values: Result<Vec<u32>, ReadError>)
    requires
        1 <= data_size <= 4,
        length * data_size <= isize::MAX,
    ensures
        !fits_native(pid) ==> values is Err && values->Err_0 is ProcessNotFound
            && values->Err_0.cause_text() == pid_not_found_text(),
        fits_native(pid) && length == 0 ==> values is Ok,
        values is Ok ==> values->Ok_0@.len() == length && exists|bytes: Seq<u8>|
            bytes.len() == length * data_size && values->Ok_0@ == #[trigger] assembled(
                bytes,
                data_size as nat,
            ),
        values is Err ==> values->Err_0 is ProcessNotFound || values->Err_0 is MemoryAccess,
{
    let total_data_size: usize = length * data_size;
    let memory = read_memory(pid, address, total_data_size)?;
    proof {
        vstd::arithmetic::div_mod::lemma_fundamental_div_mod_converse(
            memory@.len() as int,
            data_size as int,
            length as int,
            0,
        );
    }
    byte_vec_to_value_vec(memory.as_slice(), data_size)
}

} // verus!
