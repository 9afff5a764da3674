//! Reading the memory of a running process, as raw bytes or as fixed-width
//! little-endian unsigned integers.
//!
//! A request names a process identifier, a virtual address in that process
//! and a count. The process is resolved to a handle, the bytes are copied in
//! one read, and, where a width is given, consecutive windows of that many
//! bytes are assembled into one value each. Every request stands alone: the
//! handle lives for one read and nothing is kept between calls.
use vstd::prelude::*;

pub mod assemble;
pub mod error;
pub mod process;
pub mod read;
pub mod width;

pub use crate::assemble::{byte_vec_to_value_vec, bytes_to_num};
pub use crate::error::ReadError;
pub use crate::read::{read_memory, read_memory_with_data_size};
pub use crate::width::{data_type_size_table, DataTypeSize};

verus! {

/// Number of bits that one byte contributes to an assembled value.
pub const BITS_IN_BYTE: usize = 8;

} // verus!
