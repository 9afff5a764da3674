//! The widths at which values are decoded, by name.
use vstd::prelude::*;

verus! {

/// A width of decoded values: 8, 16 or 32 bits.
#[derive(Debug, Clone, Copy, PartialEq, Eq, Structural)]
pub enum DataTypeSize {
    B8,
    B16,
    B32,
}

impl DataTypeSize {
    /// The number of bytes that one value of this width takes.
    pub open spec fn bytes(&self) -> nat {
        match self {
            DataTypeSize::B8 => 1,
            DataTypeSize::B16 => 2,
            DataTypeSize::B32 => 4,
        }
    }

    /// The name under which callers know this width.
    pub open spec fn label(&self) -> Seq<char> {
        match self {
            DataTypeSize::B8 => "B8"@,
            DataTypeSize::B16 => "B16"@,
            DataTypeSize::B32 => "B32"@,
        }
    }

    /// The number of bytes that one value of this width takes.
    pub fn byte_size(&self) -> (size: u32)
        ensures
            size == self.bytes(),
    {
        match self {
            Self::B8 => 1,
            Self::B16 => 2,
            Self::B32 => 4,
        }
    }

    /// The name under which callers know this width.
    pub fn name(&self) -> (name: &'static str)
        ensures
            name@ == self.label(),
    {
        match self {
            Self::B8 => "B8",
            Self::B16 => "B16",
            Self::B32 => "B32",
        }
    }
}

/// The table of widths that callers are offered: each name with its number
/// of bytes, from the narrowest to the widest.
pub fn data_type_size_table() -> (table: Vec<(&'static str, u32)>)
    ensures
        table@.len() == 3,
        table@[0].0@ == DataTypeSize::B8.label() && table@[0].1 == DataTypeSize::B8.bytes(),
        table@[1].0@ == DataTypeSize::B16.label() && table@[1].1 == DataTypeSize::B16.bytes(),
        table@[2].0@ == DataTypeSize::B32.label() && table@[2].1 == DataTypeSize::B32.bytes(),
{
    let mut table: Vec<(&'static str, u32)> = Vec::new();
    table.push((DataTypeSize::B8.name(), DataTypeSize::B8.byte_size()));
    table.push((DataTypeSize::B16.name(), DataTypeSize::B16.byte_size()));
    table.push((DataTypeSize::B32.name(), DataTypeSize::B32.byte_size()));
    table
}

} // verus!
