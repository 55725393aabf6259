//! Width of a length prefix, an option presence flag, or an enum
//! discriminant: an unsigned little-endian integer of 1, 2, 4, 8 or 16
//! bytes.

use vstd::prelude::*;

verus! {

/// The width of a prefix integer on the wire.
#[derive(Debug, Clone, Copy, PartialEq, Eq, Structural)]
pub enum ToolboxIdlTypePrefix {
    U8,
    U16,
    U32,
    U64,
    U128,
}

impl ToolboxIdlTypePrefix {
    /// The prefix width in bytes.
    pub open spec fn spec_size(self) -> nat {
        match self {
            ToolboxIdlTypePrefix::U8 => 1,
            ToolboxIdlTypePrefix::U16 => 2,
            ToolboxIdlTypePrefix::U32 => 4,
            ToolboxIdlTypePrefix::U64 => 8,
            ToolboxIdlTypePrefix::U128 => 16,
        }
    }

    /// The largest value the prefix can carry.
    pub open spec fn spec_max(self) -> int {
        match self {
            ToolboxIdlTypePrefix::U8 => 0xff,
            ToolboxIdlTypePrefix::U16 => 0xffff,
            ToolboxIdlTypePrefix::U32 => 0xffffffff,
            ToolboxIdlTypePrefix::U64 => 0xffffffffffffffff,
            ToolboxIdlTypePrefix::U128 => 0xffffffffffffffffffffffffffffffff,
        }
    }

    /// The prefix width in bytes.
    pub fn size(&self) -> (r: usize)
        ensures
            r == self.spec_size(),
    {
        match self {
            ToolboxIdlTypePrefix::U8 => 1,
            ToolboxIdlTypePrefix::U16 => 2,
            ToolboxIdlTypePrefix::U32 => 4,
            ToolboxIdlTypePrefix::U64 => 8,
            ToolboxIdlTypePrefix::U128 => 16,
        }
    }
}

} // verus!
