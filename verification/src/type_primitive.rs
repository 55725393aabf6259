//! The primitive leaves of the type model: fixed-width integers,
//! floating-point markers, booleans, and 32-byte public keys.

use vstd::prelude::*;

use crate::text::str_eq;

verus! {

/// A primitive type of the IDL grammar.
#[derive(Debug, Clone, Copy, PartialEq, Eq, Structural)]
pub enum ToolboxIdlTypePrimitive {
    U8,
    U16,
    U32,
    U64,
    U128,
    I8,
    I16,
    I32,
    I64,
    I128,
    F32,
    F64,
    Bool,
    Pubkey,
}

impl ToolboxIdlTypePrimitive {
    /// The canonical IDL spelling of the primitive.
    pub open spec fn spec_name(self) -> Seq<char> {
        match self {
            ToolboxIdlTypePrimitive::U8 => "u8"@,
            ToolboxIdlTypePrimitive::U16 => "u16"@,
            ToolboxIdlTypePrimitive::U32 => "u32"@,
            ToolboxIdlTypePrimitive::U64 => "u64"@,
            ToolboxIdlTypePrimitive::U128 => "u128"@,
            ToolboxIdlTypePrimitive::I8 => "i8"@,
            ToolboxIdlTypePrimitive::I16 => "i16"@,
            ToolboxIdlTypePrimitive::I32 => "i32"@,
            ToolboxIdlTypePrimitive::I64 => "i64"@,
            ToolboxIdlTypePrimitive::I128 => "i128"@,
            ToolboxIdlTypePrimitive::F32 => "f32"@,
            ToolboxIdlTypePrimitive::F64 => "f64"@,
            ToolboxIdlTypePrimitive::Bool => "bool"@,
            ToolboxIdlTypePrimitive::Pubkey => "pubkey"@,
        }
    }

    /// The canonical IDL spelling of the primitive.
    pub fn as_str(&self) -> (r: &'static str)
        ensures
            r@ == self.spec_name(),
    {
        match self {
            ToolboxIdlTypePrimitive::U8 => "u8",
            ToolboxIdlTypePrimitive::U16 => "u16",
            ToolboxIdlTypePrimitive::U32 => "u32",
            ToolboxIdlTypePrimitive::U64 => "u64",
            ToolboxIdlTypePrimitive::U128 => "u128",
            ToolboxIdlTypePrimitive::I8 => "i8",
            ToolboxIdlTypePrimitive::I16 => "i16",
            ToolboxIdlTypePrimitive::I32 => "i32",
            ToolboxIdlTypePrimitive::I64 => "i64",
            ToolboxIdlTypePrimitive::I128 => "i128",
            ToolboxIdlTypePrimitive::F32 => "f32",
            ToolboxIdlTypePrimitive::F64 => "f64",
            ToolboxIdlTypePrimitive::Bool => "bool",
            ToolboxIdlTypePrimitive::Pubkey => "pubkey",
        }
    }

    /// Which primitive a spelling denotes; `"publicKey"` is accepted as
    /// a historical alias of `"pubkey"`.
    pub open spec fn spec_of_name(s: Seq<char>) -> Option<ToolboxIdlTypePrimitive> {
        if s == "u8"@ {
            Some(ToolboxIdlTypePrimitive::U8)
        } else if s == "u16"@ {
            Some(ToolboxIdlTypePrimitive::U16)
        } else if s == "u32"@ {
            Some(ToolboxIdlTypePrimitive::U32)
        } else if s == "u64"@ {
            Some(ToolboxIdlTypePrimitive::U64)
        } else if s == "u128"@ {
            Some(ToolboxIdlTypePrimitive::U128)
        } else if s == "i8"@ {
            Some(ToolboxIdlTypePrimitive::I8)
        } else if s == "i16"@ {
            Some(ToolboxIdlTypePrimitive::I16)
        } else if s == "i32"@ {
            Some(ToolboxIdlTypePrimitive::I32)
        } else if s == "i64"@ {
            Some(ToolboxIdlTypePrimitive::I64)
        } else if s == "i128"@ {
            Some(ToolboxIdlTypePrimitive::I128)
        } else if s == "f32"@ {
            Some(ToolboxIdlTypePrimitive::F32)
        } else if s == "f64"@ {
            Some(ToolboxIdlTypePrimitive::F64)
        } else if s == "bool"@ {
            Some(ToolboxIdlTypePrimitive::Bool)
        } else if s == "pubkey"@ || s == "publicKey"@ {
            Some(ToolboxIdlTypePrimitive::Pubkey)
        } else {
            None
        }
    }

    /// Parses a primitive spelling.
    pub fn try_parse(name: &str) -> (r: Option<ToolboxIdlTypePrimitive>)
        ensures
            r == ToolboxIdlTypePrimitive::spec_of_name(name@),
    {
        if str_eq(name, "u8") {
            Some(ToolboxIdlTypePrimitive::U8)
        } else if str_eq(name, "u16") {
            Some(ToolboxIdlTypePrimitive::U16)
        } else if str_eq(name, "u32") {
            Some(ToolboxIdlTypePrimitive::U32)
        } else if str_eq(name, "u64") {
            Some(ToolboxIdlTypePrimitive::U64)
        } else if str_eq(name, "u128") {
            Some(ToolboxIdlTypePrimitive::U128)
        } else if str_eq(name, "i8") {
            Some(ToolboxIdlTypePrimitive::I8)
        } else if str_eq(name, "i16") {
            Some(ToolboxIdlTypePrimitive::I16)
        } else if str_eq(name, "i32") {
            Some(ToolboxIdlTypePrimitive::I32)
        } else if str_eq(name, "i64") {
            Some(ToolboxIdlTypePrimitive::I64)
        } else if str_eq(name, "i128") {
            Some(ToolboxIdlTypePrimitive::I128)
        } else if str_eq(name, "f32") {
            Some(ToolboxIdlTypePrimitive::F32)
        } else if str_eq(name, "f64") {
            Some(ToolboxIdlTypePrimitive::F64)
        } else if str_eq(name, "bool") {
            Some(ToolboxIdlTypePrimitive::Bool)
        } else if str_eq(name, "pubkey") || str_eq(name, "publicKey") {
            Some(ToolboxIdlTypePrimitive::Pubkey)
        } else {
            None
        }
    }

    /// The encoded width in bytes of an integer primitive; `None` for
    /// the non-integer primitives.
    pub open spec fn spec_int_size(self) -> Option<nat> {
        match self {
            ToolboxIdlTypePrimitive::U8 => Some(1nat),
            ToolboxIdlTypePrimitive::U16 => Some(2nat),
            ToolboxIdlTypePrimitive::U32 => Some(4nat),
            ToolboxIdlTypePrimitive::U64 => Some(8nat),
            ToolboxIdlTypePrimitive::U128 => Some(16nat),
            ToolboxIdlTypePrimitive::I8 => Some(1nat),
            ToolboxIdlTypePrimitive::I16 => Some(2nat),
            ToolboxIdlTypePrimitive::I32 => Some(4nat),
            ToolboxIdlTypePrimitive::I64 => Some(8nat),
            ToolboxIdlTypePrimitive::I128 => Some(16nat),
            _ => None,
        }
    }

    /// The encoded width in bytes of an integer primitive.
    pub fn int_size(&self) -> (r: Option<usize>)
        ensures
            match r {
                Some(w) => self.spec_int_size() == Some(w as nat),
                None => self.spec_int_size() is None,
            },
    {
        match self {
            ToolboxIdlTypePrimitive::U8 => Some(1),
            ToolboxIdlTypePrimitive::U16 => Some(2),
            ToolboxIdlTypePrimitive::U32 => Some(4),
            ToolboxIdlTypePrimitive::U64 => Some(8),
            ToolboxIdlTypePrimitive::U128 => Some(16),
            ToolboxIdlTypePrimitive::I8 => Some(1),
            ToolboxIdlTypePrimitive::I16 => Some(2),
            ToolboxIdlTypePrimitive::I32 => Some(4),
            ToolboxIdlTypePrimitive::I64 => Some(8),
            ToolboxIdlTypePrimitive::I128 => Some(16),
            _ => None,
        }
    }

    /// Whether the primitive is a signed integer.
    pub fn is_signed(&self) -> (r: bool)
        ensures
            r == self.spec_is_signed(),
    {
        match self {
            ToolboxIdlTypePrimitive::I8
            | ToolboxIdlTypePrimitive::I16
            | ToolboxIdlTypePrimitive::I32
            | ToolboxIdlTypePrimitive::I64
            | ToolboxIdlTypePrimitive::I128 => true,
            _ => false,
        }
    }

    /// Whether the primitive is a signed integer.
    pub open spec fn spec_is_signed(self) -> bool {
        match self {
            ToolboxIdlTypePrimitive::I8
            | ToolboxIdlTypePrimitive::I16
            | ToolboxIdlTypePrimitive::I32
            | ToolboxIdlTypePrimitive::I64
            | ToolboxIdlTypePrimitive::I128 => true,
            _ => false,
        }
    }
}

} // verus!
