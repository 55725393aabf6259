//! Export dialects: the boolean switches that distinguish the JSON
//! shapes a resolved program model can be written back into. Exact
//! output compatibility with each historical dialect is a correctness
//! requirement of the exporters, so the switches are explicit data
//! rather than implicit behavior.

use vstd::prelude::*;

verus! {

/// The dialect switches of an export.
#[derive(Debug, Clone, Copy, PartialEq, Eq, Structural)]
pub struct ToolboxIdlFormat {
    /// Write account flags as `isMut`/`isSigner`/`isOptional` rather
    /// than `writable`/`signer`/`optional`.
    pub use_camel_case_instruction_account_flags: bool,
    /// Write account names in camelCase rather than snake_case.
    pub use_camel_case_instruction_account_names: bool,
    /// Allow a constant seed whose type is a plain byte vector or
    /// string to be written as its bare value, without the wrapping
    /// object.
    pub can_skip_instruction_account_pda_object_wrap: bool,
    /// Allow the `"kind": "account"` marker of an account seed to be
    /// left out.
    pub can_skip_instruction_account_pda_account_kind: bool,
}

impl ToolboxIdlFormat {
    /// The human-oriented dialect: snake_case, every shorthand
    /// allowed.
    pub fn human() -> (r: ToolboxIdlFormat)
        ensures
            r == (ToolboxIdlFormat {
                use_camel_case_instruction_account_flags: false,
                use_camel_case_instruction_account_names: false,
                can_skip_instruction_account_pda_object_wrap: true,
                can_skip_instruction_account_pda_account_kind: true,
            }),
    {
        ToolboxIdlFormat {
            use_camel_case_instruction_account_flags: false,
            use_camel_case_instruction_account_names: false,
            can_skip_instruction_account_pda_object_wrap: true,
            can_skip_instruction_account_pda_account_kind: true,
        }
    }

    /// The older on-chain dialect: camelCase names and flags, every
    /// wrapper written out.
    pub fn anchor_26() -> (r: ToolboxIdlFormat)
        ensures
            r == (ToolboxIdlFormat {
                use_camel_case_instruction_account_flags: true,
                use_camel_case_instruction_account_names: true,
                can_skip_instruction_account_pda_object_wrap: false,
                can_skip_instruction_account_pda_account_kind: false,
            }),
    {
        ToolboxIdlFormat {
            use_camel_case_instruction_account_flags: true,
            use_camel_case_instruction_account_names: true,
            can_skip_instruction_account_pda_object_wrap: false,
            can_skip_instruction_account_pda_account_kind: false,
        }
    }

    /// The newer on-chain dialect: snake_case, every wrapper written
    /// out.
    pub fn anchor_30() -> (r: ToolboxIdlFormat)
        ensures
            r == (ToolboxIdlFormat {
                use_camel_case_instruction_account_flags: false,
                use_camel_case_instruction_account_names: false,
                can_skip_instruction_account_pda_object_wrap: false,
                can_skip_instruction_account_pda_account_kind: false,
            }),
    {
        ToolboxIdlFormat {
            use_camel_case_instruction_account_flags: false,
            use_camel_case_instruction_account_names: false,
            can_skip_instruction_account_pda_object_wrap: false,
            can_skip_instruction_account_pda_account_kind: false,
        }
    }
}

} // verus!
