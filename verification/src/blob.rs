//! Blob expressions: a tagged expression that computes a byte string
//! from instruction context. A blob is a constant value, a path into
//! the instruction payload, or a path into an account's address or
//! fetched state.

use vstd::prelude::*;

use crate::path::ToolboxIdlPath;
use crate::path::ToolboxIdlPathPart;
use crate::type_flat::spec_type_flat_view;
use crate::type_flat::ToolboxIdlTypeFlat;
use crate::type_flat::ToolboxIdlTypeFlatView;
use crate::type_full::spec_type_full_view;
use crate::type_full::ToolboxIdlTypeFull;
use crate::type_full::ToolboxIdlTypeFullView;
use crate::value::spec_value_view;
use crate::value::ToolboxIdlValue;
use crate::value::ToolboxIdlValueView;

verus! {

/// One seed expression of a program-derived address.
#[derive(Debug, PartialEq)]
pub enum ToolboxIdlInstructionBlob {
    /// A constant value serialized under its own type.
    Const {
        value: ToolboxIdlValue,
        type_flat: ToolboxIdlTypeFlat,
        type_full: ToolboxIdlTypeFull,
    },
    /// A value extracted from the instruction payload.
    Arg {
        path: ToolboxIdlPath,
        type_flat: Option<ToolboxIdlTypeFlat>,
        type_full: ToolboxIdlTypeFull,
    },
    /// An account's address, or a value extracted from its state.
    Account {
        account: Option<String>,
        path: ToolboxIdlPath,
        typing: Option<(ToolboxIdlTypeFlat, ToolboxIdlTypeFull)>,
    },
}

/// The mathematical model of a blob expression.
pub enum ToolboxIdlInstructionBlobView {
    Const {
        value: ToolboxIdlValueView,
        type_flat: ToolboxIdlTypeFlatView,
        type_full: ToolboxIdlTypeFullView,
    },
    Arg {
        parts: Seq<ToolboxIdlPathPart>,
        type_flat: Option<ToolboxIdlTypeFlatView>,
        type_full: ToolboxIdlTypeFullView,
    },
    Account {
        account: Option<Seq<char>>,
        parts: Seq<ToolboxIdlPathPart>,
        typing: Option<(ToolboxIdlTypeFlatView, ToolboxIdlTypeFullView)>,
    },
}

impl View for ToolboxIdlInstructionBlob {
    type V = ToolboxIdlInstructionBlobView;

    open spec fn view(&self) -> ToolboxIdlInstructionBlobView {
        match self {
            ToolboxIdlInstructionBlob::Const { value, type_flat, type_full } => {
                ToolboxIdlInstructionBlobView::Const {
                    value: spec_value_view(*value),
                    type_flat: spec_type_flat_view(*type_flat),
                    type_full: spec_type_full_view(*type_full),
                }
            },
            ToolboxIdlInstructionBlob::Arg { path, type_flat, type_full } => {
                ToolboxIdlInstructionBlobView::Arg {
                    parts: path.parts@,
                    type_flat: match type_flat {
                        Some(flat) => Some(spec_type_flat_view(*flat)),
                        None => None,
                    },
                    type_full: spec_type_full_view(*type_full),
                }
            },
            ToolboxIdlInstructionBlob::Account { account, path, typing } => {
                ToolboxIdlInstructionBlobView::Account {
                    account: match account {
                        Some(name) => Some(name@),
                        None => None,
                    },
                    parts: path.parts@,
                    typing: match typing {
                        Some(pair) => Some(
                            (spec_type_flat_view(pair.0), spec_type_full_view(pair.1)),
                        ),
                        None => None,
                    },
                }
            },
        }
    }
}

} // verus!
