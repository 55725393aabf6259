//! Instruction account descriptors: name, flags, an optional fixed
//! address, and an optional program-derived-address rule made of
//! ordered seed blobs and an optional program-id blob.

use vstd::prelude::*;

use crate::blob::ToolboxIdlInstructionBlob;
use crate::blob::ToolboxIdlInstructionBlobView;
use crate::pubkey::ToolboxIdlPubkey;
use crate::value::spec_value_view;
use crate::value::ToolboxIdlValue;
use crate::value::ToolboxIdlValueView;

verus! {

/// One declared account of an instruction.
#[derive(Debug, PartialEq)]
pub struct ToolboxIdlInstructionAccount {
    pub name: String,
    pub docs: Option<ToolboxIdlValue>,
    pub writable: bool,
    pub signer: bool,
    pub optional: bool,
    pub address: Option<ToolboxIdlPubkey>,
    pub pda: Option<ToolboxIdlInstructionAccountPda>,
}

/// The derivation rule of a program-derived address.
#[derive(Debug, PartialEq)]
pub struct ToolboxIdlInstructionAccountPda {
    pub seeds: Vec<ToolboxIdlInstructionBlob>,
    pub program: Option<ToolboxIdlInstructionBlob>,
}

/// The mathematical model of an instruction account.
pub struct ToolboxIdlInstructionAccountView {
    pub name: Seq<char>,
    pub docs: Option<ToolboxIdlValueView>,
    pub writable: bool,
    pub signer: bool,
    pub optional: bool,
    pub address: Option<Seq<u8>>,
    pub pda: Option<ToolboxIdlInstructionAccountPdaView>,
}

/// The mathematical model of a derivation rule.
pub struct ToolboxIdlInstructionAccountPdaView {
    pub seeds: Seq<ToolboxIdlInstructionBlobView>,
    pub program: Option<ToolboxIdlInstructionBlobView>,
}

impl View for ToolboxIdlInstructionAccountPda {
    type V = ToolboxIdlInstructionAccountPdaView;

    open spec fn view(&self) -> ToolboxIdlInstructionAccountPdaView {
        ToolboxIdlInstructionAccountPdaView {
            seeds: Seq::new(self.seeds@.len(), |i: int| self.seeds@[i]@),
            program: match self.program {
                Some(blob) => Some(blob@),
                None => None,
            },
        }
    }
}

impl View for ToolboxIdlInstructionAccount {
    type V = ToolboxIdlInstructionAccountView;

    open spec fn view(&self) -> ToolboxIdlInstructionAccountView {
        ToolboxIdlInstructionAccountView {
            name: self.name@,
            docs: match self.docs {
                Some(docs) => Some(spec_value_view(docs)),
                None => None,
            },
            writable: self.writable,
            signer: self.signer,
            optional: self.optional,
            address: match self.address {
                Some(address) => Some(address@),
                None => None,
            },
            pda: match self.pda {
                Some(pda) => Some(pda@),
                None => None,
            },
        }
    }
}

} // verus!
