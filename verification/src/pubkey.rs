//! A 32-byte account address, modelled as its bytes.

use vstd::prelude::*;

use crate::error::ToolboxIdlError;
use crate::outside::create_with_seed;
use crate::outside::create_with_seed_of;
use crate::outside::find_program_address;
use crate::outside::pda_of;

verus! {

/// An account address: exactly 32 bytes.
#[derive(Debug, PartialEq)]
pub struct ToolboxIdlPubkey {
    pub bytes: Vec<u8>,
}

impl View for ToolboxIdlPubkey {
    type V = Seq<u8>;

    open spec fn view(&self) -> Seq<u8> {
        self.bytes@
    }
}

impl ToolboxIdlPubkey {
    /// Whether the address holds exactly 32 bytes.
    pub open spec fn spec_wf(self) -> bool {
        self.bytes@.len() == 32
    }

    /// Wraps address bytes; fails unless exactly 32 were given.
    pub fn try_from_bytes(bytes: Vec<u8>) -> (r: Option<ToolboxIdlPubkey>)
        ensures
            match r {
                Some(pk) => pk@ == bytes@ && pk.spec_wf(),
                None => bytes@.len() != 32,
            },
    {
        if bytes.len() == 32 {
            Some(ToolboxIdlPubkey { bytes })
        } else {
            None
        }
    }
}

impl Clone for ToolboxIdlPubkey {
    fn clone(&self) -> (r: Self)
        ensures
            r@ == self@,
    {
        let mut bytes: Vec<u8> = Vec::new();
        let mut i: usize = 0;
        while i < self.bytes.len()
            invariant
                0 <= i <= self.bytes@.len(),
                bytes@ =~= self.bytes@.take(i as int),
            decreases self.bytes@.len() - i,
        {
            bytes.push(self.bytes[i]);
            i += 1;
        }
        proof {
            assert(bytes@ =~= self.bytes@);
        }
        ToolboxIdlPubkey { bytes }
    }
}

/// The address a program's own interface description is stored at:
/// the program's seedless derived base address, extended with the
/// interface marker seed. A pure function of the program id.
pub fn find_anchor_address(program_id: &ToolboxIdlPubkey) -> (r: Result<
    ToolboxIdlPubkey,
    ToolboxIdlError,
>)
    requires
        program_id.spec_wf(),
    ensures
        match r {
            Ok(address) => ({
                &&& pda_of(Seq::empty(), program_id@) matches Some(base)
                &&& create_with_seed_of(base.0, "anchor:idl"@, program_id@) == Some(address@)
                &&& address.spec_wf()
            }),
            Err(_) => match pda_of(Seq::empty(), program_id@) {
                Some(base) => create_with_seed_of(base.0, "anchor:idl"@, program_id@) is None,
                None => true,
            },
        },
{
    let seeds: Vec<Vec<u8>> = Vec::new();
    proof {
        assert(seeds.deep_view() =~= Seq::<Seq<u8>>::empty());
    }
    let base = match find_program_address(&seeds, &program_id.bytes) {
        Some(pair) => pair.0,
        None => {
            return Err(
                ToolboxIdlError::UnresolvableAddress(
                    String::from_str("no viable base address"),
                ),
            );
        },
    };
    match create_with_seed(&base, "anchor:idl", &program_id.bytes) {
        Some(bytes) => Ok(ToolboxIdlPubkey { bytes }),
        None => Err(
            ToolboxIdlError::UnresolvableAddress(
                String::from_str("reserved owner for seeded address"),
            ),
        ),
    }
}

} // verus!
