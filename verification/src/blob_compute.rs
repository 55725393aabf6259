//! Blob evaluation: computing the byte string a blob denotes from the
//! instruction payload, the already-known addresses, and the fetched
//! account states. Serialization here is raw (no length prefixes),
//! since the bytes feed address-derivation seeds.

use vstd::prelude::*;

use crate::blob::ToolboxIdlInstructionBlob;
use crate::blob::ToolboxIdlInstructionBlobView;
use crate::error::ToolboxIdlError;
use crate::lookup::spec_lookup;
use crate::lookup::ToolboxIdlLookup;
use crate::path::ToolboxIdlPath;
use crate::path::ToolboxIdlPathPart;
use crate::path_type::spec_get_type_full;
use crate::path_value::spec_get_value;
use crate::pubkey::ToolboxIdlPubkey;
use crate::serialize::spec_serialize;
use crate::type_full::ToolboxIdlTypeFull;
use crate::type_full::ToolboxIdlTypeFullView;
use crate::value::ToolboxIdlValue;
use crate::value::ToolboxIdlValueView;

verus! {

/// The byte string a blob denotes; `None` is failure: a value that
/// does not serialize, a path that resolves nothing, an account blob
/// with an empty path, an account address that is not exactly 32
/// bytes, or an account whose address or state is not known.
pub open spec fn spec_blob_compute(
    blob: ToolboxIdlInstructionBlobView,
    payload: ToolboxIdlValueView,
    addresses: Seq<(Seq<char>, Seq<u8>)>,
    states: Seq<(Seq<char>, ToolboxIdlValueView)>,
    content_types: Seq<(Seq<char>, ToolboxIdlTypeFullView)>,
) -> Option<Seq<u8>> {
    match blob {
        ToolboxIdlInstructionBlobView::Const { value, type_full, .. } => spec_serialize(
            type_full,
            value,
            false,
        ),
        ToolboxIdlInstructionBlobView::Arg { parts, type_full, .. } => {
            match spec_get_value(parts, payload) {
                Some(value) => spec_serialize(type_full, value, false),
                None => None,
            }
        },
        ToolboxIdlInstructionBlobView::Account { parts, typing, .. } => {
            if parts.len() == 0 {
                None
            } else {
                match parts[0] {
                    ToolboxIdlPathPart::Key(name) => {
                        let remainder = parts.skip(1);
                        if remainder.len() == 0 {
                            match spec_lookup(addresses, name@) {
                                Some(address) => {
                                    if address.len() == 32 {
                                        Some(address)
                                    } else {
                                        None
                                    }
                                },
                                None => None,
                            }
                        } else {
                            match spec_lookup(states, name@) {
                                None => None,
                                Some(state) => {
                                    match spec_get_value(remainder, state) {
                                        None => None,
                                        Some(value) => {
                                            let content_type = match typing {
                                                Some(t) => Some(t.1),
                                                None => {
                                                    match spec_lookup(content_types, name@) {
                                                        Some(whole) => spec_get_type_full(
                                                            remainder,
                                                            whole,
                                                        ),
                                                        None => None,
                                                    }
                                                },
                                            };
                                            match content_type {
                                                Some(t) => spec_serialize(t, value, false),
                                                None => None,
                                            }
                                        },
                                    }
                                },
                            }
                        }
                    },
                    _ => None,
                }
            }
        },
    }
}

impl ToolboxIdlInstructionBlob {
    /// Computes the byte string this blob denotes. Succeeds exactly
    /// when the mathematical evaluation does, and then returns exactly
    /// its bytes.
    pub fn try_compute(
        &self,
        instruction_payload: &ToolboxIdlValue,
        instruction_addresses: &ToolboxIdlLookup<ToolboxIdlPubkey>,
        instruction_accounts_states: &ToolboxIdlLookup<ToolboxIdlValue>,
        instruction_accounts_contents_type_full: &ToolboxIdlLookup<ToolboxIdlTypeFull>,
    ) -> (r: Result<Vec<u8>, ToolboxIdlError>)
        ensures
            match r {
                Ok(data) => spec_blob_compute(
                    self@,
                    instruction_payload@,
                    instruction_addresses@,
                    instruction_accounts_states@,
                    instruction_accounts_contents_type_full@,
                ) == Some(data@),
                Err(_) => spec_blob_compute(
                    self@,
                    instruction_payload@,
                    instruction_addresses@,
                    instruction_accounts_states@,
                    instruction_accounts_contents_type_full@,
                ) is None,
            },
    {
        let mut data: Vec<u8> = Vec::new();
        match self {
            ToolboxIdlInstructionBlob::Const { value, type_full, .. } => {
                match type_full.try_serialize(value, &mut data, false) {
                    Ok(_) => {
                        proof {
                            assert(data@.skip(0int) =~= data@);
                        }
                        Ok(data)
                    },
                    Err(error) => Err(error.wrap("constant seed")),
                }
            },
            ToolboxIdlInstructionBlob::Arg { path, type_full, .. } => {
                let value = match path.try_get_json_value(instruction_payload) {
                    Ok(value) => value,
                    Err(error) => {
                        return Err(error.wrap("argument seed"));
                    },
                };
                match type_full.try_serialize(value, &mut data, false) {
                    Ok(_) => {
                        proof {
                            assert(data@.skip(0int) =~= data@);
                        }
                        Ok(data)
                    },
                    Err(error) => Err(error.wrap("argument seed")),
                }
            },
            ToolboxIdlInstructionBlob::Account { path, typing, .. } => {
                let (current, remainder) = match path.split_first() {
                    Some(pair) => pair,
                    None => {
                        return Err(
                            ToolboxIdlError::Lookup(
                                String::from_str(
                                    "account blob path must start with the account name",
                                ),
                            ),
                        );
                    },
                };
                let name = match &current {
                    ToolboxIdlPathPart::Key(name) => name,
                    _ => {
                        return Err(
                            ToolboxIdlError::TypeMismatch(
                                String::from_str("account blob path needs a named account"),
                            ),
                        );
                    },
                };
                if remainder.is_empty() {
                    return match instruction_addresses.get(name.as_str()) {
                        Some(address) => {
                            if address.bytes.len() != 32 {
                                return Err(
                                    ToolboxIdlError::Codec(
                                        String::from_str(
                                            "account address must be 32 bytes",
                                        ),
                                    ),
                                );
                            }
                            Ok(address.bytes.clone())
                        },
                        None => Err(
                            ToolboxIdlError::Lookup(
                                String::from_str("account address is not known yet"),
                            ),
                        ),
                    };
                }
                let state = match instruction_accounts_states.get(name.as_str()) {
                    Some(state) => state,
                    None => {
                        return Err(
                            ToolboxIdlError::Lookup(
                                String::from_str("account state is not known"),
                            ),
                        );
                    },
                };
                let value = match remainder.try_get_json_value(state) {
                    Ok(value) => value,
                    Err(error) => {
                        return Err(error.wrap("account seed"));
                    },
                };
                match typing {
                    Some(pair) => {
                        match pair.1.try_serialize(value, &mut data, false) {
                            Ok(_) => {
                                proof {
                                    assert(data@.skip(0int) =~= data@);
                                }
                                Ok(data)
                            },
                            Err(error) => Err(error.wrap("account seed")),
                        }
                    },
                    None => {
                        let whole = match instruction_accounts_contents_type_full.get(
                            name.as_str(),
                        ) {
                            Some(whole) => whole,
                            None => {
                                return Err(
                                    ToolboxIdlError::Lookup(
                                        String::from_str("account content type is not known"),
                                    ),
                                );
                            },
                        };
                        let content_type = match remainder.try_get_type_full(whole) {
                            Ok(content_type) => content_type,
                            Err(error) => {
                                return Err(error.wrap("account seed"));
                            },
                        };
                        match content_type.try_serialize(value, &mut data, false) {
                            Ok(_) => {
                                proof {
                                    assert(data@.skip(0int) =~= data@);
                                }
                                Ok(data)
                            },
                            Err(error) => Err(error.wrap("account seed")),
                        }
                    },
                }
            },
        }
    }
}

} // verus!
