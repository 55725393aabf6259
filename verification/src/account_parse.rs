//! Parsing instruction-account declarations out of an IDL document
//! value. Parsing is tolerant of historical spellings: boolean flags
//! are accepted under `writable`/`signer`/`optional` or their
//! camelCase `isMut`/`isSigner`/`isOptional` forms, and names arrive
//! in either casing and are normalized to snake_case. All such
//! alternate-spelling handling lives here, so the rest of the
//! pipeline sees one canonical form.

use vstd::prelude::*;

use crate::account::ToolboxIdlInstructionAccount;
use crate::account::ToolboxIdlInstructionAccountPda;
use crate::blob::ToolboxIdlInstructionBlob;
use crate::blob_parse::spec_blob_parse_matches;
use crate::blob_parse::spec_blob_parse_ok;
use crate::casing::spec_to_snake;
use crate::casing::to_snake_case;
use crate::error::ToolboxIdlError;
use crate::hydrate::SpecTypedefs;
use crate::lookup::ToolboxIdlLookup;
use crate::outside::base58_decode;
use crate::outside::base58_decode_of;
use crate::pubkey::ToolboxIdlPubkey;
use crate::type_full::ToolboxIdlTypeFullFields;
use crate::type_full::ToolboxIdlTypeFullFieldsView;
use crate::typedef::ToolboxIdlTypedef;
use crate::value::lemma_value_seq_view;
use crate::value::object_get;
use crate::value::spec_object_get;
use crate::value::spec_value_seq_view;
use crate::value::ToolboxIdlValue;
use crate::value::ToolboxIdlValueView;

verus! {

/// The value of a boolean flag under its primary or alternate
/// spelling; a missing or non-boolean entry under both reads false.
pub open spec fn spec_parse_flag(
    entries: Seq<(Seq<char>, ToolboxIdlValueView)>,
    primary: Seq<char>,
    alternate: Seq<char>,
) -> bool {
    match spec_object_get(entries, primary) {
        Some(ToolboxIdlValueView::Bool(flag)) => flag,
        _ => {
            match spec_object_get(entries, alternate) {
                Some(ToolboxIdlValueView::Bool(flag)) => flag,
                _ => false,
            }
        },
    }
}

/// Whether an account declaration parses: a named object whose
/// optional address is 32 bytes of Base58, and whose optional
/// derivation rule's seed and program blobs all parse.
pub open spec fn spec_account_parse_ok(
    v: ToolboxIdlValueView,
    fields: ToolboxIdlTypeFullFieldsView,
    typedefs: SpecTypedefs,
) -> bool {
    match v {
        ToolboxIdlValueView::Object(entries) => {
            &&& spec_object_get(entries, "name"@) matches Some(ToolboxIdlValueView::String(_))
            &&& match spec_object_get(entries, "address"@) {
                Some(ToolboxIdlValueView::String(text)) => {
                    &&& base58_decode_of(text) is Some
                    &&& base58_decode_of(text).unwrap().len() == 32
                },
                _ => true,
            }
            &&& match spec_object_get(entries, "pda"@) {
                Some(ToolboxIdlValueView::Object(pda_entries)) => spec_pda_parse_ok(
                    pda_entries,
                    fields,
                    typedefs,
                ),
                _ => true,
            }
        },
        _ => false,
    }
}

/// Whether a derivation-rule declaration parses: every declared seed
/// blob and the optional program blob parse.
pub open spec fn spec_pda_parse_ok(
    pda_entries: Seq<(Seq<char>, ToolboxIdlValueView)>,
    fields: ToolboxIdlTypeFullFieldsView,
    typedefs: SpecTypedefs,
) -> bool {
    &&& match spec_object_get(pda_entries, "seeds"@) {
        Some(ToolboxIdlValueView::Array(items)) => forall|j: int|
            0 <= j < items.len() ==> spec_blob_parse_ok(#[trigger] items[j], fields, typedefs),
        _ => true,
    }
    &&& match spec_object_get(pda_entries, "program"@) {
        Some(program_value) => spec_blob_parse_ok(program_value, fields, typedefs),
        None => true,
    }
}

/// Whether `account` is the parse of the declaration `v`.
pub open spec fn spec_account_parse_matches(
    v: ToolboxIdlValueView,
    fields: ToolboxIdlTypeFullFieldsView,
    typedefs: SpecTypedefs,
    account: ToolboxIdlInstructionAccount,
) -> bool {
    match v {
        ToolboxIdlValueView::Object(entries) => {
            &&& match spec_object_get(entries, "name"@) {
                Some(ToolboxIdlValueView::String(raw_name)) => account.name@ == spec_to_snake(
                    raw_name,
                ),
                _ => false,
            }
            &&& match spec_object_get(entries, "docs"@) {
                Some(docs) => account.docs matches Some(stored) && stored@ == docs,
                None => account.docs is None,
            }
            &&& account.writable == spec_parse_flag(entries, "writable"@, "isMut"@)
            &&& account.signer == spec_parse_flag(entries, "signer"@, "isSigner"@)
            &&& account.optional == spec_parse_flag(entries, "optional"@, "isOptional"@)
            &&& match spec_object_get(entries, "address"@) {
                Some(ToolboxIdlValueView::String(text)) => account.address matches Some(
                    address,
                ) && base58_decode_of(text) == Some(address@),
                _ => account.address is None,
            }
            &&& match spec_object_get(entries, "pda"@) {
                Some(ToolboxIdlValueView::Object(pda_entries)) => account.pda matches Some(pda)
                    && spec_pda_parse_matches(pda_entries, fields, typedefs, pda),
                _ => account.pda is None,
            }
        },
        _ => false,
    }
}

/// Whether `pda` is the parse of the derivation-rule declaration.
pub open spec fn spec_pda_parse_matches(
    pda_entries: Seq<(Seq<char>, ToolboxIdlValueView)>,
    fields: ToolboxIdlTypeFullFieldsView,
    typedefs: SpecTypedefs,
    pda: ToolboxIdlInstructionAccountPda,
) -> bool {
    &&& match spec_object_get(pda_entries, "seeds"@) {
        Some(ToolboxIdlValueView::Array(items)) => {
            &&& pda.seeds@.len() == items.len()
            &&& forall|j: int|
                0 <= j < items.len() ==> spec_blob_parse_matches(
                    #[trigger] items[j],
                    fields,
                    typedefs,
                    pda.seeds@[j],
                )
        },
        _ => pda.seeds@.len() == 0,
    }
    &&& match spec_object_get(pda_entries, "program"@) {
        Some(program_value) => pda.program matches Some(program) && spec_blob_parse_matches(
            program_value,
            fields,
            typedefs,
            program,
        ),
        None => pda.program is None,
    }
}

/// Reads a boolean flag under its primary or alternate spelling.
fn parse_flag(
    entries: &Vec<(String, ToolboxIdlValue)>,
    primary: &str,
    alternate: &str,
) -> (r: bool)
    ensures
        r == spec_parse_flag(
            crate::value::spec_value_entries_view(entries@),
            primary@,
            alternate@,
        ),
{
    match object_get(entries, primary) {
        Some(ToolboxIdlValue::Bool(flag)) => *flag,
        _ => {
            match object_get(entries, alternate) {
                Some(ToolboxIdlValue::Bool(flag)) => *flag,
                _ => false,
            }
        },
    }
}

impl ToolboxIdlInstructionAccount {
    /// Parses an account declaration. Succeeds exactly when the
    /// declaration is well-formed, and then returns the account it
    /// describes, with its name normalized to snake_case and its
    /// flags read under either historical spelling.
    pub fn try_parse(
        idl_instruction_account: &ToolboxIdlValue,
        instruction_args_type_full_fields: &ToolboxIdlTypeFullFields,
        typedefs: &ToolboxIdlLookup<ToolboxIdlTypedef>,
    ) -> (r: Result<ToolboxIdlInstructionAccount, ToolboxIdlError>)
        ensures
            r is Ok <==> spec_account_parse_ok(
                idl_instruction_account@,
                instruction_args_type_full_fields@,
                typedefs@,
            ),
            r matches Ok(account) ==> spec_account_parse_matches(
                idl_instruction_account@,
                instruction_args_type_full_fields@,
                typedefs@,
                account,
            ),
    {
        let entries = match idl_instruction_account {
            ToolboxIdlValue::Object(entries) => entries,
            _ => {
                return Err(
                    ToolboxIdlError::Parse(
                        String::from_str("account declaration must be an object"),
                    ),
                );
            },
        };
        let name = match object_get(entries, "name") {
            Some(ToolboxIdlValue::String(raw_name)) => to_snake_case(raw_name.as_str()),
            _ => {
                return Err(
                    ToolboxIdlError::Parse(String::from_str("account needs a name")),
                );
            },
        };
        let docs = match object_get(entries, "docs") {
            Some(docs) => Some(docs.clone()),
            None => None,
        };
        let writable = parse_flag(entries, "writable", "isMut");
        let signer = parse_flag(entries, "signer", "isSigner");
        let optional = parse_flag(entries, "optional", "isOptional");
        let address = match object_get(entries, "address") {
            Some(ToolboxIdlValue::String(text)) => {
                let decoded = match base58_decode(text.as_str()) {
                    Some(decoded) => decoded,
                    None => {
                        return Err(
                            ToolboxIdlError::Parse(
                                String::from_str("account address is not base58"),
                            ),
                        );
                    },
                };
                if decoded.len() != 32 {
                    return Err(
                        ToolboxIdlError::Parse(
                            String::from_str("account address must be 32 bytes"),
                        ),
                    );
                }
                Some(ToolboxIdlPubkey { bytes: decoded })
            },
            _ => None,
        };
        let pda = match object_get(entries, "pda") {
            Some(ToolboxIdlValue::Object(pda_entries)) => Some(
                ToolboxIdlInstructionAccount::try_parse_pda(
                    pda_entries,
                    instruction_args_type_full_fields,
                    typedefs,
                )?,
            ),
            _ => None,
        };
        Ok(
            ToolboxIdlInstructionAccount {
                name,
                docs,
                writable,
                signer,
                optional,
                address,
                pda,
            },
        )
    }

    /// Parses a derivation rule: its ordered seed blobs and optional
    /// program blob.
    fn try_parse_pda(
        pda_entries: &Vec<(String, ToolboxIdlValue)>,
        instruction_args_type_full_fields: &ToolboxIdlTypeFullFields,
        typedefs: &ToolboxIdlLookup<ToolboxIdlTypedef>,
    ) -> (r: Result<ToolboxIdlInstructionAccountPda, ToolboxIdlError>)
        ensures
            ({
                let pda_view = crate::value::spec_value_entries_view(pda_entries@);
                &&& (r is Ok <==> spec_pda_parse_ok(
                    pda_view,
                    instruction_args_type_full_fields@,
                    typedefs@,
                ))
                &&& (r matches Ok(pda) ==> spec_pda_parse_matches(
                    pda_view,
                    instruction_args_type_full_fields@,
                    typedefs@,
                    pda,
                ))
            }),
    {
        let ghost pda_view = crate::value::spec_value_entries_view(pda_entries@);
        let mut seeds: Vec<ToolboxIdlInstructionBlob> = Vec::new();
        match object_get(pda_entries, "seeds") {
            Some(ToolboxIdlValue::Array(items)) => {
                let ghost items_view = spec_value_seq_view(items@);
                proof {
                    lemma_value_seq_view(items@);
                }
                let mut i: usize = 0;
                while i < items.len()
                    invariant
                        0 <= i <= items@.len(),
                        pda_view == crate::value::spec_value_entries_view(pda_entries@),
                        spec_object_get(pda_view, "seeds"@) == Some(
                            ToolboxIdlValueView::Array(items_view),
                        ),
                        items_view == spec_value_seq_view(items@),
                        items_view.len() == items@.len(),
                        forall|j: int|
                            0 <= j < items@.len() ==> #[trigger] items_view[j] == items@[j]@,
                        seeds@.len() == i,
                        forall|j: int|
                            0 <= j < i ==> spec_blob_parse_matches(
                                #[trigger] items_view[j],
                                instruction_args_type_full_fields@,
                                typedefs@,
                                seeds@[j],
                            ),
                        forall|j: int|
                            0 <= j < i ==> spec_blob_parse_ok(
                                #[trigger] items_view[j],
                                instruction_args_type_full_fields@,
                                typedefs@,
                            ),
                    decreases items@.len() - i,
                {
                    let seed = match ToolboxIdlInstructionBlob::try_parse(
                        &items[i],
                        instruction_args_type_full_fields,
                        typedefs,
                    ) {
                        Ok(seed) => seed,
                        Err(error) => {
                            proof {
                                assert(0 <= i < items_view.len());
                                assert(!spec_blob_parse_ok(
                                    items_view[i as int],
                                    instruction_args_type_full_fields@,
                                    typedefs@,
                                ));
                                assert(!(forall|j: int|
                                    0 <= j < items_view.len() ==> spec_blob_parse_ok(
                                        #[trigger] items_view[j],
                                        instruction_args_type_full_fields@,
                                        typedefs@,
                                    ))) by {
                                    if forall|j: int|
                                        0 <= j < items_view.len() ==> spec_blob_parse_ok(
                                            #[trigger] items_view[j],
                                            instruction_args_type_full_fields@,
                                            typedefs@,
                                        ) {
                                        assert(spec_blob_parse_ok(
                                            items_view[i as int],
                                            instruction_args_type_full_fields@,
                                            typedefs@,
                                        ));
                                    }
                                };
                                assert(spec_object_get(pda_view, "seeds"@) == Some(
                                    ToolboxIdlValueView::Array(items_view),
                                ));
                                assert(!(match spec_object_get(pda_view, "seeds"@) {
                                    Some(ToolboxIdlValueView::Array(seed_items)) => forall|
                                        j: int,
                                    |
                                        0 <= j < seed_items.len() ==> spec_blob_parse_ok(
                                            #[trigger] seed_items[j],
                                            instruction_args_type_full_fields@,
                                            typedefs@,
                                        ),
                                    _ => true,
                                })) by {
                                    if (match spec_object_get(pda_view, "seeds"@) {
                                        Some(ToolboxIdlValueView::Array(seed_items)) => forall|
                                            j: int,
                                        |
                                            0 <= j < seed_items.len() ==> spec_blob_parse_ok(
                                                #[trigger] seed_items[j],
                                                instruction_args_type_full_fields@,
                                                typedefs@,
                                            ),
                                        _ => true,
                                    }) {
                                        let got = spec_object_get(
                                            pda_view,
                                            "seeds"@,
                                        ).unwrap();
                                        assert(got == ToolboxIdlValueView::Array(items_view));
                                        assert(got->Array_0 == items_view);
                                        assert(spec_blob_parse_ok(
                                            got->Array_0[i as int],
                                            instruction_args_type_full_fields@,
                                            typedefs@,
                                        ));
                                        assert(false);
                                    }
                                };
                                assert(!spec_pda_parse_ok(
                                    pda_view,
                                    instruction_args_type_full_fields@,
                                    typedefs@,
                                ));
                            }
                            let label = String::from_str("seed ").concat(
                                crate::decimal::usize_to_dec(i).as_str(),
                            );
                            return Err(error.wrap(label.as_str()));
                        },
                    };
                    seeds.push(seed);
                    i += 1;
                }
            },
            _ => {},
        }
        let program = match object_get(pda_entries, "program") {
            Some(program_value) => {
                match ToolboxIdlInstructionBlob::try_parse(
                    program_value,
                    instruction_args_type_full_fields,
                    typedefs,
                ) {
                    Ok(program) => Some(program),
                    Err(error) => {
                        return Err(error.wrap("program seed"));
                    },
                }
            },
            None => None,
        };
        Ok(ToolboxIdlInstructionAccountPda { seeds, program })
    }
}

} // verus!
