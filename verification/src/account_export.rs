//! Writing an instruction account back into its document form, under
//! a chosen export dialect: the name in snake_case or camelCase,
//! flags only when set and under the dialect's spelling, the address
//! in Base58, and the derivation rule with its ordered seeds.

use vstd::prelude::*;

use crate::account::ToolboxIdlInstructionAccount;
use crate::account::ToolboxIdlInstructionAccountPda;
use crate::account::ToolboxIdlInstructionAccountPdaView;
use crate::blob::ToolboxIdlInstructionBlobView;
use crate::blob_export::spec_blob_export;
use crate::casing::spec_to_camel;
use crate::casing::to_camel_case;
use crate::format::ToolboxIdlFormat;
use crate::outside::base58_encode;
use crate::outside::base58_of;
use crate::value::lemma_value_entries_view;
use crate::value::lemma_value_seq_view;
use crate::value::spec_value_entries_view;
use crate::value::spec_value_seq_view;
use crate::value::ToolboxIdlValue;
use crate::value::ToolboxIdlValueView;

verus! {

/// The flag entries of an account under a dialect: each flag written
/// only when set, in the dialect's spelling and order.
pub open spec fn spec_account_flag_entries(
    account: crate::account::ToolboxIdlInstructionAccountView,
    format: ToolboxIdlFormat,
) -> Seq<(Seq<char>, ToolboxIdlValueView)> {
    if format.use_camel_case_instruction_account_flags {
        (if account.signer {
            seq![("isSigner"@, ToolboxIdlValueView::Bool(true))]
        } else {
            Seq::empty()
        }) + (if account.writable {
            seq![("isMut"@, ToolboxIdlValueView::Bool(true))]
        } else {
            Seq::empty()
        }) + (if account.optional {
            seq![("isOptional"@, ToolboxIdlValueView::Bool(true))]
        } else {
            Seq::empty()
        })
    } else {
        (if account.signer {
            seq![("signer"@, ToolboxIdlValueView::Bool(true))]
        } else {
            Seq::empty()
        }) + (if account.writable {
            seq![("writable"@, ToolboxIdlValueView::Bool(true))]
        } else {
            Seq::empty()
        }) + (if account.optional {
            seq![("optional"@, ToolboxIdlValueView::Bool(true))]
        } else {
            Seq::empty()
        })
    }
}

/// The document form of a derivation rule under a dialect.
pub open spec fn spec_pda_export(
    pda: ToolboxIdlInstructionAccountPdaView,
    format: ToolboxIdlFormat,
) -> ToolboxIdlValueView {
    let seeds_entry = seq![
        ("seeds"@, ToolboxIdlValueView::Array(spec_seeds_export(pda.seeds, format))),
    ];
    match pda.program {
        Some(program) => ToolboxIdlValueView::Object(
            seeds_entry + seq![("program"@, spec_blob_export(program, format))],
        ),
        None => ToolboxIdlValueView::Object(seeds_entry),
    }
}

/// The document forms of the seed blobs, in declared order.
pub open spec fn spec_seeds_export(
    seeds: Seq<ToolboxIdlInstructionBlobView>,
    format: ToolboxIdlFormat,
) -> Seq<ToolboxIdlValueView>
    decreases seeds.len(),
{
    if seeds.len() == 0 {
        Seq::empty()
    } else {
        seq![spec_blob_export(seeds[0], format)] + spec_seeds_export(seeds.skip(1), format)
    }
}

/// The document form of an instruction account under a dialect.
pub open spec fn spec_account_export(
    account: crate::account::ToolboxIdlInstructionAccountView,
    format: ToolboxIdlFormat,
) -> ToolboxIdlValueView {
    let name_entries = seq![
        (
            "name"@,
            ToolboxIdlValueView::String(
                if format.use_camel_case_instruction_account_names {
                    spec_to_camel(account.name)
                } else {
                    account.name
                },
            ),
        ),
    ];
    let docs_entries: Seq<(Seq<char>, ToolboxIdlValueView)> = match account.docs {
        Some(docs) => seq![("docs"@, docs)],
        None => Seq::empty(),
    };
    let address_entries: Seq<(Seq<char>, ToolboxIdlValueView)> = match account.address {
        Some(address) => seq![
            ("address"@, ToolboxIdlValueView::String(base58_of(address))),
        ],
        None => Seq::empty(),
    };
    let pda_entries: Seq<(Seq<char>, ToolboxIdlValueView)> = match account.pda {
        Some(pda) => seq![("pda"@, spec_pda_export(pda, format))],
        None => Seq::empty(),
    };
    ToolboxIdlValueView::Object(
        name_entries + docs_entries + spec_account_flag_entries(account, format)
            + address_entries + pda_entries,
    )
}

impl ToolboxIdlInstructionAccountPda {
    /// Writes this derivation rule back into its document form.
    pub fn export(&self, format: &ToolboxIdlFormat) -> (r: ToolboxIdlValue)
        ensures
            r@ == spec_pda_export(self@, *format),
    {
        let ghost seeds_view = self@.seeds;
        let mut exported: Vec<ToolboxIdlValue> = Vec::new();
        proof {
            lemma_value_seq_view(exported@);
            assert(spec_value_seq_view(exported@) =~= Seq::<ToolboxIdlValueView>::empty());
            assert(seeds_view.skip(0int) =~= seeds_view);
        }
        let mut i: usize = 0;
        while i < self.seeds.len()
            invariant
                0 <= i <= self.seeds@.len(),
                seeds_view == self@.seeds,
                seeds_view.len() == self.seeds@.len(),
                forall|j: int|
                    0 <= j < self.seeds@.len() ==> #[trigger] seeds_view[j] == self.seeds@[j]@,
                spec_seeds_export(seeds_view, *format) =~= spec_value_seq_view(exported@)
                    + spec_seeds_export(seeds_view.skip(i as int), *format),
            decreases self.seeds@.len() - i,
        {
            proof {
                assert(seeds_view.skip(i as int)[0] == seeds_view[i as int]);
                assert(seeds_view.skip(i as int).skip(1) =~= seeds_view.skip(i + 1));
            }
            let piece = self.seeds[i].export(format);
            let ghost prior = exported@;
            exported.push(piece);
            proof {
                assert(exported@.subrange(0, exported@.len() - 1) =~= prior);
                assert(spec_value_seq_view(exported@) =~= spec_value_seq_view(prior) + seq![
                    exported@.last()@,
                ]);
                let rest = spec_seeds_export(seeds_view.skip(i + 1), *format);
                assert(spec_value_seq_view(prior) + (seq![exported@.last()@] + rest)
                    =~= (spec_value_seq_view(prior) + seq![exported@.last()@]) + rest);
            }
            i += 1;
        }
        proof {
            assert(seeds_view.skip(seeds_view.len() as int) =~= Seq::<
                ToolboxIdlInstructionBlobView,
            >::empty());
            assert(spec_value_seq_view(exported@) + Seq::<ToolboxIdlValueView>::empty()
                =~= spec_value_seq_view(exported@));
        }
        let mut entries: Vec<(String, ToolboxIdlValue)> = Vec::new();
        entries.push((String::from_str("seeds"), ToolboxIdlValue::Array(exported)));
        match &self.program {
            Some(program) => {
                entries.push((String::from_str("program"), program.export(format)));
                let r = ToolboxIdlValue::Object(entries);
                proof {
                    lemma_value_entries_view(entries@);
                    assert(spec_value_entries_view(entries@) =~= seq![
                        (
                            "seeds"@,
                            ToolboxIdlValueView::Array(
                                spec_seeds_export(seeds_view, *format),
                            ),
                        ),
                    ] + seq![
                        ("program"@, spec_blob_export(self@.program.unwrap(), *format)),
                    ]);
                }
                r
            },
            None => {
                let r = ToolboxIdlValue::Object(entries);
                proof {
                    lemma_value_entries_view(entries@);
                    assert(spec_value_entries_view(entries@) =~= seq![
                        (
                            "seeds"@,
                            ToolboxIdlValueView::Array(
                                spec_seeds_export(seeds_view, *format),
                            ),
                        ),
                    ]);
                }
                r
            },
        }
    }
}

impl ToolboxIdlInstructionAccount {
    /// Writes this account back into its document form; a pure
    /// function of the account and the dialect.
    #[verifier::rlimit(100)]
    pub fn export(&self, format: &ToolboxIdlFormat) -> (r: ToolboxIdlValue)
        ensures
            r@ == spec_account_export(self@, *format),
    {
        let mut entries: Vec<(String, ToolboxIdlValue)> = Vec::new();
        let rendered_name = if format.use_camel_case_instruction_account_names {
            to_camel_case(self.name.as_str())
        } else {
            self.name.clone()
        };
        entries.push((String::from_str("name"), ToolboxIdlValue::String(rendered_name)));
        match &self.docs {
            Some(docs) => {
                entries.push((String::from_str("docs"), docs.clone()));
            },
            None => {},
        }
        if format.use_camel_case_instruction_account_flags {
            if self.signer {
                entries.push((String::from_str("isSigner"), ToolboxIdlValue::Bool(true)));
            }
            if self.writable {
                entries.push((String::from_str("isMut"), ToolboxIdlValue::Bool(true)));
            }
            if self.optional {
                entries.push((String::from_str("isOptional"), ToolboxIdlValue::Bool(true)));
            }
        } else {
            if self.signer {
                entries.push((String::from_str("signer"), ToolboxIdlValue::Bool(true)));
            }
            if self.writable {
                entries.push((String::from_str("writable"), ToolboxIdlValue::Bool(true)));
            }
            if self.optional {
                entries.push((String::from_str("optional"), ToolboxIdlValue::Bool(true)));
            }
        }
        match &self.address {
            Some(address) => {
                let rendered = base58_encode(&address.bytes);
                entries.push((String::from_str("address"), ToolboxIdlValue::String(rendered)));
            },
            None => {},
        }
        match &self.pda {
            Some(pda) => {
                entries.push((String::from_str("pda"), pda.export(format)));
            },
            None => {},
        }
        let r = ToolboxIdlValue::Object(entries);
        proof {
            lemma_value_entries_view(entries@);
            let name_entries = seq![
                (
                    "name"@,
                    ToolboxIdlValueView::String(
                        if format.use_camel_case_instruction_account_names {
                            spec_to_camel(self@.name)
                        } else {
                            self@.name
                        },
                    ),
                ),
            ];
            let docs_entries: Seq<(Seq<char>, ToolboxIdlValueView)> = match self@.docs {
                Some(docs) => seq![("docs"@, docs)],
                None => Seq::empty(),
            };
            let address_entries: Seq<(Seq<char>, ToolboxIdlValueView)> = match self@.address {
                Some(address) => seq![
                    ("address"@, ToolboxIdlValueView::String(base58_of(address))),
                ],
                None => Seq::empty(),
            };
            let pda_entries: Seq<(Seq<char>, ToolboxIdlValueView)> = match self@.pda {
                Some(pda) => seq![("pda"@, spec_pda_export(pda, *format))],
                None => Seq::empty(),
            };
            assert(spec_value_entries_view(entries@) =~= name_entries + docs_entries
                + spec_account_flag_entries(self@, *format) + address_entries + pda_entries);
        }
        r
    }
}

} // verus!
