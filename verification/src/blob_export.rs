//! Writing a blob expression back into its document form, under a
//! chosen export dialect: a constant seed may collapse to its bare
//! value where the dialect allows and the type is a plain byte vector
//! or string, and an account seed's `kind` marker may be elided.

use vstd::prelude::*;

use crate::blob::ToolboxIdlInstructionBlob;
use crate::blob::ToolboxIdlInstructionBlobView;
use crate::format::ToolboxIdlFormat;
use crate::path::spec_path_value;
use crate::type_flat_export::spec_type_flat_export;
use crate::value::lemma_value_entries_view;
use crate::value::spec_value_entries_view;
use crate::value::ToolboxIdlValue;
use crate::value::ToolboxIdlValueView;

verus! {

/// The document form of a blob under a dialect.
pub open spec fn spec_blob_export(
    blob: ToolboxIdlInstructionBlobView,
    format: ToolboxIdlFormat,
) -> ToolboxIdlValueView {
    match blob {
        ToolboxIdlInstructionBlobView::Const { value, type_flat, type_full } => {
            if format.can_skip_instruction_account_pda_object_wrap && (
            type_full.spec_is_vec32_u8() || type_full.spec_is_string32()) {
                value
            } else {
                ToolboxIdlValueView::Object(
                    seq![
                        ("kind"@, ToolboxIdlValueView::String("const"@)),
                        ("type"@, spec_type_flat_export(type_flat)),
                        ("value"@, value),
                    ],
                )
            }
        },
        ToolboxIdlInstructionBlobView::Arg { parts, type_flat, .. } => {
            let base = seq![
                ("kind"@, ToolboxIdlValueView::String("arg"@)),
                ("path"@, ToolboxIdlValueView::String(spec_path_value(parts))),
            ];
            match type_flat {
                Some(flat) => ToolboxIdlValueView::Object(
                    base + seq![("type"@, spec_type_flat_export(flat))],
                ),
                None => ToolboxIdlValueView::Object(base),
            }
        },
        ToolboxIdlInstructionBlobView::Account { account, parts, typing } => {
            let account_entries: Seq<(Seq<char>, ToolboxIdlValueView)> = match account {
                Some(name) => seq![("account"@, ToolboxIdlValueView::String(name))],
                None => Seq::empty(),
            };
            let kind_entries: Seq<(Seq<char>, ToolboxIdlValueView)> =
                if format.can_skip_instruction_account_pda_account_kind {
                Seq::empty()
            } else {
                seq![("kind"@, ToolboxIdlValueView::String("account"@))]
            };
            let path_entries = seq![
                ("path"@, ToolboxIdlValueView::String(spec_path_value(parts))),
            ];
            let type_entries: Seq<(Seq<char>, ToolboxIdlValueView)> = match typing {
                Some(pair) => seq![("type"@, spec_type_flat_export(pair.0))],
                None => Seq::empty(),
            };
            ToolboxIdlValueView::Object(
                account_entries + kind_entries + path_entries + type_entries,
            )
        },
    }
}

impl ToolboxIdlInstructionBlob {
    /// Writes this blob back into its document form; a pure function
    /// of the blob and the dialect.
    pub fn export(&self, format: &ToolboxIdlFormat) -> (r: ToolboxIdlValue)
        ensures
            r@ == spec_blob_export(self@, *format),
    {
        match self {
            ToolboxIdlInstructionBlob::Const { value, type_flat, type_full } => {
                if format.can_skip_instruction_account_pda_object_wrap && (
                type_full.is_vec32_u8() || type_full.is_string32()) {
                    return value.clone();
                }
                let mut entries: Vec<(String, ToolboxIdlValue)> = Vec::new();
                entries.push(
                    (
                        String::from_str("kind"),
                        ToolboxIdlValue::String(String::from_str("const")),
                    ),
                );
                entries.push((String::from_str("type"), type_flat.export()));
                entries.push((String::from_str("value"), value.clone()));
                let r = ToolboxIdlValue::Object(entries);
                proof {
                    lemma_value_entries_view(entries@);
                    assert(spec_value_entries_view(entries@) =~= seq![
                        ("kind"@, ToolboxIdlValueView::String("const"@)),
                        ("type"@, spec_type_flat_export(self@->Const_type_flat)),
                        ("value"@, self@->Const_value),
                    ]);
                }
                r
            },
            ToolboxIdlInstructionBlob::Arg { path, type_flat, .. } => {
                let mut entries: Vec<(String, ToolboxIdlValue)> = Vec::new();
                entries.push(
                    (
                        String::from_str("kind"),
                        ToolboxIdlValue::String(String::from_str("arg")),
                    ),
                );
                entries.push((String::from_str("path"), ToolboxIdlValue::String(path.value())));
                match type_flat {
                    Some(flat) => {
                        entries.push((String::from_str("type"), flat.export()));
                        let r = ToolboxIdlValue::Object(entries);
                        proof {
                            lemma_value_entries_view(entries@);
                            assert(spec_value_entries_view(entries@) =~= seq![
                                ("kind"@, ToolboxIdlValueView::String("arg"@)),
                                (
                                    "path"@,
                                    ToolboxIdlValueView::String(
                                        spec_path_value(path.parts@),
                                    ),
                                ),
                            ] + seq![
                                (
                                    "type"@,
                                    spec_type_flat_export(
                                        crate::type_flat::spec_type_flat_view(*flat),
                                    ),
                                ),
                            ]);
                        }
                        r
                    },
                    None => {
                        let r = ToolboxIdlValue::Object(entries);
                        proof {
                            lemma_value_entries_view(entries@);
                            assert(spec_value_entries_view(entries@) =~= seq![
                                ("kind"@, ToolboxIdlValueView::String("arg"@)),
                                (
                                    "path"@,
                                    ToolboxIdlValueView::String(
                                        spec_path_value(path.parts@),
                                    ),
                                ),
                            ]);
                        }
                        r
                    },
                }
            },
            ToolboxIdlInstructionBlob::Account { account, path, typing } => {
                let ghost account_entries: Seq<(Seq<char>, ToolboxIdlValueView)> =
                    match self@->Account_account {
                    Some(name) => seq![("account"@, ToolboxIdlValueView::String(name))],
                    None => Seq::empty(),
                };
                let ghost kind_entries: Seq<(Seq<char>, ToolboxIdlValueView)> =
                    if format.can_skip_instruction_account_pda_account_kind {
                    Seq::empty()
                } else {
                    seq![("kind"@, ToolboxIdlValueView::String("account"@))]
                };
                let ghost path_entries = seq![
                    ("path"@, ToolboxIdlValueView::String(spec_path_value(path.parts@))),
                ];
                let ghost type_entries: Seq<(Seq<char>, ToolboxIdlValueView)> =
                    match self@->Account_typing {
                    Some(pair) => seq![("type"@, spec_type_flat_export(pair.0))],
                    None => Seq::empty(),
                };
                let mut entries: Vec<(String, ToolboxIdlValue)> = Vec::new();
                match account {
                    Some(name) => {
                        entries.push(
                            (
                                String::from_str("account"),
                                ToolboxIdlValue::String(name.clone()),
                            ),
                        );
                    },
                    None => {},
                }
                if !format.can_skip_instruction_account_pda_account_kind {
                    entries.push(
                        (
                            String::from_str("kind"),
                            ToolboxIdlValue::String(String::from_str("account")),
                        ),
                    );
                }
                entries.push((String::from_str("path"), ToolboxIdlValue::String(path.value())));
                match typing {
                    Some(pair) => {
                        entries.push((String::from_str("type"), pair.0.export()));
                    },
                    None => {},
                }
                let r = ToolboxIdlValue::Object(entries);
                proof {
                    lemma_value_entries_view(entries@);
                    assert(spec_value_entries_view(entries@) =~= account_entries + kind_entries
                        + path_entries + type_entries);
                }
                r
            },
        }
    }
}

} // verus!
