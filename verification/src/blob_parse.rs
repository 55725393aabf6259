//! Parsing blob expressions out of an IDL document value. A blob is
//! written as an object with a constant `value` (and optional
//! `type`), an `arg` path into the instruction payload, or an account
//! path; a bare string or array is shorthand for a constant string or
//! byte-string seed. An argument blob without an explicit type takes
//! its type from the instruction's argument fields at the parsed
//! path.

use vstd::prelude::*;

use crate::error::ToolboxIdlError;
use crate::blob::ToolboxIdlInstructionBlob;
use crate::hydrate::spec_hydrate_full;
use crate::hydrate::SpecTypedefs;
use crate::hydrate::HYDRATE_FUEL;
use crate::lookup::ToolboxIdlLookup;
use crate::path::spec_part_matches;
use crate::path::spec_path_parse_ok;
use crate::path::spec_path_segments;
use crate::path::ToolboxIdlPath;
use crate::path::ToolboxIdlPathPart;
use crate::path_type::lemma_get_type_full_fields_congruent;
use crate::path_type::spec_get_type_full_fields;
use crate::path_type::spec_part_equiv;
use crate::path_type::spec_parts_equiv;
use crate::text::string_eq_str;
use crate::type_flat::spec_type_flat_view;
use crate::type_flat::ToolboxIdlTypeFlat;
use crate::type_flat::ToolboxIdlTypeFlatView;
use crate::type_flat_parse::spec_type_flat_parse;
use crate::type_full::spec_type_full_view;
use crate::type_full::ToolboxIdlTypeFull;
use crate::type_full::ToolboxIdlTypeFullFields;
use crate::type_full::ToolboxIdlTypeFullFieldsView;
use crate::type_full::ToolboxIdlTypeFullView;
use crate::type_prefix::ToolboxIdlTypePrefix;
use crate::type_primitive::ToolboxIdlTypePrimitive;
use crate::typedef::ToolboxIdlTypedef;
use crate::value::object_get;
use crate::value::spec_object_get;
use crate::value::ToolboxIdlValue;
use crate::value::ToolboxIdlValueView;

verus! {

/// Whether `parts` is the parse of the path string `s`: one part per
/// segment, each matching its segment.
pub open spec fn spec_parts_match_segments(
    parts: Seq<ToolboxIdlPathPart>,
    s: Seq<char>,
) -> bool {
    &&& parts.len() == spec_path_segments(s).len()
    &&& forall|j: int|
        0 <= j < parts.len() ==> spec_part_matches(
            #[trigger] parts[j],
            spec_path_segments(s)[j],
        )
}

/// Two parses of one path string agree up to string views.
pub proof fn lemma_parts_match_equiv(
    p1: Seq<ToolboxIdlPathPart>,
    p2: Seq<ToolboxIdlPathPart>,
    s: Seq<char>,
)
    requires
        spec_parts_match_segments(p1, s),
        spec_parts_match_segments(p2, s),
    ensures
        spec_parts_equiv(p1, p2),
{
    assert forall|i: int| 0 <= i < p1.len() implies spec_part_equiv(
        #[trigger] p1[i],
        #[trigger] p2[i],
    ) by {
        assert(spec_part_matches(p1[i], spec_path_segments(s)[i]));
        assert(spec_part_matches(p2[i], spec_path_segments(s)[i]));
    };
}

/// The implied types of an untyped constant seed: text is a
/// `u32`-prefixed string, an array of numbers a `u32`-prefixed byte
/// vector.
pub open spec fn spec_const_blob_types(cv: ToolboxIdlValueView) -> Option<
    (ToolboxIdlTypeFlatView, ToolboxIdlTypeFullView),
> {
    match cv {
        ToolboxIdlValueView::String(_) => Some(
            (
                ToolboxIdlTypeFlatView::String { prefix: ToolboxIdlTypePrefix::U32 },
                ToolboxIdlTypeFullView::String { prefix: ToolboxIdlTypePrefix::U32 },
            ),
        ),
        ToolboxIdlValueView::Array(_) => Some(
            (
                ToolboxIdlTypeFlatView::Vec {
                    prefix: ToolboxIdlTypePrefix::U32,
                    items: Box::new(
                        ToolboxIdlTypeFlatView::Primitive {
                            primitive: ToolboxIdlTypePrimitive::U8,
                        },
                    ),
                },
                ToolboxIdlTypeFullView::Vec {
                    prefix: ToolboxIdlTypePrefix::U32,
                    items: Box::new(
                        ToolboxIdlTypeFullView::Primitive {
                            primitive: ToolboxIdlTypePrimitive::U8,
                        },
                    ),
                },
            ),
        ),
        _ => None,
    }
}

/// Whether a declared type entry parses and hydrates under the
/// registry (with no generics in scope).
pub open spec fn spec_blob_type_ok(tv: ToolboxIdlValueView, typedefs: SpecTypedefs) -> bool {
    match spec_type_flat_parse(tv) {
        Some(flat) => spec_hydrate_full(
            flat,
            Seq::empty(),
            typedefs,
            HYDRATE_FUEL as nat,
        ) is Some,
        None => false,
    }
}

/// Whether a blob declaration parses: the success condition of
/// [`ToolboxIdlInstructionBlob::try_parse`], case by case.
pub open spec fn spec_blob_parse_ok(
    v: ToolboxIdlValueView,
    fields: ToolboxIdlTypeFullFieldsView,
    typedefs: SpecTypedefs,
) -> bool {
    match v {
        ToolboxIdlValueView::Object(entries) => {
            if spec_object_get(entries, "value"@) is Some {
                match spec_object_get(entries, "type"@) {
                    Some(tv) => spec_blob_type_ok(tv, typedefs),
                    None => spec_const_blob_types(
                        spec_object_get(entries, "value"@).unwrap(),
                    ) is Some,
                }
            } else {
                match spec_object_get(entries, "path"@) {
                    Some(ToolboxIdlValueView::String(ps)) => {
                        &&& spec_path_parse_ok(ps)
                        &&& if spec_object_get(entries, "kind"@) == Some(
                            ToolboxIdlValueView::String("arg"@),
                        ) {
                            match spec_object_get(entries, "type"@) {
                                Some(tv) => spec_blob_type_ok(tv, typedefs),
                                None => exists|parts: Seq<ToolboxIdlPathPart>|
                                    spec_parts_match_segments(parts, ps)
                                        && spec_get_type_full_fields(
                                        parts,
                                        fields,
                                    ) is Some,
                            }
                        } else {
                            match spec_object_get(entries, "type"@) {
                                Some(tv) => spec_blob_type_ok(tv, typedefs),
                                None => true,
                            }
                        }
                    },
                    _ => false,
                }
            }
        },
        _ => spec_const_blob_types(v) is Some,
    }
}

/// Whether `blob` is the parse of the declaration `v`: the
/// Ok-description of [`ToolboxIdlInstructionBlob::try_parse`].
pub open spec fn spec_blob_parse_matches(
    v: ToolboxIdlValueView,
    fields: ToolboxIdlTypeFullFieldsView,
    typedefs: SpecTypedefs,
    blob: ToolboxIdlInstructionBlob,
) -> bool {
    match v {
        ToolboxIdlValueView::Object(entries) => {
            if spec_object_get(entries, "value"@) is Some {
                let cv = spec_object_get(entries, "value"@).unwrap();
                &&& blob is Const
                &&& blob->Const_value@ == cv
                &&& match spec_object_get(entries, "type"@) {
                    Some(tv) => spec_type_flat_parse(tv) == Some(
                        spec_type_flat_view(blob->Const_type_flat),
                    ) && spec_hydrate_full(
                        spec_type_flat_view(blob->Const_type_flat),
                        Seq::empty(),
                        typedefs,
                        HYDRATE_FUEL as nat,
                    ) == Some(spec_type_full_view(blob->Const_type_full)),
                    None => spec_const_blob_types(cv) == Some(
                        (
                            spec_type_flat_view(blob->Const_type_flat),
                            spec_type_full_view(blob->Const_type_full),
                        ),
                    ),
                }
            } else {
                match spec_object_get(entries, "path"@) {
                    Some(ToolboxIdlValueView::String(ps)) => {
                        if spec_object_get(entries, "kind"@) == Some(
                            ToolboxIdlValueView::String("arg"@),
                        ) {
                            &&& blob is Arg
                            &&& spec_parts_match_segments(blob->Arg_path.parts@, ps)
                            &&& match spec_object_get(entries, "type"@) {
                                Some(tv) => blob->Arg_type_flat matches Some(flat)
                                    && spec_type_flat_parse(tv) == Some(
                                    spec_type_flat_view(flat),
                                ) && spec_hydrate_full(
                                    spec_type_flat_view(flat),
                                    Seq::empty(),
                                    typedefs,
                                    HYDRATE_FUEL as nat,
                                ) == Some(spec_type_full_view(blob->Arg_type_full)),
                                None => blob->Arg_type_flat is None
                                    && spec_get_type_full_fields(
                                    blob->Arg_path.parts@,
                                    fields,
                                ) == Some(spec_type_full_view(blob->Arg_type_full)),
                            }
                        } else {
                            &&& blob is Account
                            &&& spec_parts_match_segments(blob->Account_path.parts@, ps)
                            &&& match spec_object_get(entries, "account"@) {
                                Some(ToolboxIdlValueView::String(name)) => blob
                                    ->Account_account matches Some(stored) && stored@
                                    == name,
                                _ => blob->Account_account is None,
                            }
                            &&& match spec_object_get(entries, "type"@) {
                                Some(tv) => blob->Account_typing matches Some(pair)
                                    && spec_type_flat_parse(tv) == Some(
                                    spec_type_flat_view(pair.0),
                                ) && spec_hydrate_full(
                                    spec_type_flat_view(pair.0),
                                    Seq::empty(),
                                    typedefs,
                                    HYDRATE_FUEL as nat,
                                ) == Some(spec_type_full_view(pair.1)),
                                None => blob->Account_typing is None,
                            }
                        }
                    },
                    _ => false,
                }
            }
        },
        _ => {
            &&& blob is Const
            &&& blob->Const_value@ == v
            &&& spec_const_blob_types(v) == Some(
                (
                    spec_type_flat_view(blob->Const_type_flat),
                    spec_type_full_view(blob->Const_type_full),
                ),
            )
        },
    }
}

/// Parses a constant blob with its implied type.
fn parse_const_untyped(value: &ToolboxIdlValue) -> (r: Result<
    ToolboxIdlInstructionBlob,
    ToolboxIdlError,
>)
    ensures
        match r {
            Ok(blob) => blob is Const && blob->Const_value@ == value@
                && spec_const_blob_types(value@) == Some(
                (
                    spec_type_flat_view(blob->Const_type_flat),
                    spec_type_full_view(blob->Const_type_full),
                ),
            ),
            Err(_) => spec_const_blob_types(value@) is None,
        },
{
    match value {
        ToolboxIdlValue::String(_) => {
            let r = ToolboxIdlInstructionBlob::Const {
                value: value.clone(),
                type_flat: ToolboxIdlTypeFlat::String { prefix: ToolboxIdlTypePrefix::U32 },
                type_full: ToolboxIdlTypeFull::String { prefix: ToolboxIdlTypePrefix::U32 },
            };
            Ok(r)
        },
        ToolboxIdlValue::Array(_) => {
            let flat_items = ToolboxIdlTypeFlat::Primitive {
                primitive: ToolboxIdlTypePrimitive::U8,
            };
            let full_items = ToolboxIdlTypeFull::Primitive {
                primitive: ToolboxIdlTypePrimitive::U8,
            };
            proof {
                assert(flat_items@ == (ToolboxIdlTypeFlatView::Primitive {
                    primitive: ToolboxIdlTypePrimitive::U8,
                }));
                assert(full_items@ == (ToolboxIdlTypeFullView::Primitive {
                    primitive: ToolboxIdlTypePrimitive::U8,
                }));
            }
            let r = ToolboxIdlInstructionBlob::Const {
                value: value.clone(),
                type_flat: ToolboxIdlTypeFlat::Vec {
                    prefix: ToolboxIdlTypePrefix::U32,
                    items: Box::new(flat_items),
                },
                type_full: ToolboxIdlTypeFull::Vec {
                    prefix: ToolboxIdlTypePrefix::U32,
                    items: Box::new(full_items),
                },
            };
            Ok(r)
        },
        _ => Err(
            ToolboxIdlError::Parse(
                String::from_str("constant seed must be text, bytes, or typed"),
            ),
        ),
    }
}

/// Parses and hydrates a declared seed type (no generics in scope).
fn parse_blob_type(
    type_value: &ToolboxIdlValue,
    typedefs: &ToolboxIdlLookup<ToolboxIdlTypedef>,
) -> (r: Result<(ToolboxIdlTypeFlat, ToolboxIdlTypeFull), ToolboxIdlError>)
    ensures
        match r {
            Ok(pair) => spec_type_flat_parse(type_value@) == Some(pair.0@)
                && spec_hydrate_full(
                pair.0@,
                Seq::empty(),
                typedefs@,
                HYDRATE_FUEL as nat,
            ) == Some(pair.1@),
            Err(_) => !spec_blob_type_ok(type_value@, typedefs@),
        },
{
    let type_flat = ToolboxIdlTypeFlat::try_parse(type_value)?;
    let no_generics: ToolboxIdlLookup<crate::type_full::ToolboxIdlTypeFullOrConstLiteral> =
        ToolboxIdlLookup::new();
    let type_full = type_flat.try_hydrate(&no_generics, typedefs)?;
    Ok((type_flat, type_full))
}

impl ToolboxIdlInstructionBlob {
    /// Parses a blob declaration. Succeeds exactly when the
    /// declaration is well-formed (and, for an argument blob without
    /// an explicit type, when the parsed path resolves a type in the
    /// instruction's argument fields), and then returns the blob the
    /// declaration describes.
    pub fn try_parse(
        idl_instruction_blob: &ToolboxIdlValue,
        instruction_args_type_full_fields: &ToolboxIdlTypeFullFields,
        typedefs: &ToolboxIdlLookup<ToolboxIdlTypedef>,
    ) -> (r: Result<ToolboxIdlInstructionBlob, ToolboxIdlError>)
        ensures
            r is Ok <==> spec_blob_parse_ok(
                idl_instruction_blob@,
                instruction_args_type_full_fields@,
                typedefs@,
            ),
            r matches Ok(blob) ==> spec_blob_parse_matches(
                idl_instruction_blob@,
                instruction_args_type_full_fields@,
                typedefs@,
                blob,
            ),
    {
        let entries = match idl_instruction_blob {
            ToolboxIdlValue::Object(entries) => entries,
            _ => {
                return parse_const_untyped(idl_instruction_blob);
            },
        };
        if let Some(const_value) = object_get(entries, "value") {
            return match object_get(entries, "type") {
                Some(type_value) => {
                    let (type_flat, type_full) = parse_blob_type(type_value, typedefs)?;
                    Ok(ToolboxIdlInstructionBlob::Const {
                        value: const_value.clone(),
                        type_flat,
                        type_full,
                    })
                },
                None => parse_const_untyped(const_value),
            };
        }
        let path_text = match object_get(entries, "path") {
            Some(ToolboxIdlValue::String(path_text)) => path_text,
            _ => {
                return Err(
                    ToolboxIdlError::Parse(String::from_str("blob needs a path or a value")),
                );
            },
        };
        let kind_is_arg = match object_get(entries, "kind") {
            Some(ToolboxIdlValue::String(kind)) => string_eq_str(kind, "arg"),
            _ => false,
        };
        let path = ToolboxIdlPath::try_parse(path_text.as_str())?;
        if kind_is_arg {
            match object_get(entries, "type") {
                Some(type_value) => {
                    let (type_flat, type_full) = parse_blob_type(type_value, typedefs)?;
                    Ok(ToolboxIdlInstructionBlob::Arg {
                        path,
                        type_flat: Some(type_flat),
                        type_full,
                    })
                },
                None => {
                    let resolved = match path.try_get_type_full_fields(
                        instruction_args_type_full_fields,
                    ) {
                        Ok(resolved) => resolved,
                        Err(error) => {
                            proof {
                                assert forall|parts: Seq<ToolboxIdlPathPart>|
                                    spec_parts_match_segments(parts, path_text@) implies
                                    !(spec_get_type_full_fields(
                                    parts,
                                    instruction_args_type_full_fields@,
                                ) is Some) by {
                                    lemma_parts_match_equiv(
                                        parts,
                                        path.parts@,
                                        path_text@,
                                    );
                                    lemma_get_type_full_fields_congruent(
                                        parts,
                                        path.parts@,
                                        instruction_args_type_full_fields@,
                                    );
                                };
                            }
                            return Err(error);
                        },
                    };
                    let type_full = resolved.clone();
                    Ok(ToolboxIdlInstructionBlob::Arg { path, type_flat: None, type_full })
                },
            }
        } else {
            let account: Option<String> = match object_get(entries, "account") {
                Some(ToolboxIdlValue::String(name)) => Some(name.clone()),
                _ => None,
            };
            let typing = match object_get(entries, "type") {
                Some(type_value) => Some(parse_blob_type(type_value, typedefs)?),
                None => None,
            };
            Ok(ToolboxIdlInstructionBlob::Account { account, path, typing })
        }
    }
}

} // verus!
