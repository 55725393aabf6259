//! Parsing the unresolved type grammar out of an IDL document value.
//! A type is written as a primitive or typedef name, a one- or
//! two-element array (vector or fixed array), or a single-purpose
//! object: a vector, an option, a typedef reference with generic
//! arguments, a generic symbol, a struct field list, an enum variant
//! list, or an explicit padding wrapper.

use vstd::prelude::*;

use crate::decimal::spec_digits_val;
use crate::decimal::spec_is_numeric;
use crate::error::ToolboxIdlError;
use crate::text::str_eq;
use crate::text::string_eq_str;
use crate::type_flat::lemma_type_flat_seq_view;
use crate::type_flat::spec_type_flat_view;
use crate::type_flat::spec_type_flat_variant_view;
use crate::type_flat::spec_type_flat_seq_view;
use crate::type_flat::spec_type_flat_variants_view;
use crate::type_flat::spec_type_flat_fields_named_view;
use crate::type_flat::spec_type_flat_fields_unnamed_view;
use crate::type_flat::lemma_type_flat_variants_view;
use crate::type_flat::lemma_type_flat_fields_named_view;
use crate::type_flat::lemma_type_flat_fields_unnamed_view;
use crate::type_flat::ToolboxIdlTypeFlat;
use crate::type_flat::ToolboxIdlTypeFlatEnumVariant;
use crate::type_flat::ToolboxIdlTypeFlatEnumVariantView;
use crate::type_flat::ToolboxIdlTypeFlatFieldNamed;
use crate::type_flat::ToolboxIdlTypeFlatFieldUnnamed;
use crate::type_flat::ToolboxIdlTypeFlatFields;
use crate::type_flat::ToolboxIdlTypeFlatFieldsView;
use crate::type_flat::ToolboxIdlTypeFlatView;
use crate::type_prefix::ToolboxIdlTypePrefix;
use crate::type_primitive::ToolboxIdlTypePrimitive;
use crate::value::object_get;
use crate::value::spec_object_get;
use crate::value::lemma_value_entries_view;
use crate::value::lemma_value_seq_view;
use crate::value::spec_value_entries_view;
use crate::value::spec_value_seq_view;
use crate::value::ToolboxIdlValue;
use crate::value::ToolboxIdlValueView;

verus! {

/// The type a name denotes when it stands alone: a primitive, a
/// string, a byte vector, or a reference to a typedef.
pub open spec fn spec_parse_name(s: Seq<char>) -> ToolboxIdlTypeFlatView {
    match ToolboxIdlTypePrimitive::spec_of_name(s) {
        Some(primitive) => ToolboxIdlTypeFlatView::Primitive { primitive },
        None => {
            if s == "string"@ {
                ToolboxIdlTypeFlatView::String { prefix: ToolboxIdlTypePrefix::U32 }
            } else if s == "bytes"@ {
                ToolboxIdlTypeFlatView::Vec {
                    prefix: ToolboxIdlTypePrefix::U32,
                    items: Box::new(
                        ToolboxIdlTypeFlatView::Primitive {
                            primitive: ToolboxIdlTypePrimitive::U8,
                        },
                    ),
                }
            } else {
                ToolboxIdlTypeFlatView::Defined { name: s, generics: Seq::empty() }
            }
        },
    }
}

/// The enum discriminant code a value denotes: a number or a decimal
/// string.
pub open spec fn spec_parse_code(v: ToolboxIdlValueView) -> Option<u128> {
    match v {
        ToolboxIdlValueView::Number(n) => {
            if 0 <= n <= u128::MAX {
                Some(n as u128)
            } else {
                None
            }
        },
        ToolboxIdlValueView::String(s) => {
            if spec_is_numeric(s) && spec_digits_val(s) <= u128::MAX {
                Some(spec_digits_val(s) as u128)
            } else {
                None
            }
        },
        _ => None,
    }
}

/// Parses the enum discriminant code out of a value.
fn parse_code(value: &ToolboxIdlValue) -> (r: Option<u128>)
    ensures
        r == spec_parse_code(value@),
{
    match value {
        ToolboxIdlValue::Number(n) => {
            if *n >= 0 {
                Some(*n as u128)
            } else {
                None
            }
        },
        ToolboxIdlValue::String(s) => {
            match crate::serialize::str_numeric_val(s.as_str()) {
                Some(Some(v)) => Some(v),
                Some(None) => None,
                None => None,
            }
        },
        _ => None,
    }
}

/// Parses a stand-alone type name.
fn parse_name(name: &str) -> (r: ToolboxIdlTypeFlat)
    ensures
        r@ == spec_parse_name(name@),
{
    match ToolboxIdlTypePrimitive::try_parse(name) {
        Some(primitive) => ToolboxIdlTypeFlat::Primitive { primitive },
        None => {
            if str_eq(name, "string") {
                ToolboxIdlTypeFlat::String { prefix: ToolboxIdlTypePrefix::U32 }
            } else if str_eq(name, "bytes") {
                let inner = ToolboxIdlTypeFlat::Primitive {
                    primitive: ToolboxIdlTypePrimitive::U8,
                };
                proof {
                    assert(inner@ == (ToolboxIdlTypeFlatView::Primitive {
                        primitive: ToolboxIdlTypePrimitive::U8,
                    }));
                }
                let r = ToolboxIdlTypeFlat::Vec {
                    prefix: ToolboxIdlTypePrefix::U32,
                    items: Box::new(inner),
                };
                proof {
                    assert(r@ == (ToolboxIdlTypeFlatView::Vec {
                        prefix: ToolboxIdlTypePrefix::U32,
                        items: Box::new(
                            ToolboxIdlTypeFlatView::Primitive {
                                primitive: ToolboxIdlTypePrimitive::U8,
                            },
                        ),
                    }));
                }
                r
            } else {
                let r = ToolboxIdlTypeFlat::Defined {
                    name: String::from_str(name),
                    generics: Vec::new(),
                };
                proof {
                    lemma_type_flat_seq_view(r->Defined_generics@);
                    assert(spec_type_flat_seq_view(r->Defined_generics@)
                        =~= Seq::<ToolboxIdlTypeFlatView>::empty());
                }
                r
            }
        },
    }
}

/// The unresolved type a document value denotes; `None` is a malformed
/// declaration.
pub open spec fn spec_type_flat_parse(v: ToolboxIdlValueView) -> Option<ToolboxIdlTypeFlatView>
    decreases v, 0int, 0int,
{
    match v {
        ToolboxIdlValueView::String(s) => Some(spec_parse_name(s)),
        ToolboxIdlValueView::Number(n) => {
            if 0 <= n <= u64::MAX {
                Some(ToolboxIdlTypeFlatView::Const { literal: n as u64 })
            } else {
                None
            }
        },
        ToolboxIdlValueView::Array(items) => {
            proof {
                assert(decreases_to!(v => v->Array_0));
            }
            if items.len() == 1 {
                proof {
                    assert(decreases_to!(items => items[0]));
                }
                match spec_type_flat_parse(items[0]) {
                    Some(item) => Some(
                        ToolboxIdlTypeFlatView::Vec {
                            prefix: ToolboxIdlTypePrefix::U32,
                            items: Box::new(item),
                        },
                    ),
                    None => None,
                }
            } else if items.len() == 2 {
                proof {
                    assert(decreases_to!(items => items[0]));
                    assert(decreases_to!(items => items[1]));
                }
                match (spec_type_flat_parse(items[0]), spec_type_flat_parse(items[1])) {
                    (Some(item), Some(length)) => Some(
                        ToolboxIdlTypeFlatView::Array {
                            items: Box::new(item),
                            length: Box::new(length),
                        },
                    ),
                    _ => None,
                }
            } else {
                None
            }
        },
        ToolboxIdlValueView::Object(entries) => {
            proof {
                assert(decreases_to!(v => v->Object_0));
            }
            spec_parse_object(entries)
        },
        _ => None,
    }
}

/// A wrapped content type under a key: a vector when `is_vec`, an
/// option otherwise.
pub open spec fn spec_wrap(
    prefix: ToolboxIdlTypePrefix,
    is_vec: bool,
    content: Option<ToolboxIdlTypeFlatView>,
) -> Option<ToolboxIdlTypeFlatView> {
    match content {
        Some(content) => Some(
            if is_vec {
                ToolboxIdlTypeFlatView::Vec { prefix, items: Box::new(content) }
            } else {
                ToolboxIdlTypeFlatView::Option { prefix, content: Box::new(content) }
            },
        ),
        None => None,
    }
}

/// The type a single-purpose object denotes, by its distinguishing
/// key; the first recognized key wins.
pub open spec fn spec_parse_object(
    entries: Seq<(Seq<char>, ToolboxIdlValueView)>,
) -> Option<ToolboxIdlTypeFlatView>
    decreases entries, 4int, 0int,
{
    if spec_object_get(entries, "vec"@) is Some {
        proof {
            crate::value::lemma_object_get_smaller(entries, "vec"@);
        }
        spec_wrap(
            ToolboxIdlTypePrefix::U32,
            true,
            spec_type_flat_parse(spec_object_get(entries, "vec"@).unwrap()),
        )
    } else if spec_object_get(entries, "vec8"@) is Some {
        proof {
            crate::value::lemma_object_get_smaller(entries, "vec8"@);
        }
        spec_wrap(
            ToolboxIdlTypePrefix::U8,
            true,
            spec_type_flat_parse(spec_object_get(entries, "vec8"@).unwrap()),
        )
    } else if spec_object_get(entries, "vec16"@) is Some {
        proof {
            crate::value::lemma_object_get_smaller(entries, "vec16"@);
        }
        spec_wrap(
            ToolboxIdlTypePrefix::U16,
            true,
            spec_type_flat_parse(spec_object_get(entries, "vec16"@).unwrap()),
        )
    } else if spec_object_get(entries, "vec64"@) is Some {
        proof {
            crate::value::lemma_object_get_smaller(entries, "vec64"@);
        }
        spec_wrap(
            ToolboxIdlTypePrefix::U64,
            true,
            spec_type_flat_parse(spec_object_get(entries, "vec64"@).unwrap()),
        )
    } else if spec_object_get(entries, "option"@) is Some {
        proof {
            crate::value::lemma_object_get_smaller(entries, "option"@);
        }
        spec_wrap(
            ToolboxIdlTypePrefix::U8,
            false,
            spec_type_flat_parse(spec_object_get(entries, "option"@).unwrap()),
        )
    } else if spec_object_get(entries, "option32"@) is Some {
        proof {
            crate::value::lemma_object_get_smaller(entries, "option32"@);
        }
        spec_wrap(
            ToolboxIdlTypePrefix::U32,
            false,
            spec_type_flat_parse(spec_object_get(entries, "option32"@).unwrap()),
        )
    } else if spec_object_get(entries, "option64"@) is Some {
        proof {
            crate::value::lemma_object_get_smaller(entries, "option64"@);
        }
        spec_wrap(
            ToolboxIdlTypePrefix::U64,
            false,
            spec_type_flat_parse(spec_object_get(entries, "option64"@).unwrap()),
        )
    } else if spec_object_get(entries, "defined"@) is Some {
        proof {
            crate::value::lemma_object_get_smaller(entries, "defined"@);
        }
        spec_parse_defined(spec_object_get(entries, "defined"@).unwrap())
    } else if spec_object_get(entries, "generic"@) is Some {
        match spec_object_get(entries, "generic"@).unwrap() {
            ToolboxIdlValueView::String(symbol) => Some(
                ToolboxIdlTypeFlatView::Generic { symbol },
            ),
            _ => None,
        }
    } else if spec_object_get(entries, "fields"@) is Some {
        proof {
            crate::value::lemma_object_get_smaller(entries, "fields"@);
        }
        match spec_object_get(entries, "fields"@).unwrap() {
            ToolboxIdlValueView::Array(items) => {
                match spec_parse_fields(items) {
                    Some(fields) => Some(ToolboxIdlTypeFlatView::Struct { fields }),
                    None => None,
                }
            },
            _ => None,
        }
    } else if spec_object_get(entries, "variants"@) is Some {
        proof {
            crate::value::lemma_object_get_smaller(entries, "variants"@);
        }
        spec_parse_enum(ToolboxIdlTypePrefix::U8, spec_object_get(entries, "variants"@).unwrap())
    } else if spec_object_get(entries, "variants8"@) is Some {
        proof {
            crate::value::lemma_object_get_smaller(entries, "variants8"@);
        }
        spec_parse_enum(
            ToolboxIdlTypePrefix::U8,
            spec_object_get(entries, "variants8"@).unwrap(),
        )
    } else if spec_object_get(entries, "variants16"@) is Some {
        proof {
            crate::value::lemma_object_get_smaller(entries, "variants16"@);
        }
        spec_parse_enum(
            ToolboxIdlTypePrefix::U16,
            spec_object_get(entries, "variants16"@).unwrap(),
        )
    } else if spec_object_get(entries, "variants32"@) is Some {
        proof {
            crate::value::lemma_object_get_smaller(entries, "variants32"@);
        }
        spec_parse_enum(
            ToolboxIdlTypePrefix::U32,
            spec_object_get(entries, "variants32"@).unwrap(),
        )
    } else if spec_object_get(entries, "variants64"@) is Some {
        proof {
            crate::value::lemma_object_get_smaller(entries, "variants64"@);
        }
        spec_parse_enum(
            ToolboxIdlTypePrefix::U64,
            spec_object_get(entries, "variants64"@).unwrap(),
        )
    } else if spec_object_get(entries, "variants128"@) is Some {
        proof {
            crate::value::lemma_object_get_smaller(entries, "variants128"@);
        }
        spec_parse_enum(
            ToolboxIdlTypePrefix::U128,
            spec_object_get(entries, "variants128"@).unwrap(),
        )
    } else if spec_object_get(entries, "padded"@) is Some {
        proof {
            crate::value::lemma_object_get_smaller(entries, "padded"@);
        }
        spec_parse_padded(spec_object_get(entries, "padded"@).unwrap())
    } else {
        None
    }
}

/// A typedef reference: a bare name, or an object with a name and
/// generic arguments.
pub open spec fn spec_parse_defined(v: ToolboxIdlValueView) -> Option<ToolboxIdlTypeFlatView>
    decreases v, 3int, 0int,
{
    match v {
        ToolboxIdlValueView::String(name) => Some(
            ToolboxIdlTypeFlatView::Defined { name, generics: Seq::empty() },
        ),
        ToolboxIdlValueView::Object(entries) => {
            proof {
                assert(decreases_to!(v => v->Object_0));
            }
            match spec_object_get(entries, "name"@) {
                Some(ToolboxIdlValueView::String(name)) => {
                    match spec_object_get(entries, "generics"@) {
                        None => Some(
                            ToolboxIdlTypeFlatView::Defined { name, generics: Seq::empty() },
                        ),
                        Some(ToolboxIdlValueView::Array(items)) => {
                            proof {
                                crate::value::lemma_object_get_smaller(entries, "generics"@);
                            }
                            match spec_parse_type_list(items) {
                                Some(generics) => Some(
                                    ToolboxIdlTypeFlatView::Defined { name, generics },
                                ),
                                None => None,
                            }
                        },
                        Some(_) => None,
                    }
                },
                _ => None,
            }
        },
        _ => None,
    }
}

/// A list of type declarations, in order.
pub open spec fn spec_parse_type_list(items: Seq<ToolboxIdlValueView>) -> Option<
    Seq<ToolboxIdlTypeFlatView>,
>
    decreases items, 2int, 0int,
{
    if items.len() == 0 {
        Some(Seq::empty())
    } else {
        proof {
            assert(decreases_to!(items => items[0]));
        }
        match spec_type_flat_parse(items[0]) {
            Some(first) => {
                match spec_parse_type_list(items.skip(1)) {
                    Some(rest) => Some(seq![first] + rest),
                    None => None,
                }
            },
            None => None,
        }
    }
}

/// A field list: named when the first element is an object bearing a
/// name, positional otherwise, nothing when empty.
pub open spec fn spec_parse_fields(items: Seq<ToolboxIdlValueView>) -> Option<
    ToolboxIdlTypeFlatFieldsView,
>
    decreases items, 3int, 0int,
{
    if items.len() == 0 {
        Some(ToolboxIdlTypeFlatFieldsView::Nothing)
    } else if spec_element_is_named(items[0]) {
        match spec_parse_fields_named(items) {
            Some(fields) => Some(ToolboxIdlTypeFlatFieldsView::Named(fields)),
            None => None,
        }
    } else {
        match spec_parse_type_list(items) {
            Some(contents) => Some(
                ToolboxIdlTypeFlatFieldsView::Unnamed(contents),
            ),
            None => None,
        }
    }
}

/// Whether a field declaration carries a name.
pub open spec fn spec_element_is_named(v: ToolboxIdlValueView) -> bool {
    match v {
        ToolboxIdlValueView::Object(entries) => spec_object_get(entries, "name"@) is Some,
        _ => false,
    }
}

/// Named field declarations, in order; each needs a name, and its
/// content is its `type` entry, or the declaration itself when the
/// type is written inline.
pub open spec fn spec_parse_fields_named(items: Seq<ToolboxIdlValueView>) -> Option<
    Seq<(Seq<char>, ToolboxIdlTypeFlatView)>,
>
    decreases items, 2int, 0int,
{
    if items.len() == 0 {
        Some(Seq::empty())
    } else {
        proof {
            assert(decreases_to!(items => items[0]));
        }
        match spec_parse_field_named(items[0]) {
            Some(field) => {
                match spec_parse_fields_named(items.skip(1)) {
                    Some(rest) => Some(seq![field] + rest),
                    None => None,
                }
            },
            None => None,
        }
    }
}

/// One named field declaration.
pub open spec fn spec_parse_field_named(v: ToolboxIdlValueView) -> Option<
    (Seq<char>, ToolboxIdlTypeFlatView),
>
    decreases v, 1int, 0int,
{
    match v {
        ToolboxIdlValueView::Object(entries) => {
            proof {
                assert(decreases_to!(v => v->Object_0));
            }
            match spec_object_get(entries, "name"@) {
                Some(ToolboxIdlValueView::String(name)) => {
                    match spec_object_get(entries, "type"@) {
                        Some(tv) => {
                            proof {
                                crate::value::lemma_object_get_smaller(entries, "type"@);
                            }
                            match spec_type_flat_parse(tv) {
                                Some(content) => Some((name, content)),
                                None => None,
                            }
                        },
                        None => {
                            match spec_parse_object(entries) {
                                Some(content) => Some((name, content)),
                                None => None,
                            }
                        },
                    }
                },
                _ => None,
            }
        },
        _ => None,
    }
}

/// An enum declaration: its variant list.
pub open spec fn spec_parse_enum(
    prefix: ToolboxIdlTypePrefix,
    v: ToolboxIdlValueView,
) -> Option<ToolboxIdlTypeFlatView>
    decreases v, 3int, 0int,
{
    match v {
        ToolboxIdlValueView::Array(items) => {
            proof {
                assert(decreases_to!(v => v->Array_0));
            }
            match spec_parse_variants(items, 0) {
                Some(variants) => Some(ToolboxIdlTypeFlatView::Enum { prefix, variants }),
                None => None,
            }
        },
        _ => None,
    }
}

/// Variant declarations from index `idx`: a bare name takes its index
/// as its code.
pub open spec fn spec_parse_variants(items: Seq<ToolboxIdlValueView>, idx: nat) -> Option<
    Seq<ToolboxIdlTypeFlatEnumVariantView>,
>
    decreases items, 2int, 0int,
{
    if items.len() == 0 {
        Some(Seq::empty())
    } else if idx > u128::MAX {
        None
    } else {
        proof {
            assert(decreases_to!(items => items[0]));
        }
        match spec_parse_variant(items[0], idx as u128) {
            Some(variant) => {
                match spec_parse_variants(items.skip(1), idx + 1) {
                    Some(rest) => Some(seq![variant] + rest),
                    None => None,
                }
            },
            None => None,
        }
    }
}

/// One variant declaration: a bare name, or an object with a name, an
/// optional code, and optional fields.
pub open spec fn spec_parse_variant(v: ToolboxIdlValueView, default_code: u128) -> Option<
    ToolboxIdlTypeFlatEnumVariantView,
>
    decreases v, 1int, 0int,
{
    match v {
        ToolboxIdlValueView::String(name) => Some(
            ToolboxIdlTypeFlatEnumVariantView {
                name,
                code: default_code,
                fields: ToolboxIdlTypeFlatFieldsView::Nothing,
            },
        ),
        ToolboxIdlValueView::Object(entries) => {
            proof {
                assert(decreases_to!(v => v->Object_0));
            }
            match spec_object_get(entries, "name"@) {
                Some(ToolboxIdlValueView::String(name)) => {
                    let code = match spec_object_get(entries, "code"@) {
                        Some(cv) => spec_parse_code(cv),
                        None => Some(default_code),
                    };
                    match code {
                        None => None,
                        Some(code) => {
                            match spec_object_get(entries, "fields"@) {
                                None => Some(
                                    ToolboxIdlTypeFlatEnumVariantView {
                                        name,
                                        code,
                                        fields: ToolboxIdlTypeFlatFieldsView::Nothing,
                                    },
                                ),
                                Some(ToolboxIdlValueView::Array(items)) => {
                                    proof {
                                        crate::value::lemma_object_get_smaller(
                                            entries,
                                            "fields"@,
                                        );
                                    }
                                    match spec_parse_fields(items) {
                                        Some(fields) => Some(
                                            ToolboxIdlTypeFlatEnumVariantView {
                                                name,
                                                code,
                                                fields,
                                            },
                                        ),
                                        None => None,
                                    }
                                },
                                Some(_) => None,
                            }
                        },
                    }
                },
                _ => None,
            }
        },
        _ => None,
    }
}

/// A padding declaration: filler counts around a content type.
pub open spec fn spec_parse_padded(v: ToolboxIdlValueView) -> Option<ToolboxIdlTypeFlatView>
    decreases v, 3int, 0int,
{
    match v {
        ToolboxIdlValueView::Object(entries) => {
            proof {
                assert(decreases_to!(v => v->Object_0));
            }
            match spec_object_get(entries, "type"@) {
                None => None,
                Some(tv) => {
                    proof {
                        crate::value::lemma_object_get_smaller(entries, "type"@);
                    }
                    match spec_type_flat_parse(tv) {
                        None => None,
                        Some(content) => {
                            let before = spec_parse_count(entries, "before"@);
                            let min_size = spec_parse_count(entries, "min_size"@);
                            let after = spec_parse_count(entries, "after"@);
                            match (before, min_size, after) {
                                (Some(before), Some(min_size), Some(after)) => Some(
                                    ToolboxIdlTypeFlatView::Padded {
                                        before,
                                        min_size,
                                        after,
                                        content: Box::new(content),
                                    },
                                ),
                                _ => None,
                            }
                        },
                    }
                },
            }
        },
        _ => None,
    }
}

/// An optional byte count entry, defaulting to zero.
pub open spec fn spec_parse_count(
    entries: Seq<(Seq<char>, ToolboxIdlValueView)>,
    key: Seq<char>,
) -> Option<usize> {
    match spec_object_get(entries, key) {
        None => Some(0),
        Some(ToolboxIdlValueView::Number(n)) => {
            if 0 <= n <= usize::MAX {
                Some(n as usize)
            } else {
                None
            }
        },
        Some(_) => None,
    }
}


/// `Some(prefix + rest)` when `tail` is `Some(rest)`.
pub open spec fn spec_flat_list_cat(
    prefix: Seq<ToolboxIdlTypeFlatView>,
    tail: Option<Seq<ToolboxIdlTypeFlatView>>,
) -> Option<Seq<ToolboxIdlTypeFlatView>> {
    match tail {
        Some(rest) => Some(prefix + rest),
        None => None,
    }
}

/// `Some(prefix + rest)` when `tail` is `Some(rest)`.
pub open spec fn spec_named_list_cat(
    prefix: Seq<(Seq<char>, ToolboxIdlTypeFlatView)>,
    tail: Option<Seq<(Seq<char>, ToolboxIdlTypeFlatView)>>,
) -> Option<Seq<(Seq<char>, ToolboxIdlTypeFlatView)>> {
    match tail {
        Some(rest) => Some(prefix + rest),
        None => None,
    }
}

/// `Some(prefix + rest)` when `tail` is `Some(rest)`.
pub open spec fn spec_variant_list_cat(
    prefix: Seq<ToolboxIdlTypeFlatEnumVariantView>,
    tail: Option<Seq<ToolboxIdlTypeFlatEnumVariantView>>,
) -> Option<Seq<ToolboxIdlTypeFlatEnumVariantView>> {
    match tail {
        Some(rest) => Some(prefix + rest),
        None => None,
    }
}

impl ToolboxIdlTypeFlat {
    /// Parses a type declaration out of a document value. Succeeds
    /// exactly when the mathematical parse does, and then returns
    /// exactly its result.
    pub fn try_parse(value: &ToolboxIdlValue) -> (r: Result<ToolboxIdlTypeFlat, ToolboxIdlError>)
        ensures
            match r {
                Ok(t) => spec_type_flat_parse(value@) == Some(t@),
                Err(_) => spec_type_flat_parse(value@) is None,
            },
        decreases value@, 0int, 0int,
    {
        match value {
            ToolboxIdlValue::String(s) => Ok(parse_name(s.as_str())),
            ToolboxIdlValue::Number(n) => {
                if *n < 0 || *n > u64::MAX as i128 {
                    Err(ToolboxIdlError::Parse(String::from_str("const out of range")))
                } else {
                    Ok(ToolboxIdlTypeFlat::Const { literal: *n as u64 })
                }
            },
            ToolboxIdlValue::Array(items) => {
                let ghost items_view = value@->Array_0;
                proof {
                    lemma_value_seq_view(items@);
                    assert(decreases_to!(value@ => value@->Array_0));
                    if items@.len() >= 1 {
                        assert(decreases_to!(items_view => items_view[0]));
                    }
                    if items@.len() >= 2 {
                        assert(decreases_to!(items_view => items_view[1]));
                    }
                }
                if items.len() == 1 {
                    let item = match ToolboxIdlTypeFlat::try_parse(&items[0]) {
                        Ok(item) => item,
                        Err(error) => {
                            return Err(error);
                        },
                    };
                    let r = ToolboxIdlTypeFlat::Vec {
                        prefix: ToolboxIdlTypePrefix::U32,
                        items: Box::new(item),
                    };
                    proof {
                        assert(spec_type_flat_parse(value@) == Some(r@));
                    }
                    Ok(r)
                } else if items.len() == 2 {
                    let item = match ToolboxIdlTypeFlat::try_parse(&items[0]) {
                        Ok(item) => item,
                        Err(error) => {
                            return Err(error);
                        },
                    };
                    let length = match ToolboxIdlTypeFlat::try_parse(&items[1]) {
                        Ok(length) => length,
                        Err(error) => {
                            return Err(error);
                        },
                    };
                    let r = ToolboxIdlTypeFlat::Array {
                        items: Box::new(item),
                        length: Box::new(length),
                    };
                    proof {
                        assert(spec_type_flat_parse(value@) == Some(r@));
                    }
                    Ok(r)
                } else {
                    Err(ToolboxIdlError::Parse(String::from_str("malformed array type")))
                }
            },
            ToolboxIdlValue::Object(entries) => parse_object(entries),
            _ => Err(ToolboxIdlError::Parse(String::from_str("malformed type declaration"))),
        }
    }
}

/// Parses a single-purpose type object by its distinguishing key.
#[verifier::rlimit(100)]
fn parse_object(entries: &Vec<(String, ToolboxIdlValue)>) -> (r: Result<
    ToolboxIdlTypeFlat,
    ToolboxIdlError,
>)
    ensures
        match r {
            Ok(t) => spec_parse_object(spec_value_entries_view(entries@)) == Some(t@),
            Err(_) => spec_parse_object(spec_value_entries_view(entries@)) is None,
        },
    decreases spec_value_entries_view(entries@), 4int, 0int,
{
    let ghost entries_view = spec_value_entries_view(entries@);
    if let Some(inner) = object_get(entries, "vec") {
        proof {
            crate::value::lemma_object_get_smaller(entries_view, "vec"@);
        }
        let content = ToolboxIdlTypeFlat::try_parse(inner)?;
        return Ok(ToolboxIdlTypeFlat::Vec {
            prefix: ToolboxIdlTypePrefix::U32,
            items: Box::new(content),
        });
    }
    if let Some(inner) = object_get(entries, "vec8") {
        proof {
            crate::value::lemma_object_get_smaller(entries_view, "vec8"@);
        }
        let content = ToolboxIdlTypeFlat::try_parse(inner)?;
        return Ok(ToolboxIdlTypeFlat::Vec {
            prefix: ToolboxIdlTypePrefix::U8,
            items: Box::new(content),
        });
    }
    if let Some(inner) = object_get(entries, "vec16") {
        proof {
            crate::value::lemma_object_get_smaller(entries_view, "vec16"@);
        }
        let content = ToolboxIdlTypeFlat::try_parse(inner)?;
        return Ok(ToolboxIdlTypeFlat::Vec {
            prefix: ToolboxIdlTypePrefix::U16,
            items: Box::new(content),
        });
    }
    if let Some(inner) = object_get(entries, "vec64") {
        proof {
            crate::value::lemma_object_get_smaller(entries_view, "vec64"@);
        }
        let content = ToolboxIdlTypeFlat::try_parse(inner)?;
        return Ok(ToolboxIdlTypeFlat::Vec {
            prefix: ToolboxIdlTypePrefix::U64,
            items: Box::new(content),
        });
    }
    if let Some(inner) = object_get(entries, "option") {
        proof {
            crate::value::lemma_object_get_smaller(entries_view, "option"@);
        }
        let content = ToolboxIdlTypeFlat::try_parse(inner)?;
        return Ok(ToolboxIdlTypeFlat::Option {
            prefix: ToolboxIdlTypePrefix::U8,
            content: Box::new(content),
        });
    }
    if let Some(inner) = object_get(entries, "option32") {
        proof {
            crate::value::lemma_object_get_smaller(entries_view, "option32"@);
        }
        let content = ToolboxIdlTypeFlat::try_parse(inner)?;
        return Ok(ToolboxIdlTypeFlat::Option {
            prefix: ToolboxIdlTypePrefix::U32,
            content: Box::new(content),
        });
    }
    if let Some(inner) = object_get(entries, "option64") {
        proof {
            crate::value::lemma_object_get_smaller(entries_view, "option64"@);
        }
        let content = ToolboxIdlTypeFlat::try_parse(inner)?;
        return Ok(ToolboxIdlTypeFlat::Option {
            prefix: ToolboxIdlTypePrefix::U64,
            content: Box::new(content),
        });
    }
    if let Some(inner) = object_get(entries, "defined") {
        proof {
            crate::value::lemma_object_get_smaller(entries_view, "defined"@);
        }
        return parse_defined(inner);
    }
    if let Some(inner) = object_get(entries, "generic") {
        return match inner {
            ToolboxIdlValue::String(symbol) => Ok(ToolboxIdlTypeFlat::Generic {
                symbol: symbol.clone(),
            }),
            _ => Err(ToolboxIdlError::Parse(String::from_str("malformed generic symbol"))),
        };
    }
    if let Some(inner) = object_get(entries, "fields") {
        proof {
            crate::value::lemma_object_get_smaller(entries_view, "fields"@);
        }
        return match inner {
            ToolboxIdlValue::Array(items) => {
                proof {
                    assert(decreases_to!(inner@ => inner@->Array_0));
                }
                let fields = parse_fields(items)?;
                Ok(ToolboxIdlTypeFlat::Struct { fields })
            },
            _ => Err(ToolboxIdlError::Parse(String::from_str("malformed field list"))),
        };
    }
    if let Some(inner) = object_get(entries, "variants") {
        proof {
            crate::value::lemma_object_get_smaller(entries_view, "variants"@);
        }
        return parse_enum(ToolboxIdlTypePrefix::U8, inner);
    }
    if let Some(inner) = object_get(entries, "variants8") {
        proof {
            crate::value::lemma_object_get_smaller(entries_view, "variants8"@);
        }
        return parse_enum(ToolboxIdlTypePrefix::U8, inner);
    }
    if let Some(inner) = object_get(entries, "variants16") {
        proof {
            crate::value::lemma_object_get_smaller(entries_view, "variants16"@);
        }
        return parse_enum(ToolboxIdlTypePrefix::U16, inner);
    }
    if let Some(inner) = object_get(entries, "variants32") {
        proof {
            crate::value::lemma_object_get_smaller(entries_view, "variants32"@);
        }
        return parse_enum(ToolboxIdlTypePrefix::U32, inner);
    }
    if let Some(inner) = object_get(entries, "variants64") {
        proof {
            crate::value::lemma_object_get_smaller(entries_view, "variants64"@);
        }
        return parse_enum(ToolboxIdlTypePrefix::U64, inner);
    }
    if let Some(inner) = object_get(entries, "variants128") {
        proof {
            crate::value::lemma_object_get_smaller(entries_view, "variants128"@);
        }
        return parse_enum(ToolboxIdlTypePrefix::U128, inner);
    }
    if let Some(inner) = object_get(entries, "padded") {
        proof {
            crate::value::lemma_object_get_smaller(entries_view, "padded"@);
        }
        return parse_padded(inner);
    }
    Err(ToolboxIdlError::Parse(String::from_str("unrecognized type declaration")))
}

/// Parses a typedef reference.
fn parse_defined(value: &ToolboxIdlValue) -> (r: Result<ToolboxIdlTypeFlat, ToolboxIdlError>)
    ensures
        match r {
            Ok(t) => spec_parse_defined(value@) == Some(t@),
            Err(_) => spec_parse_defined(value@) is None,
        },
    decreases value@, 3int, 0int,
{
    match value {
        ToolboxIdlValue::String(name) => {
            let r = ToolboxIdlTypeFlat::Defined { name: name.clone(), generics: Vec::new() };
            proof {
                lemma_type_flat_seq_view(r->Defined_generics@);
                assert(spec_type_flat_seq_view(r->Defined_generics@)
                    =~= Seq::<ToolboxIdlTypeFlatView>::empty());
            }
            Ok(r)
        },
        ToolboxIdlValue::Object(entries) => {
            let ghost entries_view = value@->Object_0;
            proof {
                assert(decreases_to!(value@ => value@->Object_0));
            }
            let name = match object_get(entries, "name") {
                Some(ToolboxIdlValue::String(name)) => name,
                _ => {
                    return Err(
                        ToolboxIdlError::Parse(String::from_str("malformed typedef name")),
                    );
                },
            };
            match object_get(entries, "generics") {
                None => {
                    let r = ToolboxIdlTypeFlat::Defined {
                        name: name.clone(),
                        generics: Vec::new(),
                    };
                    proof {
                        lemma_type_flat_seq_view(r->Defined_generics@);
                        assert(spec_type_flat_seq_view(r->Defined_generics@)
                            =~= Seq::<ToolboxIdlTypeFlatView>::empty());
                    }
                    Ok(r)
                },
                Some(ToolboxIdlValue::Array(items)) => {
                    proof {
                        crate::value::lemma_object_get_smaller(entries_view, "generics"@);
                        let gv = spec_object_get(entries_view, "generics"@).unwrap();
                        assert(decreases_to!(gv => gv->Array_0));
                    }
                    let generics = parse_type_list(items)?;
                    let ghost generics_snap = generics;
                    let r = ToolboxIdlTypeFlat::Defined { name: name.clone(), generics };
                    proof {
                        assert(r->Defined_generics == generics_snap);
                    }
                    Ok(r)
                },
                Some(_) => Err(
                    ToolboxIdlError::Parse(String::from_str("malformed generic arguments")),
                ),
            }
        },
        _ => Err(ToolboxIdlError::Parse(String::from_str("malformed typedef reference"))),
    }
}

/// Parses an ordered list of type declarations.
fn parse_type_list(items: &Vec<ToolboxIdlValue>) -> (r: Result<
    Vec<ToolboxIdlTypeFlat>,
    ToolboxIdlError,
>)
    ensures
        match r {
            Ok(list) => spec_parse_type_list(spec_value_seq_view(items@)) == Some(
                spec_type_flat_seq_view(list@),
            ),
            Err(_) => spec_parse_type_list(spec_value_seq_view(items@)) is None,
        },
    decreases spec_value_seq_view(items@), 2int, 0int,
{
    let ghost items_view = spec_value_seq_view(items@);
    proof {
        lemma_value_seq_view(items@);
        assert(items_view.skip(0int) =~= items_view);
    }
    let mut list: Vec<ToolboxIdlTypeFlat> = Vec::new();
    proof {
        lemma_type_flat_seq_view(list@);
        assert(spec_type_flat_seq_view(list@) =~= Seq::<ToolboxIdlTypeFlatView>::empty());
    }
    let mut i: usize = 0;
    while i < items.len()
        invariant
            0 <= i <= items@.len(),
            items_view == spec_value_seq_view(items@),
            items_view.len() == items@.len(),
            forall|j: int|
                0 <= j < items@.len() ==> #[trigger] items_view[j] == items@[j]@,
            spec_parse_type_list(items_view) == spec_flat_list_cat(
                spec_type_flat_seq_view(list@),
                spec_parse_type_list(items_view.skip(i as int)),
            ),
        decreases items@.len() - i,
    {
        proof {
            assert(items_view.skip(i as int)[0] == items_view[i as int]);
            assert(items_view.skip(i as int).skip(1) =~= items_view.skip(i + 1));
            assert(decreases_to!(items_view => items_view[i as int]));
        }
        let parsed = match ToolboxIdlTypeFlat::try_parse(&items[i]) {
            Ok(parsed) => parsed,
            Err(error) => {
                return Err(error);
            },
        };
        let ghost prior = list@;
        list.push(parsed);
        proof {
            assert(list@.subrange(0, list@.len() - 1) =~= prior);
            assert(spec_type_flat_seq_view(list@) =~= spec_type_flat_seq_view(prior).push(
                spec_type_flat_view(list@.last()),
            ));
            if spec_parse_type_list(items_view.skip(i + 1)) is Some {
                let rest = spec_parse_type_list(items_view.skip(i + 1)).unwrap();
                assert(spec_type_flat_seq_view(prior) + (seq![
                    spec_type_flat_view(list@.last()),
                ] + rest) =~= (spec_type_flat_seq_view(prior).push(
                    spec_type_flat_view(list@.last()),
                )) + rest);
            }
        }
        i += 1;
    }
    proof {
        assert(items_view.skip(items_view.len() as int) =~= Seq::<ToolboxIdlValueView>::empty());
        assert(spec_type_flat_seq_view(list@) + Seq::<ToolboxIdlTypeFlatView>::empty()
            =~= spec_type_flat_seq_view(list@));
    }
    Ok(list)
}

/// Parses a field list.
fn parse_fields(items: &Vec<ToolboxIdlValue>) -> (r: Result<
    ToolboxIdlTypeFlatFields,
    ToolboxIdlError,
>)
    ensures
        match r {
            Ok(fields) => spec_parse_fields(spec_value_seq_view(items@)) == Some(fields@),
            Err(_) => spec_parse_fields(spec_value_seq_view(items@)) is None,
        },
    decreases spec_value_seq_view(items@), 3int, 0int,
{
    let ghost items_view = spec_value_seq_view(items@);
    proof {
        lemma_value_seq_view(items@);
    }
    if items.len() == 0 {
        return Ok(ToolboxIdlTypeFlatFields::Nothing);
    }
    let first_is_named = match &items[0] {
        ToolboxIdlValue::Object(first_entries) => object_get(first_entries, "name").is_some(),
        _ => false,
    };
    proof {
        assert(first_is_named == spec_element_is_named(items_view[0]));
    }
    if first_is_named {
        let fields = parse_fields_named(items)?;
        let r = ToolboxIdlTypeFlatFields::Named(fields);
        Ok(r)
    } else {
        proof {
            assert(items_view.skip(0int) =~= items_view);
        }
        let mut unnamed: Vec<ToolboxIdlTypeFlatFieldUnnamed> = Vec::new();
        proof {
            lemma_type_flat_fields_unnamed_view(unnamed@);
            assert(spec_type_flat_fields_unnamed_view(unnamed@) =~= Seq::<
                ToolboxIdlTypeFlatView,
            >::empty());
        }
        let mut i: usize = 0;
        while i < items.len()
            invariant
                0 <= i <= items@.len(),
                items_view == spec_value_seq_view(items@),
                items_view.len() == items@.len(),
                items_view.len() > 0,
                !spec_element_is_named(items_view[0]),
                forall|j: int|
                    0 <= j < items@.len() ==> #[trigger] items_view[j] == items@[j]@,
                spec_parse_type_list(items_view) == spec_flat_list_cat(
                    spec_type_flat_fields_unnamed_view(unnamed@),
                    spec_parse_type_list(items_view.skip(i as int)),
                ),
            decreases items@.len() - i,
        {
            proof {
                assert(items_view.skip(i as int)[0] == items_view[i as int]);
                assert(items_view.skip(i as int).skip(1) =~= items_view.skip(i + 1));
                assert(decreases_to!(items_view => items_view[i as int]));
            }
            let parsed = match ToolboxIdlTypeFlat::try_parse(&items[i]) {
                Ok(parsed) => parsed,
                Err(error) => {
                    return Err(error);
                },
            };
            let ghost prior = unnamed@;
            unnamed.push(ToolboxIdlTypeFlatFieldUnnamed { content: parsed });
            proof {
                assert(unnamed@.subrange(0, unnamed@.len() - 1) =~= prior);
                assert(spec_type_flat_fields_unnamed_view(unnamed@)
                    =~= spec_type_flat_fields_unnamed_view(prior).push(
                    spec_type_flat_view(unnamed@.last().content),
                ));
                if spec_parse_type_list(items_view.skip(i + 1)) is Some {
                    let rest = spec_parse_type_list(items_view.skip(i + 1)).unwrap();
                    assert(spec_type_flat_fields_unnamed_view(prior) + (seq![
                        spec_type_flat_view(unnamed@.last().content),
                    ] + rest) =~= (spec_type_flat_fields_unnamed_view(prior).push(
                        spec_type_flat_view(unnamed@.last().content),
                    )) + rest);
                }
            }
            i += 1;
        }
        proof {
            assert(items_view.skip(items_view.len() as int) =~= Seq::<
                ToolboxIdlValueView,
            >::empty());
            assert(spec_type_flat_fields_unnamed_view(unnamed@) + Seq::<
                ToolboxIdlTypeFlatView,
            >::empty() =~= spec_type_flat_fields_unnamed_view(unnamed@));
        }
        Ok(ToolboxIdlTypeFlatFields::Unnamed(unnamed))
    }
}

/// Parses named field declarations.
fn parse_fields_named(items: &Vec<ToolboxIdlValue>) -> (r: Result<
    Vec<ToolboxIdlTypeFlatFieldNamed>,
    ToolboxIdlError,
>)
    ensures
        match r {
            Ok(fields) => spec_parse_fields_named(spec_value_seq_view(items@)) == Some(
                spec_type_flat_fields_named_view(fields@),
            ),
            Err(_) => spec_parse_fields_named(spec_value_seq_view(items@)) is None,
        },
    decreases spec_value_seq_view(items@), 2int, 0int,
{
    let ghost items_view = spec_value_seq_view(items@);
    proof {
        lemma_value_seq_view(items@);
        assert(items_view.skip(0int) =~= items_view);
    }
    let mut fields: Vec<ToolboxIdlTypeFlatFieldNamed> = Vec::new();
    proof {
        lemma_type_flat_fields_named_view(fields@);
        assert(spec_type_flat_fields_named_view(fields@) =~= Seq::<
            (Seq<char>, ToolboxIdlTypeFlatView),
        >::empty());
    }
    let mut i: usize = 0;
    while i < items.len()
        invariant
            0 <= i <= items@.len(),
            items_view == spec_value_seq_view(items@),
            items_view.len() == items@.len(),
            forall|j: int|
                0 <= j < items@.len() ==> #[trigger] items_view[j] == items@[j]@,
            spec_parse_fields_named(items_view) == spec_named_list_cat(
                spec_type_flat_fields_named_view(fields@),
                spec_parse_fields_named(items_view.skip(i as int)),
            ),
        decreases items@.len() - i,
    {
        proof {
            assert(items_view.skip(i as int)[0] == items_view[i as int]);
            assert(items_view.skip(i as int).skip(1) =~= items_view.skip(i + 1));
            assert(decreases_to!(items_view => items_view[i as int]));
        }
        let field = match parse_field_named(&items[i]) {
            Ok(field) => field,
            Err(error) => {
                return Err(error);
            },
        };
        let ghost prior = fields@;
        fields.push(field);
        proof {
            assert(fields@.subrange(0, fields@.len() - 1) =~= prior);
            assert(spec_type_flat_fields_named_view(fields@)
                =~= spec_type_flat_fields_named_view(prior).push(
                (fields@.last().name@, spec_type_flat_view(fields@.last().content)),
            ));
            if spec_parse_fields_named(items_view.skip(i + 1)) is Some {
                let rest = spec_parse_fields_named(items_view.skip(i + 1)).unwrap();
                assert(spec_type_flat_fields_named_view(prior) + (seq![
                    (fields@.last().name@, spec_type_flat_view(fields@.last().content)),
                ] + rest) =~= (spec_type_flat_fields_named_view(prior).push(
                    (fields@.last().name@, spec_type_flat_view(fields@.last().content)),
                )) + rest);
            }
        }
        i += 1;
    }
    proof {
        assert(items_view.skip(items_view.len() as int) =~= Seq::<ToolboxIdlValueView>::empty());
        assert(spec_type_flat_fields_named_view(fields@) + Seq::<
            (Seq<char>, ToolboxIdlTypeFlatView),
        >::empty() =~= spec_type_flat_fields_named_view(fields@));
    }
    Ok(fields)
}

/// Parses one named field declaration.
fn parse_field_named(value: &ToolboxIdlValue) -> (r: Result<
    ToolboxIdlTypeFlatFieldNamed,
    ToolboxIdlError,
>)
    ensures
        match r {
            Ok(field) => spec_parse_field_named(value@) == Some(
                (field.name@, spec_type_flat_view(field.content)),
            ),
            Err(_) => spec_parse_field_named(value@) is None,
        },
    decreases value@, 1int, 0int,
{
    let entries = match value {
        ToolboxIdlValue::Object(entries) => entries,
        _ => {
            return Err(
                ToolboxIdlError::Parse(String::from_str("malformed field declaration")),
            );
        },
    };
    let ghost entries_view = value@->Object_0;
    proof {
        assert(decreases_to!(value@ => value@->Object_0));
    }
    let name = match object_get(entries, "name") {
        Some(ToolboxIdlValue::String(name)) => name,
        _ => {
            return Err(ToolboxIdlError::Parse(String::from_str("malformed field name")));
        },
    };
    match object_get(entries, "type") {
        Some(type_value) => {
            proof {
                crate::value::lemma_object_get_smaller(entries_view, "type"@);
            }
            let content = ToolboxIdlTypeFlat::try_parse(type_value)?;
            Ok(ToolboxIdlTypeFlatFieldNamed { name: name.clone(), content })
        },
        None => {
            let content = parse_object(entries)?;
            Ok(ToolboxIdlTypeFlatFieldNamed { name: name.clone(), content })
        },
    }
}

/// Parses an enum declaration.
fn parse_enum(prefix: ToolboxIdlTypePrefix, value: &ToolboxIdlValue) -> (r: Result<
    ToolboxIdlTypeFlat,
    ToolboxIdlError,
>)
    ensures
        match r {
            Ok(t) => spec_parse_enum(prefix, value@) == Some(t@),
            Err(_) => spec_parse_enum(prefix, value@) is None,
        },
    decreases value@, 3int, 0int,
{
    let items = match value {
        ToolboxIdlValue::Array(items) => items,
        _ => {
            return Err(ToolboxIdlError::Parse(String::from_str("malformed variant list")));
        },
    };
    let ghost items_view = value@->Array_0;
    proof {
        lemma_value_seq_view(items@);
        assert(decreases_to!(value@ => value@->Array_0));
        assert(items_view.skip(0int) =~= items_view);
    }
    let mut variants: Vec<ToolboxIdlTypeFlatEnumVariant> = Vec::new();
    proof {
        lemma_type_flat_variants_view(variants@);
        assert(spec_type_flat_variants_view(variants@) =~= Seq::<
            ToolboxIdlTypeFlatEnumVariantView,
        >::empty());
    }
    let mut i: usize = 0;
    while i < items.len()
        invariant
            0 <= i <= items@.len(),
            value@ is Array,
            value is Array,
            items == value->Array_0,
            items_view == value@->Array_0,
            items_view == spec_value_seq_view(items@),
            items_view.len() == items@.len(),
            forall|j: int|
                0 <= j < items@.len() ==> #[trigger] items_view[j] == items@[j]@,
            i <= u128::MAX,
            spec_parse_variants(items_view, 0) == spec_variant_list_cat(
                spec_type_flat_variants_view(variants@),
                spec_parse_variants(items_view.skip(i as int), i as nat),
            ),
        decreases items@.len() - i,
    {
        proof {
            assert(items_view.skip(i as int)[0] == items_view[i as int]);
            assert(items_view.skip(i as int).skip(1) =~= items_view.skip(i + 1));
            assert(decreases_to!(value@ => value@->Array_0));
            assert(decreases_to!(items_view => items_view[i as int]));
        }
        let variant = match parse_variant(&items[i], i as u128) {
            Ok(variant) => variant,
            Err(error) => {
                return Err(error);
            },
        };
        let ghost prior = variants@;
        variants.push(variant);
        proof {
            assert(variants@.subrange(0, variants@.len() - 1) =~= prior);
            assert(spec_type_flat_variants_view(variants@) =~= spec_type_flat_variants_view(
                prior,
            ).push(spec_type_flat_variant_view(variants@.last())));
            if spec_parse_variants(items_view.skip(i + 1), (i + 1) as nat) is Some {
                let rest = spec_parse_variants(items_view.skip(i + 1), (i + 1) as nat).unwrap();
                assert(spec_type_flat_variants_view(prior) + (seq![
                    spec_type_flat_variant_view(variants@.last()),
                ] + rest) =~= (spec_type_flat_variants_view(prior).push(
                    spec_type_flat_variant_view(variants@.last()),
                )) + rest);
            }
        }
        i += 1;
    }
    proof {
        assert(items_view.skip(items_view.len() as int) =~= Seq::<ToolboxIdlValueView>::empty());
        assert(spec_type_flat_variants_view(variants@) + Seq::<
            ToolboxIdlTypeFlatEnumVariantView,
        >::empty() =~= spec_type_flat_variants_view(variants@));
    }
    Ok(ToolboxIdlTypeFlat::Enum { prefix, variants })
}

/// Parses one variant declaration.
fn parse_variant(value: &ToolboxIdlValue, default_code: u128) -> (r: Result<
    ToolboxIdlTypeFlatEnumVariant,
    ToolboxIdlError,
>)
    ensures
        match r {
            Ok(variant) => spec_parse_variant(value@, default_code) == Some(variant@),
            Err(_) => spec_parse_variant(value@, default_code) is None,
        },
    decreases value@, 1int, 0int,
{
    match value {
        ToolboxIdlValue::String(name) => Ok(
            ToolboxIdlTypeFlatEnumVariant {
                name: name.clone(),
                code: default_code,
                fields: ToolboxIdlTypeFlatFields::Nothing,
            },
        ),
        ToolboxIdlValue::Object(entries) => {
            let ghost entries_view = value@->Object_0;
            proof {
                assert(decreases_to!(value@ => value@->Object_0));
            }
            let name = match object_get(entries, "name") {
                Some(ToolboxIdlValue::String(name)) => name,
                _ => {
                    return Err(
                        ToolboxIdlError::Parse(String::from_str("malformed variant name")),
                    );
                },
            };
            let code = match object_get(entries, "code") {
                Some(code_value) => {
                    match parse_code(code_value) {
                        Some(code) => code,
                        None => {
                            return Err(
                                ToolboxIdlError::Parse(
                                    String::from_str("malformed variant code"),
                                ),
                            );
                        },
                    }
                },
                None => default_code,
            };
            match object_get(entries, "fields") {
                None => Ok(
                    ToolboxIdlTypeFlatEnumVariant {
                        name: name.clone(),
                        code,
                        fields: ToolboxIdlTypeFlatFields::Nothing,
                    },
                ),
                Some(ToolboxIdlValue::Array(items)) => {
                    proof {
                        crate::value::lemma_object_get_smaller(entries_view, "fields"@);
                        let fv = spec_object_get(entries_view, "fields"@).unwrap();
                        assert(decreases_to!(fv => fv->Array_0));
                    }
                    let fields = parse_fields(items)?;
                    Ok(ToolboxIdlTypeFlatEnumVariant { name: name.clone(), code, fields })
                },
                Some(_) => Err(
                    ToolboxIdlError::Parse(String::from_str("malformed variant fields")),
                ),
            }
        },
        _ => Err(ToolboxIdlError::Parse(String::from_str("malformed variant declaration"))),
    }
}

/// Parses a padding declaration.
fn parse_padded(value: &ToolboxIdlValue) -> (r: Result<ToolboxIdlTypeFlat, ToolboxIdlError>)
    ensures
        match r {
            Ok(t) => spec_parse_padded(value@) == Some(t@),
            Err(_) => spec_parse_padded(value@) is None,
        },
    decreases value@, 3int, 0int,
{
    let entries = match value {
        ToolboxIdlValue::Object(entries) => entries,
        _ => {
            return Err(
                ToolboxIdlError::Parse(String::from_str("malformed padding declaration")),
            );
        },
    };
    let ghost entries_view = value@->Object_0;
    proof {
        assert(decreases_to!(value@ => value@->Object_0));
    }
    let type_value = match object_get(entries, "type") {
        Some(type_value) => type_value,
        None => {
            return Err(ToolboxIdlError::Parse(String::from_str("missing padded type")));
        },
    };
    proof {
        crate::value::lemma_object_get_smaller(entries_view, "type"@);
    }
    let content = ToolboxIdlTypeFlat::try_parse(type_value)?;
    let before = match parse_count(entries, "before") {
        Some(before) => before,
        None => {
            return Err(ToolboxIdlError::Parse(String::from_str("malformed padding count")));
        },
    };
    let min_size = match parse_count(entries, "min_size") {
        Some(min_size) => min_size,
        None => {
            return Err(ToolboxIdlError::Parse(String::from_str("malformed padding count")));
        },
    };
    let after = match parse_count(entries, "after") {
        Some(after) => after,
        None => {
            return Err(ToolboxIdlError::Parse(String::from_str("malformed padding count")));
        },
    };
    Ok(ToolboxIdlTypeFlat::Padded { before, min_size, after, content: Box::new(content) })
}

/// Parses an optional byte count entry, defaulting to zero.
fn parse_count(entries: &Vec<(String, ToolboxIdlValue)>, key: &str) -> (r: Option<usize>)
    ensures
        r == spec_parse_count(spec_value_entries_view(entries@), key@),
{
    match object_get(entries, key) {
        None => Some(0),
        Some(ToolboxIdlValue::Number(n)) => {
            if 0 <= *n && *n <= usize::MAX as i128 {
                Some(*n as usize)
            } else {
                None
            }
        },
        Some(_) => None,
    }
}

} // verus!
