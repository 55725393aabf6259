//! Writing an unresolved type back into its document form, in the
//! canonical spellings of the grammar: primitive and typedef names as
//! bare strings, `bytes` for a byte vector, wrapper objects for
//! vectors, options, generics, field lists, variant lists and
//! padding. Export is total and a pure function of the type.

use vstd::prelude::*;

use crate::decimal::spec_dec_digits;
use crate::decimal::u128_to_dec;
use crate::type_flat::lemma_type_flat_fields_named_view;
use crate::type_flat::lemma_type_flat_fields_unnamed_view;
use crate::type_flat::lemma_type_flat_seq_view;
use crate::type_flat::lemma_type_flat_variants_view;
use crate::type_flat::spec_type_flat_view;
use crate::type_flat::ToolboxIdlTypeFlat;
use crate::type_flat::ToolboxIdlTypeFlatEnumVariantView;
use crate::type_flat::ToolboxIdlTypeFlatFields;
use crate::type_flat::ToolboxIdlTypeFlatFieldsView;
use crate::type_flat::ToolboxIdlTypeFlatView;
use crate::type_prefix::ToolboxIdlTypePrefix;
use crate::type_primitive::ToolboxIdlTypePrimitive;
use crate::value::lemma_value_entries_view;
use crate::value::lemma_value_seq_view;
use crate::value::spec_value_entries_view;
use crate::value::spec_value_seq_view;
use crate::value::ToolboxIdlValue;
use crate::value::ToolboxIdlValueView;

verus! {

/// The wrapper key a vector prefix exports under.
pub open spec fn spec_vec_key(prefix: ToolboxIdlTypePrefix) -> Seq<char> {
    match prefix {
        ToolboxIdlTypePrefix::U8 => "vec8"@,
        ToolboxIdlTypePrefix::U16 => "vec16"@,
        ToolboxIdlTypePrefix::U64 => "vec64"@,
        _ => "vec"@,
    }
}

/// The wrapper key an option prefix exports under.
pub open spec fn spec_option_key(prefix: ToolboxIdlTypePrefix) -> Seq<char> {
    match prefix {
        ToolboxIdlTypePrefix::U32 => "option32"@,
        ToolboxIdlTypePrefix::U64 => "option64"@,
        _ => "option"@,
    }
}

/// The list key an enum discriminant width exports under.
pub open spec fn spec_variants_key(prefix: ToolboxIdlTypePrefix) -> Seq<char> {
    match prefix {
        ToolboxIdlTypePrefix::U16 => "variants16"@,
        ToolboxIdlTypePrefix::U32 => "variants32"@,
        ToolboxIdlTypePrefix::U64 => "variants64"@,
        ToolboxIdlTypePrefix::U128 => "variants128"@,
        _ => "variants"@,
    }
}

/// A variant code as a document value: a number when it fits, decimal
/// text beyond.
pub open spec fn spec_code_value(code: u128) -> ToolboxIdlValueView {
    if code <= i128::MAX {
        ToolboxIdlValueView::Number(code as int)
    } else {
        ToolboxIdlValueView::String(spec_dec_digits(code as nat))
    }
}

/// The document form of an unresolved type.
pub open spec fn spec_type_flat_export(t: ToolboxIdlTypeFlatView) -> ToolboxIdlValueView
    decreases t, 0int, 0int,
{
    match t {
        ToolboxIdlTypeFlatView::Defined { name, generics } => {
            proof {
                assert(decreases_to!(t => t->Defined_generics));
            }
            if generics.len() == 0 {
                ToolboxIdlValueView::String(name)
            } else {
                ToolboxIdlValueView::Object(
                    seq![
                        (
                            "defined"@,
                            ToolboxIdlValueView::Object(
                                seq![
                                    ("name"@, ToolboxIdlValueView::String(name)),
                                    (
                                        "generics"@,
                                        ToolboxIdlValueView::Array(
                                            spec_type_list_export(generics),
                                        ),
                                    ),
                                ],
                            ),
                        ),
                    ],
                )
            }
        },
        ToolboxIdlTypeFlatView::Generic { symbol } => ToolboxIdlValueView::Object(
            seq![("generic"@, ToolboxIdlValueView::String(symbol))],
        ),
        ToolboxIdlTypeFlatView::Option { prefix, content } => {
            proof {
                assert(decreases_to!(t => t->Option_content));
            }
            ToolboxIdlValueView::Object(
                seq![(spec_option_key(prefix), spec_type_flat_export(*content))],
            )
        },
        ToolboxIdlTypeFlatView::Vec { prefix, items } => {
            proof {
                assert(decreases_to!(t => t->Vec_items));
            }
            if prefix == ToolboxIdlTypePrefix::U32 && *items
                == (ToolboxIdlTypeFlatView::Primitive {
                primitive: ToolboxIdlTypePrimitive::U8,
            }) {
                ToolboxIdlValueView::String("bytes"@)
            } else {
                ToolboxIdlValueView::Object(
                    seq![(spec_vec_key(prefix), spec_type_flat_export(*items))],
                )
            }
        },
        ToolboxIdlTypeFlatView::Array { items, length } => {
            proof {
                assert(decreases_to!(t => t->Array_items));
                assert(decreases_to!(t => t->Array_length));
            }
            ToolboxIdlValueView::Array(
                seq![spec_type_flat_export(*items), spec_type_flat_export(*length)],
            )
        },
        ToolboxIdlTypeFlatView::String { .. } => ToolboxIdlValueView::String("string"@),
        ToolboxIdlTypeFlatView::Struct { fields } => {
            proof {
                assert(decreases_to!(t => t->Struct_fields));
            }
            ToolboxIdlValueView::Object(
                seq![("fields"@, ToolboxIdlValueView::Array(spec_fields_export(fields)))],
            )
        },
        ToolboxIdlTypeFlatView::Enum { prefix, variants } => {
            proof {
                assert(decreases_to!(t => t->Enum_variants));
            }
            ToolboxIdlValueView::Object(
                seq![
                    (
                        spec_variants_key(prefix),
                        ToolboxIdlValueView::Array(spec_variants_export(variants)),
                    ),
                ],
            )
        },
        ToolboxIdlTypeFlatView::Padded { before, min_size, after, content } => {
            proof {
                assert(decreases_to!(t => t->Padded_content));
            }
            ToolboxIdlValueView::Object(
                seq![
                    (
                        "padded"@,
                        ToolboxIdlValueView::Object(
                            seq![
                                ("before"@, ToolboxIdlValueView::Number(before as int)),
                                ("min_size"@, ToolboxIdlValueView::Number(min_size as int)),
                                ("after"@, ToolboxIdlValueView::Number(after as int)),
                                ("type"@, spec_type_flat_export(*content)),
                            ],
                        ),
                    ),
                ],
            )
        },
        ToolboxIdlTypeFlatView::Const { literal } => ToolboxIdlValueView::Number(
            literal as int,
        ),
        ToolboxIdlTypeFlatView::Primitive { primitive } => ToolboxIdlValueView::String(
            primitive.spec_name(),
        ),
    }
}

/// The document forms of a list of types, in order.
pub open spec fn spec_type_list_export(ts: Seq<ToolboxIdlTypeFlatView>) -> Seq<
    ToolboxIdlValueView,
>
    decreases ts, 1int, 0int,
{
    if ts.len() == 0 {
        Seq::empty()
    } else {
        proof {
            assert(decreases_to!(ts => ts[0]));
        }
        seq![spec_type_flat_export(ts[0])] + spec_type_list_export(ts.skip(1))
    }
}

/// The document forms of a field list's declarations.
pub open spec fn spec_fields_export(fields: ToolboxIdlTypeFlatFieldsView) -> Seq<
    ToolboxIdlValueView,
>
    decreases fields, 1int, 0int,
{
    match fields {
        ToolboxIdlTypeFlatFieldsView::Nothing => Seq::empty(),
        ToolboxIdlTypeFlatFieldsView::Named(fs) => {
            proof {
                assert(decreases_to!(fields => fields->Named_0));
            }
            spec_fields_named_export(fs)
        },
        ToolboxIdlTypeFlatFieldsView::Unnamed(fs) => {
            proof {
                assert(decreases_to!(fields => fields->Unnamed_0));
            }
            spec_type_list_export(fs)
        },
    }
}

/// The document forms of named field declarations, in order.
pub open spec fn spec_fields_named_export(fs: Seq<(Seq<char>, ToolboxIdlTypeFlatView)>) -> Seq<
    ToolboxIdlValueView,
>
    decreases fs, 1int, 0int,
{
    if fs.len() == 0 {
        Seq::empty()
    } else {
        proof {
            assert(decreases_to!(fs => fs[0]));
            assert(decreases_to!(fs[0] => fs[0].1));
        }
        seq![
            ToolboxIdlValueView::Object(
                seq![
                    ("name"@, ToolboxIdlValueView::String(fs[0].0)),
                    ("type"@, spec_type_flat_export(fs[0].1)),
                ],
            ),
        ] + spec_fields_named_export(fs.skip(1))
    }
}

/// The document forms of variant declarations, in order.
pub open spec fn spec_variants_export(vs: Seq<ToolboxIdlTypeFlatEnumVariantView>) -> Seq<
    ToolboxIdlValueView,
>
    decreases vs, 2int, 0int,
{
    if vs.len() == 0 {
        Seq::empty()
    } else {
        proof {
            assert(decreases_to!(vs => vs[0]));
        }
        seq![spec_variant_export(vs[0])] + spec_variants_export(vs.skip(1))
    }
}

/// The document form of one variant: its name, its code, and its
/// fields when it has any.
pub open spec fn spec_variant_export(v: ToolboxIdlTypeFlatEnumVariantView) -> ToolboxIdlValueView
    decreases v, 1int, 0int,
{
    proof {
        assert(decreases_to!(v => v.fields));
    }
    if v.fields is Nothing {
        ToolboxIdlValueView::Object(
            seq![
                ("name"@, ToolboxIdlValueView::String(v.name)),
                ("code"@, spec_code_value(v.code)),
            ],
        )
    } else {
        ToolboxIdlValueView::Object(
            seq![
                ("name"@, ToolboxIdlValueView::String(v.name)),
                ("code"@, spec_code_value(v.code)),
                ("fields"@, ToolboxIdlValueView::Array(spec_fields_export(v.fields))),
            ],
        )
    }
}

/// One document object entry.
fn entry(key: &str, value: ToolboxIdlValue) -> (r: (String, ToolboxIdlValue))
    ensures
        r.0@ == key@,
        r.1@ == value@,
{
    (String::from_str(key), value)
}

/// A single-entry document object.
fn wrap(key: &str, value: ToolboxIdlValue) -> (r: ToolboxIdlValue)
    ensures
        r@ == ToolboxIdlValueView::Object(seq![(key@, value@)]),
{
    let mut entries: Vec<(String, ToolboxIdlValue)> = Vec::new();
    entries.push(entry(key, value));
    let r = ToolboxIdlValue::Object(entries);
    proof {
        lemma_value_entries_view(entries@);
        assert(spec_value_entries_view(entries@) =~= seq![(key@, r->Object_0@[0].1@)]);
    }
    r
}

/// A variant code as a document value.
fn code_value(code: u128) -> (r: ToolboxIdlValue)
    ensures
        r@ == spec_code_value(code),
{
    if code <= i128::MAX as u128 {
        ToolboxIdlValue::Number(code as i128)
    } else {
        ToolboxIdlValue::String(u128_to_dec(code))
    }
}

impl ToolboxIdlTypeFlat {
    /// Writes this type back into its document form; a pure function
    /// of the type, in the grammar's canonical spellings.
    pub fn export(&self) -> (r: ToolboxIdlValue)
        ensures
            r@ == spec_type_flat_export(self@),
        decreases *self, 0int, 0int,
    {
        match self {
            ToolboxIdlTypeFlat::Defined { name, generics } => {
                let ghost generics_view = self@->Defined_generics;
                proof {
                    crate::type_flat::lemma_type_flat_seq_view(generics@);
                    assert(generics_view.skip(0int) =~= generics_view);
                }
                if generics.len() == 0 {
                    return ToolboxIdlValue::String(name.clone());
                }
                let mut exported: Vec<ToolboxIdlValue> = Vec::new();
                proof {
                    lemma_value_seq_view(exported@);
                    assert(spec_value_seq_view(exported@) =~= Seq::<
                        ToolboxIdlValueView,
                    >::empty());
                }
                let mut i: usize = 0;
                while i < generics.len()
                    invariant
                        0 <= i <= generics@.len(),
                        self is Defined,
                        generics == self->Defined_generics,
                        generics_view == self@->Defined_generics,
                        generics_view.len() == generics@.len(),
                        forall|j: int|
                            0 <= j < generics@.len() ==> #[trigger] generics_view[j]
                                == generics@[j]@,
                        spec_type_list_export(generics_view) =~= spec_value_seq_view(exported@)
                            + spec_type_list_export(generics_view.skip(i as int)),
                    decreases generics@.len() - i,
                {
                    proof {
                        assert(generics_view.skip(i as int)[0] == generics_view[i as int]);
                        assert(generics_view.skip(i as int).skip(1) =~= generics_view.skip(
                            i + 1,
                        ));
                        assert(decreases_to!(*self => self->Defined_generics));
                        assert(decreases_to!(self->Defined_generics
                            => self->Defined_generics@));
                        assert(decreases_to!(self->Defined_generics@
                            => self->Defined_generics@[i as int]));
                    }
                    let piece = generics[i].export();
                    let ghost prior = exported@;
                    exported.push(piece);
                    proof {
                        assert(exported@.subrange(0, exported@.len() - 1) =~= prior);
                        assert(spec_value_seq_view(exported@) =~= spec_value_seq_view(prior)
                            + seq![exported@.last()@]);
                        if true {
                            let rest = spec_type_list_export(generics_view.skip(i + 1));
                            assert(spec_value_seq_view(prior) + (seq![exported@.last()@]
                                + rest) =~= (spec_value_seq_view(prior) + seq![
                                exported@.last()@,
                            ]) + rest);
                        }
                    }
                    i += 1;
                }
                proof {
                    assert(generics_view.skip(generics_view.len() as int) =~= Seq::<
                        ToolboxIdlTypeFlatView,
                    >::empty());
                    assert(spec_value_seq_view(exported@) + Seq::<
                        ToolboxIdlValueView,
                    >::empty() =~= spec_value_seq_view(exported@));
                }
                let mut inner_entries: Vec<(String, ToolboxIdlValue)> = Vec::new();
                inner_entries.push(entry("name", ToolboxIdlValue::String(name.clone())));
                inner_entries.push(entry("generics", ToolboxIdlValue::Array(exported)));
                let inner = ToolboxIdlValue::Object(inner_entries);
                proof {
                    lemma_value_entries_view(inner_entries@);
                    assert(spec_value_entries_view(inner_entries@) =~= seq![
                        ("name"@, ToolboxIdlValueView::String(name@)),
                        (
                            "generics"@,
                            ToolboxIdlValueView::Array(spec_type_list_export(generics_view)),
                        ),
                    ]);
                }
                let r = wrap("defined", inner);
                proof {
                    assert(r@ == spec_type_flat_export(self@));
                }
                r
            },
            ToolboxIdlTypeFlat::Generic { symbol } => wrap(
                "generic",
                ToolboxIdlValue::String(symbol.clone()),
            ),
            ToolboxIdlTypeFlat::Option { prefix, content } => {
                proof {
                    assert(decreases_to!(*self => self->Option_content));
                }
                let piece = content.export();
                let key: &str = match prefix {
                    ToolboxIdlTypePrefix::U32 => "option32",
                    ToolboxIdlTypePrefix::U64 => "option64",
                    _ => "option",
                };
                proof {
                    assert(key@ == spec_option_key(*prefix));
                }
                wrap(key, piece)
            },
            ToolboxIdlTypeFlat::Vec { prefix, items } => {
                proof {
                    assert(decreases_to!(*self => self->Vec_items));
                }
                let is_bytes = match (prefix, &**items) {
                    (
                        ToolboxIdlTypePrefix::U32,
                        ToolboxIdlTypeFlat::Primitive {
                            primitive: ToolboxIdlTypePrimitive::U8,
                        },
                    ) => true,
                    _ => false,
                };
                if is_bytes {
                    let r = ToolboxIdlValue::String(String::from_str("bytes"));
                    proof {
                        assert(r@ == spec_type_flat_export(self@));
                    }
                    return r;
                }
                let piece = items.export();
                let key: &str = match prefix {
                    ToolboxIdlTypePrefix::U8 => "vec8",
                    ToolboxIdlTypePrefix::U16 => "vec16",
                    ToolboxIdlTypePrefix::U64 => "vec64",
                    _ => "vec",
                };
                proof {
                    assert(key@ == spec_vec_key(*prefix));
                }
                wrap(key, piece)
            },
            ToolboxIdlTypeFlat::Array { items, length } => {
                proof {
                    assert(decreases_to!(*self => self->Array_items));
                    assert(decreases_to!(*self => self->Array_length));
                }
                let mut pieces: Vec<ToolboxIdlValue> = Vec::new();
                pieces.push(items.export());
                pieces.push(length.export());
                let r = ToolboxIdlValue::Array(pieces);
                proof {
                    lemma_value_seq_view(pieces@);
                    assert(spec_value_seq_view(pieces@) =~= seq![
                        spec_type_flat_export(*self@->Array_items),
                        spec_type_flat_export(*self@->Array_length),
                    ]);
                }
                r
            },
            ToolboxIdlTypeFlat::String { .. } => ToolboxIdlValue::String(
                String::from_str("string"),
            ),
            ToolboxIdlTypeFlat::Struct { fields } => {
                proof {
                    assert(decreases_to!(*self => self->Struct_fields));
                }
                let pieces = fields.export();
                wrap("fields", ToolboxIdlValue::Array(pieces))
            },
            ToolboxIdlTypeFlat::Enum { prefix, variants } => {
                let ghost variants_view = self@->Enum_variants;
                proof {
                    crate::type_flat::lemma_type_flat_variants_view(variants@);
                    assert(variants_view.skip(0int) =~= variants_view);
                }
                let mut exported: Vec<ToolboxIdlValue> = Vec::new();
                proof {
                    lemma_value_seq_view(exported@);
                    assert(spec_value_seq_view(exported@) =~= Seq::<
                        ToolboxIdlValueView,
                    >::empty());
                }
                let mut i: usize = 0;
                while i < variants.len()
                    invariant
                        0 <= i <= variants@.len(),
                        self is Enum,
                        variants == self->Enum_variants,
                        variants_view == self@->Enum_variants,
                        variants_view.len() == variants@.len(),
                        forall|j: int|
                            0 <= j < variants@.len() ==> #[trigger] variants_view[j]
                                == variants@[j]@,
                        spec_variants_export(variants_view) =~= spec_value_seq_view(exported@)
                            + spec_variants_export(variants_view.skip(i as int)),
                    decreases variants@.len() - i,
                {
                    proof {
                        assert(variants_view.skip(i as int)[0] == variants_view[i as int]);
                        assert(variants_view.skip(i as int).skip(1) =~= variants_view.skip(
                            i + 1,
                        ));
                        assert(decreases_to!(*self => self->Enum_variants));
                        assert(decreases_to!(self->Enum_variants => self->Enum_variants@));
                        assert(decreases_to!(self->Enum_variants@ => self->Enum_variants@[
                            i as int
                        ]));
                        assert(decreases_to!(self->Enum_variants@[i as int]
                            => self->Enum_variants@[i as int].fields));
                    }
                    let variant = &variants[i];
                    let fields_empty = match &variant.fields {
                        ToolboxIdlTypeFlatFields::Nothing => true,
                        _ => false,
                    };
                    let piece: ToolboxIdlValue = if fields_empty {
                        let mut ventries: Vec<(String, ToolboxIdlValue)> = Vec::new();
                        ventries.push(
                            entry("name", ToolboxIdlValue::String(variant.name.clone())),
                        );
                        ventries.push(entry("code", code_value(variant.code)));
                        let piece = ToolboxIdlValue::Object(ventries);
                        proof {
                            lemma_value_entries_view(ventries@);
                            assert(spec_value_entries_view(ventries@) =~= seq![
                                ("name"@, ToolboxIdlValueView::String(variant.name@)),
                                ("code"@, spec_code_value(variant.code)),
                            ]);
                            assert(piece@ == spec_variant_export(variants_view[i as int]));
                        }
                        piece
                    } else {
                        let vfields = variant.fields.export();
                        let mut ventries: Vec<(String, ToolboxIdlValue)> = Vec::new();
                        ventries.push(
                            entry("name", ToolboxIdlValue::String(variant.name.clone())),
                        );
                        ventries.push(entry("code", code_value(variant.code)));
                        ventries.push(entry("fields", ToolboxIdlValue::Array(vfields)));
                        let piece = ToolboxIdlValue::Object(ventries);
                        proof {
                            lemma_value_entries_view(ventries@);
                            assert(spec_value_entries_view(ventries@) =~= seq![
                                ("name"@, ToolboxIdlValueView::String(variant.name@)),
                                ("code"@, spec_code_value(variant.code)),
                                (
                                    "fields"@,
                                    ToolboxIdlValueView::Array(
                                        spec_fields_export(variants_view[i as int].fields),
                                    ),
                                ),
                            ]);
                            assert(piece@ == spec_variant_export(variants_view[i as int]));
                        }
                        piece
                    };
                    let ghost prior = exported@;
                    exported.push(piece);
                    proof {
                        assert(exported@.subrange(0, exported@.len() - 1) =~= prior);
                        assert(spec_value_seq_view(exported@) =~= spec_value_seq_view(prior)
                            + seq![exported@.last()@]);
                        let rest = spec_variants_export(variants_view.skip(i + 1));
                        assert(spec_value_seq_view(prior) + (seq![exported@.last()@] + rest)
                            =~= (spec_value_seq_view(prior) + seq![exported@.last()@]) + rest);
                    }
                    i += 1;
                }
                proof {
                    assert(variants_view.skip(variants_view.len() as int) =~= Seq::<
                        ToolboxIdlTypeFlatEnumVariantView,
                    >::empty());
                    assert(spec_value_seq_view(exported@) + Seq::<
                        ToolboxIdlValueView,
                    >::empty() =~= spec_value_seq_view(exported@));
                }
                let key: &str = match prefix {
                    ToolboxIdlTypePrefix::U16 => "variants16",
                    ToolboxIdlTypePrefix::U32 => "variants32",
                    ToolboxIdlTypePrefix::U64 => "variants64",
                    ToolboxIdlTypePrefix::U128 => "variants128",
                    _ => "variants",
                };
                proof {
                    assert(key@ == spec_variants_key(*prefix));
                }
                wrap(key, ToolboxIdlValue::Array(exported))
            },
            ToolboxIdlTypeFlat::Padded { before, min_size, after, content } => {
                proof {
                    assert(decreases_to!(*self => self->Padded_content));
                }
                let piece = content.export();
                let mut inner_entries: Vec<(String, ToolboxIdlValue)> = Vec::new();
                inner_entries.push(
                    entry("before", ToolboxIdlValue::Number(*before as i128)),
                );
                inner_entries.push(
                    entry("min_size", ToolboxIdlValue::Number(*min_size as i128)),
                );
                inner_entries.push(entry("after", ToolboxIdlValue::Number(*after as i128)));
                inner_entries.push(entry("type", piece));
                let inner = ToolboxIdlValue::Object(inner_entries);
                proof {
                    lemma_value_entries_view(inner_entries@);
                    assert(spec_value_entries_view(inner_entries@) =~= seq![
                        ("before"@, ToolboxIdlValueView::Number(*before as int)),
                        ("min_size"@, ToolboxIdlValueView::Number(*min_size as int)),
                        ("after"@, ToolboxIdlValueView::Number(*after as int)),
                        ("type"@, spec_type_flat_export(*self@->Padded_content)),
                    ]);
                }
                wrap("padded", inner)
            },
            ToolboxIdlTypeFlat::Const { literal } => ToolboxIdlValue::Number(*literal as i128),
            ToolboxIdlTypeFlat::Primitive { primitive } => ToolboxIdlValue::String(
                String::from_str(primitive.as_str()),
            ),
        }
    }
}

impl ToolboxIdlTypeFlatFields {
    /// Writes the field declarations back into their document forms.
    pub fn export(&self) -> (r: Vec<ToolboxIdlValue>)
        ensures
            spec_value_seq_view(r@) == spec_fields_export(self@),
        decreases *self, 1int, 0int,
    {
        match self {
            ToolboxIdlTypeFlatFields::Nothing => {
                let r: Vec<ToolboxIdlValue> = Vec::new();
                proof {
                    lemma_value_seq_view(r@);
                    assert(spec_value_seq_view(r@) =~= Seq::<ToolboxIdlValueView>::empty());
                }
                r
            },
            ToolboxIdlTypeFlatFields::Named(fields) => {
                let ghost fields_view = self@->Named_0;
                proof {
                    lemma_type_flat_fields_named_view(fields@);
                    assert(fields_view.skip(0int) =~= fields_view);
                }
                let mut exported: Vec<ToolboxIdlValue> = Vec::new();
                proof {
                    lemma_value_seq_view(exported@);
                    assert(spec_value_seq_view(exported@) =~= Seq::<
                        ToolboxIdlValueView,
                    >::empty());
                }
                let mut i: usize = 0;
                while i < fields.len()
                    invariant
                        0 <= i <= fields@.len(),
                        self is Named,
                        fields == self->Named_0,
                        fields_view == self@->Named_0,
                        fields_view.len() == fields@.len(),
                        forall|j: int|
                            0 <= j < fields@.len() ==> #[trigger] fields_view[j]
                                == (fields@[j].name@, fields@[j].content@),
                        spec_fields_named_export(fields_view) =~= spec_value_seq_view(
                            exported@,
                        ) + spec_fields_named_export(fields_view.skip(i as int)),
                    decreases fields@.len() - i,
                {
                    proof {
                        assert(fields_view.skip(i as int)[0] == fields_view[i as int]);
                        assert(fields_view.skip(i as int).skip(1) =~= fields_view.skip(i + 1));
                        assert(decreases_to!(*self => self->Named_0));
                        assert(decreases_to!(self->Named_0 => self->Named_0@));
                        assert(decreases_to!(self->Named_0@ => self->Named_0@[i as int]));
                        assert(decreases_to!(self->Named_0@[i as int] => self->Named_0@[
                            i as int
                        ].content));
                    }
                    let field = &fields[i];
                    let ftype = field.content.export();
                    let mut fentries: Vec<(String, ToolboxIdlValue)> = Vec::new();
                    fentries.push(entry("name", ToolboxIdlValue::String(field.name.clone())));
                    fentries.push(entry("type", ftype));
                    let piece = ToolboxIdlValue::Object(fentries);
                    proof {
                        lemma_value_entries_view(fentries@);
                        assert(spec_value_entries_view(fentries@) =~= seq![
                            ("name"@, ToolboxIdlValueView::String(field.name@)),
                            ("type"@, spec_type_flat_export(fields_view[i as int].1)),
                        ]);
                    }
                    let ghost prior = exported@;
                    exported.push(piece);
                    proof {
                        assert(exported@.subrange(0, exported@.len() - 1) =~= prior);
                        assert(spec_value_seq_view(exported@) =~= spec_value_seq_view(prior)
                            + seq![exported@.last()@]);
                        let rest = spec_fields_named_export(fields_view.skip(i + 1));
                        assert(spec_value_seq_view(prior) + (seq![exported@.last()@] + rest)
                            =~= (spec_value_seq_view(prior) + seq![exported@.last()@]) + rest);
                    }
                    i += 1;
                }
                proof {
                    assert(fields_view.skip(fields_view.len() as int) =~= Seq::<
                        (Seq<char>, ToolboxIdlTypeFlatView),
                    >::empty());
                    assert(spec_value_seq_view(exported@) + Seq::<
                        ToolboxIdlValueView,
                    >::empty() =~= spec_value_seq_view(exported@));
                }
                exported
            },
            ToolboxIdlTypeFlatFields::Unnamed(fields) => {
                let ghost fields_view = self@->Unnamed_0;
                proof {
                    lemma_type_flat_fields_unnamed_view(fields@);
                    assert(fields_view.skip(0int) =~= fields_view);
                }
                let mut exported: Vec<ToolboxIdlValue> = Vec::new();
                proof {
                    lemma_value_seq_view(exported@);
                    assert(spec_value_seq_view(exported@) =~= Seq::<
                        ToolboxIdlValueView,
                    >::empty());
                }
                let mut i: usize = 0;
                while i < fields.len()
                    invariant
                        0 <= i <= fields@.len(),
                        self is Unnamed,
                        fields == self->Unnamed_0,
                        fields_view == self@->Unnamed_0,
                        fields_view.len() == fields@.len(),
                        forall|j: int|
                            0 <= j < fields@.len() ==> #[trigger] fields_view[j]
                                == fields@[j].content@,
                        spec_type_list_export(fields_view) =~= spec_value_seq_view(exported@)
                            + spec_type_list_export(fields_view.skip(i as int)),
                    decreases fields@.len() - i,
                {
                    proof {
                        assert(fields_view.skip(i as int)[0] == fields_view[i as int]);
                        assert(fields_view.skip(i as int).skip(1) =~= fields_view.skip(i + 1));
                        assert(decreases_to!(*self => self->Unnamed_0));
                        assert(decreases_to!(self->Unnamed_0 => self->Unnamed_0@));
                        assert(decreases_to!(self->Unnamed_0@ => self->Unnamed_0@[i as int]));
                        assert(decreases_to!(self->Unnamed_0@[i as int] => self->Unnamed_0@[
                            i as int
                        ].content));
                    }
                    let piece = fields[i].content.export();
                    let ghost prior = exported@;
                    exported.push(piece);
                    proof {
                        assert(exported@.subrange(0, exported@.len() - 1) =~= prior);
                        assert(spec_value_seq_view(exported@) =~= spec_value_seq_view(prior)
                            + seq![exported@.last()@]);
                        let rest = spec_type_list_export(fields_view.skip(i + 1));
                        assert(spec_value_seq_view(prior) + (seq![exported@.last()@] + rest)
                            =~= (spec_value_seq_view(prior) + seq![exported@.last()@]) + rest);
                    }
                    i += 1;
                }
                proof {
                    assert(fields_view.skip(fields_view.len() as int) =~= Seq::<
                        ToolboxIdlTypeFlatView,
                    >::empty());
                    assert(spec_value_seq_view(exported@) + Seq::<
                        ToolboxIdlValueView,
                    >::empty() =~= spec_value_seq_view(exported@));
                }
                exported
            },
        }
    }
}

} // verus!
