//! Schema generation: a resolved type mapped to a JSON-Schema-like
//! value tree. Generation is total: every resolved type has a schema,
//! and the schema is a pure function of the type and the optional
//! description, so repeated calls agree.

use vstd::prelude::*;

use crate::serialize::spec_fields_is_empty;
use crate::type_full::lemma_type_full_fields_named_view;
use crate::type_full::lemma_type_full_fields_unnamed_view;
use crate::type_full::lemma_type_full_variants_view;
use crate::type_full::ToolboxIdlTypeFull;
use crate::type_full::ToolboxIdlTypeFullEnumVariantView;
use crate::type_full::ToolboxIdlTypeFullFields;
use crate::type_full::ToolboxIdlTypeFullFieldsView;
use crate::type_full::ToolboxIdlTypeFullView;
use crate::type_primitive::ToolboxIdlTypePrimitive;
use crate::value::lemma_value_entries_view;
use crate::value::lemma_value_seq_view;
use crate::value::spec_value_entries_view;
use crate::value::spec_value_seq_view;
use crate::value::ToolboxIdlValue;
use crate::value::ToolboxIdlValueView;

verus! {

/// Whether every variant carries no fields, so the enum can be
/// described as a plain string enumeration.
pub open spec fn spec_variants_all_empty(vs: Seq<ToolboxIdlTypeFullEnumVariantView>) -> bool {
    forall|i: int| 0 <= i < vs.len() ==> spec_fields_is_empty(#[trigger] vs[i].fields)
}

/// The schema of a resolved type, with an optional description.
pub open spec fn spec_schema(t: ToolboxIdlTypeFullView, desc: Option<Seq<char>>) -> ToolboxIdlValueView
    decreases t, 0int, 0int,
{
    match t {
        ToolboxIdlTypeFullView::Typedef { name, content, .. } => {
            proof {
                assert(decreases_to!(t => t->Typedef_content));
            }
            spec_schema(*content, Some(name))
        },
        ToolboxIdlTypeFullView::Option { content, .. } => {
            proof {
                assert(decreases_to!(t => t->Option_content));
            }
            ToolboxIdlValueView::Object(
                seq![
                    (
                        "anyOf"@,
                        ToolboxIdlValueView::Array(
                            seq![
                                spec_schema(*content, None),
                                ToolboxIdlValueView::Object(
                                    seq![("type"@, ToolboxIdlValueView::String("null"@))],
                                ),
                            ],
                        ),
                    ),
                ],
            )
        },
        ToolboxIdlTypeFullView::Vec { items, .. } => {
            proof {
                assert(decreases_to!(t => t->Vec_items));
            }
            ToolboxIdlValueView::Object(
                seq![
                    ("type"@, ToolboxIdlValueView::String("array"@)),
                    ("items"@, spec_schema(*items, None)),
                ],
            )
        },
        ToolboxIdlTypeFullView::Array { items, length } => {
            proof {
                assert(decreases_to!(t => t->Array_items));
            }
            ToolboxIdlValueView::Object(
                seq![
                    ("type"@, ToolboxIdlValueView::String("array"@)),
                    ("items"@, spec_schema(*items, None)),
                    ("minItems"@, ToolboxIdlValueView::Number(length as int)),
                    ("maxItems"@, ToolboxIdlValueView::Number(length as int)),
                ],
            )
        },
        ToolboxIdlTypeFullView::String { .. } => ToolboxIdlValueView::Object(
            seq![("type"@, ToolboxIdlValueView::String("string"@))],
        ),
        ToolboxIdlTypeFullView::Struct { fields } => {
            proof {
                assert(decreases_to!(t => t->Struct_fields));
            }
            spec_schema_fields(fields, desc)
        },
        ToolboxIdlTypeFullView::Enum { variants, .. } => {
            proof {
                assert(decreases_to!(t => t->Enum_variants));
            }
            let desc_entries = match desc {
                Some(text) => seq![("description"@, ToolboxIdlValueView::String(text))],
                None => Seq::empty(),
            };
            if spec_variants_all_empty(variants) {
                ToolboxIdlValueView::Object(
                    desc_entries + seq![
                        (
                            "enum"@,
                            ToolboxIdlValueView::Array(spec_schema_variant_names(variants)),
                        ),
                    ],
                )
            } else {
                ToolboxIdlValueView::Object(
                    desc_entries + seq![
                        (
                            "anyOf"@,
                            ToolboxIdlValueView::Array(spec_schema_variant_objects(variants)),
                        ),
                    ],
                )
            }
        },
        ToolboxIdlTypeFullView::Padded { content, .. } => {
            proof {
                assert(decreases_to!(t => t->Padded_content));
            }
            spec_schema(*content, desc)
        },
        ToolboxIdlTypeFullView::Primitive { primitive } => {
            match primitive {
                ToolboxIdlTypePrimitive::Bool => ToolboxIdlValueView::Object(
                    seq![("type"@, ToolboxIdlValueView::String("boolean"@))],
                ),
                ToolboxIdlTypePrimitive::Pubkey => ToolboxIdlValueView::Object(
                    seq![
                        ("description"@, ToolboxIdlValueView::String("Pubkey (base58)"@)),
                        ("type"@, ToolboxIdlValueView::String("string"@)),
                    ],
                ),
                _ => ToolboxIdlValueView::Object(
                    seq![
                        ("description"@, ToolboxIdlValueView::String(primitive.spec_name())),
                        ("type"@, ToolboxIdlValueView::String("number"@)),
                    ],
                ),
            }
        },
    }
}

/// The variant names, as schema string values.
pub open spec fn spec_schema_variant_names(vs: Seq<ToolboxIdlTypeFullEnumVariantView>) -> Seq<
    ToolboxIdlValueView,
> {
    Seq::new(vs.len(), |i: int| ToolboxIdlValueView::String(vs[i].name))
}

/// The per-variant schemas of a mixed enum: a one-value enumeration
/// for a field-less variant, a single-key object otherwise.
pub open spec fn spec_schema_variant_objects(vs: Seq<ToolboxIdlTypeFullEnumVariantView>) -> Seq<
    ToolboxIdlValueView,
>
    decreases vs, 1int, 0int,
{
    if vs.len() == 0 {
        Seq::empty()
    } else {
        proof {
            assert(decreases_to!(vs => vs[0]));
            assert(decreases_to!(vs[0] => vs[0].fields));
        }
        seq![spec_schema_variant_object(vs[0])] + spec_schema_variant_objects(vs.skip(1))
    }
}

/// The schema of one variant.
pub open spec fn spec_schema_variant_object(v: ToolboxIdlTypeFullEnumVariantView) -> ToolboxIdlValueView
    decreases v, 2int, 0int,
{
    proof {
        assert(decreases_to!(v => v.fields));
    }
    if spec_fields_is_empty(v.fields) {
        ToolboxIdlValueView::Object(
            seq![
                ("enum"@, ToolboxIdlValueView::Array(seq![ToolboxIdlValueView::String(v.name)])),
            ],
        )
    } else {
        ToolboxIdlValueView::Object(
            seq![
                ("type"@, ToolboxIdlValueView::String("object"@)),
                (
                    "properties"@,
                    ToolboxIdlValueView::Object(
                        seq![(v.name, spec_schema_fields(v.fields, None))],
                    ),
                ),
                (
                    "required"@,
                    ToolboxIdlValueView::Array(seq![ToolboxIdlValueView::String(v.name)]),
                ),
                ("additionalProperties"@, ToolboxIdlValueView::Bool(false)),
            ],
        )
    }
}

/// The schema of a field list.
pub open spec fn spec_schema_fields(
    fields: ToolboxIdlTypeFullFieldsView,
    desc: Option<Seq<char>>,
) -> ToolboxIdlValueView
    decreases fields, 1int, 0int,
{
    let desc_entries: Seq<(Seq<char>, ToolboxIdlValueView)> = match desc {
        Some(text) => seq![("description"@, ToolboxIdlValueView::String(text))],
        None => Seq::empty(),
    };
    if spec_fields_is_empty(fields) {
        ToolboxIdlValueView::Object(
            desc_entries + seq![("type"@, ToolboxIdlValueView::String("null"@))],
        )
    } else {
        match fields {
            ToolboxIdlTypeFullFieldsView::Nothing => ToolboxIdlValueView::Null,
            ToolboxIdlTypeFullFieldsView::Named(fs) => {
                proof {
                    assert(decreases_to!(fields => fields->Named_0));
                }
                ToolboxIdlValueView::Object(
                    desc_entries + seq![
                        ("type"@, ToolboxIdlValueView::String("object"@)),
                        (
                            "properties"@,
                            ToolboxIdlValueView::Object(spec_schema_properties(fs)),
                        ),
                        ("required"@, ToolboxIdlValueView::Array(spec_schema_names(fs))),
                        ("additionalProperties"@, ToolboxIdlValueView::Bool(false)),
                    ],
                )
            },
            ToolboxIdlTypeFullFieldsView::Unnamed(fs) => {
                proof {
                    assert(decreases_to!(fields => fields->Unnamed_0));
                }
                ToolboxIdlValueView::Object(
                    desc_entries + seq![
                        ("type"@, ToolboxIdlValueView::String("array"@)),
                        ("items"@, ToolboxIdlValueView::Array(spec_schema_items(fs))),
                        ("minItems"@, ToolboxIdlValueView::Number(fs.len() as int)),
                        ("maxItems"@, ToolboxIdlValueView::Number(fs.len() as int)),
                    ],
                )
            },
        }
    }
}

/// The property schemas of named fields, in declaration order.
pub open spec fn spec_schema_properties(fs: Seq<(Seq<char>, ToolboxIdlTypeFullView)>) -> Seq<
    (Seq<char>, ToolboxIdlValueView),
>
    decreases fs, 2int, 0int,
{
    if fs.len() == 0 {
        Seq::empty()
    } else {
        proof {
            assert(decreases_to!(fs => fs[0]));
            assert(decreases_to!(fs[0] => fs[0].1));
        }
        seq![(fs[0].0, spec_schema(fs[0].1, None))] + spec_schema_properties(fs.skip(1))
    }
}

/// The field names, as schema string values.
pub open spec fn spec_schema_names(fs: Seq<(Seq<char>, ToolboxIdlTypeFullView)>) -> Seq<
    ToolboxIdlValueView,
> {
    Seq::new(fs.len(), |i: int| ToolboxIdlValueView::String(fs[i].0))
}

/// The item schemas of positional fields, in order.
pub open spec fn spec_schema_items(fs: Seq<ToolboxIdlTypeFullView>) -> Seq<ToolboxIdlValueView>
    decreases fs, 2int, 0int,
{
    if fs.len() == 0 {
        Seq::empty()
    } else {
        proof {
            assert(decreases_to!(fs => fs[0]));
        }
        seq![spec_schema(fs[0], None)] + spec_schema_items(fs.skip(1))
    }
}

/// One schema object entry.
fn entry(key: &str, value: ToolboxIdlValue) -> (r: (String, ToolboxIdlValue))
    ensures
        r.0@ == key@,
        r.1@ == value@,
{
    (String::from_str(key), value)
}

/// A schema string value.
fn text(value: &str) -> (r: ToolboxIdlValue)
    ensures
        r@ == ToolboxIdlValueView::String(value@),
{
    ToolboxIdlValue::String(String::from_str(value))
}

impl ToolboxIdlTypeFull {
    /// The schema of this type; a pure function of the type and the
    /// description, so repeated calls agree.
    pub fn schema(&self, description: Option<String>) -> (r: ToolboxIdlValue)
        ensures
            r@ == spec_schema(
                self@,
                match description {
                    Some(d) => Some(d@),
                    None => None,
                },
            ),
        decreases *self, 0int, 0int,
    {
        let ghost desc_view: Option<Seq<char>> = match &description {
            Some(d) => Some(d@),
            None => None,
        };
        match self {
            ToolboxIdlTypeFull::Typedef { name, content, .. } => {
                proof {
                    assert(decreases_to!(*self => self->Typedef_content));
                }
                content.schema(Some(name.clone()))
            },
            ToolboxIdlTypeFull::Option { content, .. } => {
                proof {
                    assert(decreases_to!(*self => self->Option_content));
                }
                let mut null_entries: Vec<(String, ToolboxIdlValue)> = Vec::new();
                null_entries.push(entry("type", text("null")));
                let mut choices: Vec<ToolboxIdlValue> = Vec::new();
                choices.push(content.schema(None));
                choices.push(ToolboxIdlValue::Object(null_entries));
                let mut entries: Vec<(String, ToolboxIdlValue)> = Vec::new();
                entries.push(entry("anyOf", ToolboxIdlValue::Array(choices)));
                let r = ToolboxIdlValue::Object(entries);
                proof {
                    lemma_value_entries_view(entries@);
                    lemma_value_seq_view(choices@);
                    lemma_value_entries_view(null_entries@);
                    assert(spec_value_entries_view(null_entries@) =~= seq![
                        ("type"@, ToolboxIdlValueView::String("null"@)),
                    ]);
                    assert(spec_value_seq_view(choices@) =~= seq![
                        spec_schema(*self@->Option_content, None),
                        ToolboxIdlValueView::Object(
                            seq![("type"@, ToolboxIdlValueView::String("null"@))],
                        ),
                    ]);
                    assert(spec_value_entries_view(entries@) =~= seq![
                        (
                            "anyOf"@,
                            ToolboxIdlValueView::Array(
                                seq![
                                    spec_schema(*self@->Option_content, None),
                                    ToolboxIdlValueView::Object(
                                        seq![("type"@, ToolboxIdlValueView::String("null"@))],
                                    ),
                                ],
                            ),
                        ),
                    ]);
                    assert(r@ == spec_schema(self@, desc_view));
                }
                r
            },
            ToolboxIdlTypeFull::Vec { items, .. } => {
                proof {
                    assert(decreases_to!(*self => self->Vec_items));
                }
                let mut entries: Vec<(String, ToolboxIdlValue)> = Vec::new();
                entries.push(entry("type", text("array")));
                entries.push(entry("items", items.schema(None)));
                let r = ToolboxIdlValue::Object(entries);
                proof {
                    lemma_value_entries_view(entries@);
                    assert(spec_value_entries_view(entries@) =~= seq![
                        ("type"@, ToolboxIdlValueView::String("array"@)),
                        ("items"@, spec_schema(*self@->Vec_items, None)),
                    ]);
                    assert(r@ == spec_schema(self@, desc_view));
                }
                r
            },
            ToolboxIdlTypeFull::Array { items, length } => {
                proof {
                    assert(decreases_to!(*self => self->Array_items));
                }
                let mut entries: Vec<(String, ToolboxIdlValue)> = Vec::new();
                entries.push(entry("type", text("array")));
                entries.push(entry("items", items.schema(None)));
                entries.push(entry("minItems", ToolboxIdlValue::Number(*length as i128)));
                entries.push(entry("maxItems", ToolboxIdlValue::Number(*length as i128)));
                let r = ToolboxIdlValue::Object(entries);
                proof {
                    lemma_value_entries_view(entries@);
                    assert(spec_value_entries_view(entries@) =~= seq![
                        ("type"@, ToolboxIdlValueView::String("array"@)),
                        ("items"@, spec_schema(*self@->Array_items, None)),
                        ("minItems"@, ToolboxIdlValueView::Number(*length as int)),
                        ("maxItems"@, ToolboxIdlValueView::Number(*length as int)),
                    ]);
                    assert(r@ == spec_schema(self@, desc_view));
                }
                r
            },
            ToolboxIdlTypeFull::String { .. } => {
                let mut entries: Vec<(String, ToolboxIdlValue)> = Vec::new();
                entries.push(entry("type", text("string")));
                let r = ToolboxIdlValue::Object(entries);
                proof {
                    lemma_value_entries_view(entries@);
                    assert(spec_value_entries_view(entries@) =~= seq![
                        ("type"@, ToolboxIdlValueView::String("string"@)),
                    ]);
                    assert(r@ == spec_schema(self@, desc_view));
                }
                r
            },
            ToolboxIdlTypeFull::Struct { fields } => {
                proof {
                    assert(decreases_to!(*self => self->Struct_fields));
                }
                fields.schema(description)
            },
            ToolboxIdlTypeFull::Enum { variants, .. } => {
                let ghost variants_view = self@->Enum_variants;
                proof {
                    lemma_type_full_variants_view(variants@);
                }
                let mut all_empty = true;
                let mut i: usize = 0;
                while i < variants.len()
                    invariant
                        0 <= i <= variants@.len(),
                        variants_view.len() == variants@.len(),
                        forall|j: int|
                            0 <= j < variants@.len() ==> #[trigger] variants_view[j]
                                == variants@[j]@,
                        all_empty ==> (forall|j: int|
                            0 <= j < i ==> spec_fields_is_empty(
                                #[trigger] variants_view[j].fields,
                            )),
                        !all_empty ==> !spec_variants_all_empty(variants_view),
                    decreases variants@.len() - i,
                {
                    if !variants[i].fields.is_empty() {
                        all_empty = false;
                        proof {
                            assert(!spec_fields_is_empty(variants_view[i as int].fields));
                        }
                    }
                    i += 1;
                }
                let mut entries: Vec<(String, ToolboxIdlValue)> = Vec::new();
                match description {
                    Some(d) => {
                        entries.push(entry("description", ToolboxIdlValue::String(d)));
                    },
                    None => {},
                }
                let ghost desc_entries = spec_value_entries_view(entries@);
                if all_empty {
                    let mut names: Vec<ToolboxIdlValue> = Vec::new();
                    let mut k: usize = 0;
                    while k < variants.len()
                        invariant
                            0 <= k <= variants@.len(),
                            variants_view.len() == variants@.len(),
                            forall|j: int|
                                0 <= j < variants@.len() ==> #[trigger] variants_view[j]
                                    == variants@[j]@,
                            names@.len() == k,
                            forall|j: int|
                                0 <= j < k ==> #[trigger] names@[j]@
                                    == ToolboxIdlValueView::String(variants_view[j].name),
                        decreases variants@.len() - k,
                    {
                        names.push(ToolboxIdlValue::String(variants[k].name.clone()));
                        k += 1;
                    }
                    let ghost prior = entries@;
                    entries.push(entry("enum", ToolboxIdlValue::Array(names)));
                    let r = ToolboxIdlValue::Object(entries);
                    proof {
                        lemma_value_entries_view(entries@);
                        lemma_value_seq_view(names@);
                        assert forall|j: int| 0 <= j < variants_view.len() implies
                            spec_value_seq_view(names@)[j] == spec_schema_variant_names(
                                variants_view,
                            )[j] by {
                            assert(spec_value_seq_view(names@)[j] == names@[j]@);
                        };
                        assert(spec_value_seq_view(names@) =~= spec_schema_variant_names(
                            variants_view,
                        ));
                        assert(entries@.subrange(0, entries@.len() - 1) =~= prior);
                        let ghost desc_entries: Seq<(Seq<char>, ToolboxIdlValueView)> =
                            match desc_view {
                            Some(text) => seq![
                                ("description"@, ToolboxIdlValueView::String(text)),
                            ],
                            None => Seq::empty(),
                        };
                        assert(spec_value_entries_view(entries@) =~= desc_entries + seq![
                            (
                                "enum"@,
                                ToolboxIdlValueView::Array(
                                    spec_schema_variant_names(variants_view),
                                ),
                            ),
                        ]);
                        assert(r@ == spec_schema(self@, desc_view));
                    }
                    r
                } else {
                    let mut objects: Vec<ToolboxIdlValue> = Vec::new();
                    let mut k: usize = 0;
                    proof {
                        assert(variants_view.skip(0int) =~= variants_view);
                    }
                    while k < variants.len()
                        invariant
                            0 <= k <= variants@.len(),
                            variants_view == self@->Enum_variants,
                            self is Enum,
                            variants == self->Enum_variants,
                            variants_view.len() == variants@.len(),
                            forall|j: int|
                                0 <= j < variants@.len() ==> #[trigger] variants_view[j]
                                    == variants@[j]@,
                            spec_value_seq_view(objects@).len() == k,
                            spec_schema_variant_objects(variants_view) =~= spec_value_seq_view(
                                objects@,
                            ) + spec_schema_variant_objects(variants_view.skip(k as int)),
                        decreases variants@.len() - k,
                    {
                        proof {
                            assert(variants_view.skip(k as int)[0] == variants_view[k as int]);
                            assert(variants_view.skip(k as int).skip(1) =~= variants_view.skip(
                                k + 1,
                            ));
                            assert(decreases_to!(*self => self->Enum_variants));
                            assert(decreases_to!(self->Enum_variants => self->Enum_variants@));
                            assert(decreases_to!(self->Enum_variants@ => self->Enum_variants@[
                                k as int
                            ]));
                            assert(decreases_to!(self->Enum_variants@[k as int]
                                => self->Enum_variants@[k as int].fields));
                        }
                        let variant = &variants[k];
                        let object: ToolboxIdlValue = if variant.fields.is_empty() {
                            let mut one_name: Vec<ToolboxIdlValue> = Vec::new();
                            one_name.push(ToolboxIdlValue::String(variant.name.clone()));
                            let mut obj_entries: Vec<(String, ToolboxIdlValue)> = Vec::new();
                            obj_entries.push(entry("enum", ToolboxIdlValue::Array(one_name)));
                            let o = ToolboxIdlValue::Object(obj_entries);
                            proof {
                                lemma_value_entries_view(obj_entries@);
                                lemma_value_seq_view(one_name@);
                                let ghost vname = variants_view[k as int].name;
                                assert(spec_value_seq_view(one_name@) =~= seq![
                                    ToolboxIdlValueView::String(vname),
                                ]);
                                assert(spec_value_entries_view(obj_entries@) =~= seq![
                                    (
                                        "enum"@,
                                        ToolboxIdlValueView::Array(
                                            seq![ToolboxIdlValueView::String(vname)],
                                        ),
                                    ),
                                ]);
                                assert(o@ == spec_schema_variant_object(
                                    variants_view[k as int],
                                ));
                            }
                            o
                        } else {
                            let mut props: Vec<(String, ToolboxIdlValue)> = Vec::new();
                            props.push(
                                (variant.name.clone(), variant.fields.schema(None)),
                            );
                            let mut one_name: Vec<ToolboxIdlValue> = Vec::new();
                            one_name.push(ToolboxIdlValue::String(variant.name.clone()));
                            let mut obj_entries: Vec<(String, ToolboxIdlValue)> = Vec::new();
                            obj_entries.push(entry("type", text("object")));
                            obj_entries.push(
                                entry("properties", ToolboxIdlValue::Object(props)),
                            );
                            obj_entries.push(entry("required", ToolboxIdlValue::Array(one_name)));
                            obj_entries.push(
                                entry("additionalProperties", ToolboxIdlValue::Bool(false)),
                            );
                            let o = ToolboxIdlValue::Object(obj_entries);
                            proof {
                                lemma_value_entries_view(obj_entries@);
                                lemma_value_entries_view(props@);
                                lemma_value_seq_view(one_name@);
                                let ghost vname = variants_view[k as int].name;
                                let ghost vfields = variants_view[k as int].fields;
                                assert(spec_value_seq_view(one_name@) =~= seq![
                                    ToolboxIdlValueView::String(vname),
                                ]);
                                assert(spec_value_entries_view(props@) =~= seq![
                                    (vname, spec_schema_fields(vfields, None)),
                                ]);
                                assert(spec_value_entries_view(obj_entries@) =~= seq![
                                    ("type"@, ToolboxIdlValueView::String("object"@)),
                                    (
                                        "properties"@,
                                        ToolboxIdlValueView::Object(
                                            seq![(vname, spec_schema_fields(vfields, None))],
                                        ),
                                    ),
                                    (
                                        "required"@,
                                        ToolboxIdlValueView::Array(
                                            seq![ToolboxIdlValueView::String(vname)],
                                        ),
                                    ),
                                    ("additionalProperties"@, ToolboxIdlValueView::Bool(false)),
                                ]);
                                assert(o@ == spec_schema_variant_object(
                                    variants_view[k as int],
                                ));
                            }
                            o
                        };
                        let ghost prior_objects = objects@;
                        objects.push(object);
                        proof {
                            assert(objects@.subrange(0, objects@.len() - 1) =~= prior_objects);
                            assert(spec_value_seq_view(objects@) =~= spec_value_seq_view(
                                prior_objects,
                            ).push(objects@.last()@));
                            assert(spec_value_seq_view(prior_objects).push(objects@.last()@)
                                =~= spec_value_seq_view(prior_objects) + seq![objects@.last()@]);
                        }
                        k += 1;
                    }
                    let ghost prior = entries@;
                    entries.push(entry("anyOf", ToolboxIdlValue::Array(objects)));
                    let r = ToolboxIdlValue::Object(entries);
                    proof {
                        lemma_value_entries_view(entries@);
                        assert(spec_schema_variant_objects(variants_view.skip(
                            variants_view.len() as int,
                        )) =~= Seq::<ToolboxIdlValueView>::empty());
                        assert(spec_value_seq_view(objects@) + Seq::<
                            ToolboxIdlValueView,
                        >::empty() =~= spec_value_seq_view(objects@));
                        assert(spec_value_seq_view(objects@) =~= spec_schema_variant_objects(
                            variants_view,
                        ));
                        assert(entries@.subrange(0, entries@.len() - 1) =~= prior);
                        let ghost desc_entries: Seq<(Seq<char>, ToolboxIdlValueView)> =
                            match desc_view {
                            Some(text) => seq![
                                ("description"@, ToolboxIdlValueView::String(text)),
                            ],
                            None => Seq::empty(),
                        };
                        assert(spec_value_entries_view(entries@) =~= desc_entries + seq![
                            (
                                "anyOf"@,
                                ToolboxIdlValueView::Array(
                                    spec_schema_variant_objects(variants_view),
                                ),
                            ),
                        ]);
                        assert(r@ == spec_schema(self@, desc_view));
                    }
                    r
                }
            },
            ToolboxIdlTypeFull::Padded { content, .. } => {
                proof {
                    assert(decreases_to!(*self => self->Padded_content));
                }
                content.schema(description)
            },
            ToolboxIdlTypeFull::Primitive { primitive } => {
                match primitive {
                    ToolboxIdlTypePrimitive::Bool => {
                        let mut entries: Vec<(String, ToolboxIdlValue)> = Vec::new();
                        entries.push(entry("type", text("boolean")));
                        let r = ToolboxIdlValue::Object(entries);
                        proof {
                            lemma_value_entries_view(entries@);
                            assert(spec_value_entries_view(entries@) =~= seq![
                                ("type"@, ToolboxIdlValueView::String("boolean"@)),
                            ]);
                            assert(r@ == spec_schema(self@, desc_view));
                        }
                        r
                    },
                    ToolboxIdlTypePrimitive::Pubkey => {
                        let mut entries: Vec<(String, ToolboxIdlValue)> = Vec::new();
                        entries.push(entry("description", text("Pubkey (base58)")));
                        entries.push(entry("type", text("string")));
                        let r = ToolboxIdlValue::Object(entries);
                        proof {
                            lemma_value_entries_view(entries@);
                            assert(spec_value_entries_view(entries@) =~= seq![
                                (
                                    "description"@,
                                    ToolboxIdlValueView::String("Pubkey (base58)"@),
                                ),
                                ("type"@, ToolboxIdlValueView::String("string"@)),
                            ]);
                            assert(r@ == spec_schema(self@, desc_view));
                        }
                        r
                    },
                    _ => {
                        let mut entries: Vec<(String, ToolboxIdlValue)> = Vec::new();
                        entries.push(
                            entry("description", text(primitive.as_str())),
                        );
                        entries.push(entry("type", text("number")));
                        let r = ToolboxIdlValue::Object(entries);
                        proof {
                            lemma_value_entries_view(entries@);
                            assert(spec_value_entries_view(entries@) =~= seq![
                                (
                                    "description"@,
                                    ToolboxIdlValueView::String(primitive.spec_name()),
                                ),
                                ("type"@, ToolboxIdlValueView::String("number"@)),
                            ]);
                            assert(r@ == spec_schema(self@, desc_view));
                        }
                        r
                    },
                }
            },
        }
    }
}

impl ToolboxIdlTypeFullFields {
    /// The schema of a field list.
    pub fn schema(&self, description: Option<String>) -> (r: ToolboxIdlValue)
        ensures
            r@ == spec_schema_fields(
                self@,
                match description {
                    Some(d) => Some(d@),
                    None => None,
                },
            ),
        decreases *self, 1int, 0int,
    {
        let ghost desc_view: Option<Seq<char>> = match &description {
            Some(d) => Some(d@),
            None => None,
        };
        let mut entries: Vec<(String, ToolboxIdlValue)> = Vec::new();
        match &description {
            Some(d) => {
                entries.push(entry("description", ToolboxIdlValue::String(d.clone())));
            },
            None => {},
        }
        if self.is_empty() {
            entries.push(entry("type", text("null")));
            let r = ToolboxIdlValue::Object(entries);
            proof {
                lemma_value_entries_view(entries@);
                let ghost desc_entries: Seq<(Seq<char>, ToolboxIdlValueView)> = match desc_view {
                    Some(text) => seq![("description"@, ToolboxIdlValueView::String(text))],
                    None => Seq::empty(),
                };
                assert(spec_value_entries_view(entries@) =~= desc_entries + seq![
                    ("type"@, ToolboxIdlValueView::String("null"@)),
                ]);
                assert(r@ == spec_schema_fields(self@, desc_view));
            }
            return r;
        }
        match self {
            ToolboxIdlTypeFullFields::Nothing => {
                // `Nothing` is empty, so this arm is unreachable; it
                // still returns the empty-fields schema.
                entries.push(entry("type", text("null")));
                let r = ToolboxIdlValue::Object(entries);
                proof {
                    assert(false);
                }
                r
            },
            ToolboxIdlTypeFullFields::Named(fields) => {
                let ghost fields_view = self@->Named_0;
                proof {
                    lemma_type_full_fields_named_view(fields@);
                    assert(fields_view.skip(0int) =~= fields_view);
                }
                let mut props: Vec<(String, ToolboxIdlValue)> = Vec::new();
                let mut names: Vec<ToolboxIdlValue> = Vec::new();
                let mut k: usize = 0;
                while k < fields.len()
                    invariant
                        0 <= k <= fields@.len(),
                        self is Named,
                        fields == self->Named_0,
                        fields_view == self@->Named_0,
                        fields_view.len() == fields@.len(),
                        forall|j: int|
                            0 <= j < fields@.len() ==> #[trigger] fields_view[j]
                                == (fields@[j].name@, fields@[j].content@),
                        spec_value_entries_view(props@).len() == k,
                        spec_schema_properties(fields_view) =~= spec_value_entries_view(props@)
                            + spec_schema_properties(fields_view.skip(k as int)),
                        names@.len() == k,
                        forall|j: int|
                            0 <= j < k ==> #[trigger] names@[j]@ == ToolboxIdlValueView::String(
                                fields_view[j].0,
                            ),
                    decreases fields@.len() - k,
                {
                    proof {
                        assert(fields_view.skip(k as int)[0] == fields_view[k as int]);
                        assert(fields_view.skip(k as int).skip(1) =~= fields_view.skip(k + 1));
                        assert(decreases_to!(*self => self->Named_0));
                        assert(decreases_to!(self->Named_0 => self->Named_0@));
                        assert(decreases_to!(self->Named_0@ => self->Named_0@[k as int]));
                        assert(decreases_to!(self->Named_0@[k as int] => self->Named_0@[
                            k as int
                        ].content));
                    }
                    let field = &fields[k];
                    let ghost prior_props = props@;
                    props.push((field.name.clone(), field.content.schema(None)));
                    names.push(ToolboxIdlValue::String(field.name.clone()));
                    proof {
                        assert(props@.subrange(0, props@.len() - 1) =~= prior_props);
                        assert(spec_value_entries_view(props@) =~= spec_value_entries_view(
                            prior_props,
                        ) + seq![(props@.last().0@, props@.last().1@)]);
                    }
                    k += 1;
                }
                entries.push(entry("type", text("object")));
                entries.push(entry("properties", ToolboxIdlValue::Object(props)));
                entries.push(entry("required", ToolboxIdlValue::Array(names)));
                entries.push(entry("additionalProperties", ToolboxIdlValue::Bool(false)));
                let r = ToolboxIdlValue::Object(entries);
                proof {
                    lemma_value_entries_view(entries@);
                    lemma_value_entries_view(props@);
                    lemma_value_seq_view(names@);
                    assert(spec_schema_properties(fields_view.skip(fields_view.len() as int))
                        =~= Seq::<(Seq<char>, ToolboxIdlValueView)>::empty());
                    assert(spec_value_entries_view(props@) + Seq::<
                        (Seq<char>, ToolboxIdlValueView),
                    >::empty() =~= spec_value_entries_view(props@));
                    assert(spec_value_entries_view(props@) =~= spec_schema_properties(
                        fields_view,
                    ));
                    assert forall|j: int| 0 <= j < fields_view.len() implies
                        spec_value_seq_view(names@)[j] == spec_schema_names(fields_view)[j] by {
                        assert(spec_value_seq_view(names@)[j] == names@[j]@);
                    };
                    assert(spec_value_seq_view(names@) =~= spec_schema_names(fields_view));
                    let ghost desc_entries: Seq<(Seq<char>, ToolboxIdlValueView)> =
                        match desc_view {
                        Some(text) => seq![("description"@, ToolboxIdlValueView::String(text))],
                        None => Seq::empty(),
                    };
                    assert(spec_value_entries_view(entries@) =~= desc_entries + seq![
                        ("type"@, ToolboxIdlValueView::String("object"@)),
                        (
                            "properties"@,
                            ToolboxIdlValueView::Object(spec_schema_properties(fields_view)),
                        ),
                        ("required"@, ToolboxIdlValueView::Array(spec_schema_names(fields_view))),
                        ("additionalProperties"@, ToolboxIdlValueView::Bool(false)),
                    ]);
                    assert(r@ == spec_schema_fields(self@, desc_view));
                }
                r
            },
            ToolboxIdlTypeFullFields::Unnamed(fields) => {
                let ghost fields_view = self@->Unnamed_0;
                proof {
                    lemma_type_full_fields_unnamed_view(fields@);
                    assert(fields_view.skip(0int) =~= fields_view);
                }
                let mut item_schemas: Vec<ToolboxIdlValue> = Vec::new();
                let mut k: usize = 0;
                while k < fields.len()
                    invariant
                        0 <= k <= fields@.len(),
                        self is Unnamed,
                        fields == self->Unnamed_0,
                        fields_view == self@->Unnamed_0,
                        fields_view.len() == fields@.len(),
                        forall|j: int|
                            0 <= j < fields@.len() ==> #[trigger] fields_view[j]
                                == fields@[j].content@,
                        spec_value_seq_view(item_schemas@).len() == k,
                        spec_schema_items(fields_view) =~= spec_value_seq_view(item_schemas@)
                            + spec_schema_items(fields_view.skip(k as int)),
                    decreases fields@.len() - k,
                {
                    proof {
                        assert(fields_view.skip(k as int)[0] == fields_view[k as int]);
                        assert(fields_view.skip(k as int).skip(1) =~= fields_view.skip(k + 1));
                        assert(decreases_to!(*self => self->Unnamed_0));
                        assert(decreases_to!(self->Unnamed_0 => self->Unnamed_0@));
                        assert(decreases_to!(self->Unnamed_0@ => self->Unnamed_0@[k as int]));
                        assert(decreases_to!(self->Unnamed_0@[k as int] => self->Unnamed_0@[
                            k as int
                        ].content));
                    }
                    let field = &fields[k];
                    let ghost prior = item_schemas@;
                    item_schemas.push(field.content.schema(None));
                    proof {
                        assert(item_schemas@.subrange(0, item_schemas@.len() - 1) =~= prior);
                        assert(spec_value_seq_view(item_schemas@) =~= spec_value_seq_view(prior)
                            + seq![item_schemas@.last()@]);
                    }
                    k += 1;
                }
                entries.push(entry("type", text("array")));
                entries.push(entry("items", ToolboxIdlValue::Array(item_schemas)));
                entries.push(entry("minItems", ToolboxIdlValue::Number(fields.len() as i128)));
                entries.push(entry("maxItems", ToolboxIdlValue::Number(fields.len() as i128)));
                let r = ToolboxIdlValue::Object(entries);
                proof {
                    lemma_value_entries_view(entries@);
                    assert(spec_schema_items(fields_view.skip(fields_view.len() as int))
                        =~= Seq::<ToolboxIdlValueView>::empty());
                    assert(spec_value_seq_view(item_schemas@) + Seq::<
                        ToolboxIdlValueView,
                    >::empty() =~= spec_value_seq_view(item_schemas@));
                    assert(spec_value_seq_view(item_schemas@) =~= spec_schema_items(
                        fields_view,
                    ));
                    let ghost desc_entries: Seq<(Seq<char>, ToolboxIdlValueView)> =
                        match desc_view {
                        Some(text) => seq![("description"@, ToolboxIdlValueView::String(text))],
                        None => Seq::empty(),
                    };
                    assert(spec_value_entries_view(entries@) =~= desc_entries + seq![
                        ("type"@, ToolboxIdlValueView::String("array"@)),
                        ("items"@, ToolboxIdlValueView::Array(spec_schema_items(fields_view))),
                        ("minItems"@, ToolboxIdlValueView::Number(fields_view.len() as int)),
                        ("maxItems"@, ToolboxIdlValueView::Number(fields_view.len() as int)),
                    ]);
                    assert(r@ == spec_schema_fields(self@, desc_view));
                }
                r
            },
        }
    }
}

} // verus!
