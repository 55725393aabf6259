//! The unresolved type grammar: the literal shape parsed from an IDL
//! document. A flat tree may still reference generic symbols and named
//! typedefs; hydration resolves it into a full tree.

use vstd::prelude::*;

use crate::type_prefix::ToolboxIdlTypePrefix;
use crate::type_primitive::ToolboxIdlTypePrimitive;

verus! {

/// An unresolved type expression.
#[derive(Debug, PartialEq)]
pub enum ToolboxIdlTypeFlat {
    /// A reference to a named typedef, with generic arguments.
    Defined { name: String, generics: Vec<ToolboxIdlTypeFlat> },
    /// A reference to a generic symbol bound by the enclosing typedef.
    Generic { symbol: String },
    Option { prefix: ToolboxIdlTypePrefix, content: Box<ToolboxIdlTypeFlat> },
    Vec { prefix: ToolboxIdlTypePrefix, items: Box<ToolboxIdlTypeFlat> },
    /// A fixed-length collection; the length is itself a flat node and
    /// must hydrate to a compile-time integer literal.
    Array { items: Box<ToolboxIdlTypeFlat>, length: Box<ToolboxIdlTypeFlat> },
    String { prefix: ToolboxIdlTypePrefix },
    Struct { fields: ToolboxIdlTypeFlatFields },
    Enum { prefix: ToolboxIdlTypePrefix, variants: Vec<ToolboxIdlTypeFlatEnumVariant> },
    Padded { before: usize, min_size: usize, after: usize, content: Box<ToolboxIdlTypeFlat> },
    /// A compile-time integer literal, usable as an array length or a
    /// generic argument.
    Const { literal: u64 },
    Primitive { primitive: ToolboxIdlTypePrimitive },
}

/// One variant of an unresolved enum.
#[derive(Debug, PartialEq)]
pub struct ToolboxIdlTypeFlatEnumVariant {
    pub name: String,
    pub code: u128,
    pub fields: ToolboxIdlTypeFlatFields,
}

/// The field list of an unresolved struct or enum variant.
#[derive(Debug, PartialEq)]
pub enum ToolboxIdlTypeFlatFields {
    Nothing,
    Named(Vec<ToolboxIdlTypeFlatFieldNamed>),
    Unnamed(Vec<ToolboxIdlTypeFlatFieldUnnamed>),
}

/// A named field of an unresolved struct.
#[derive(Debug, PartialEq)]
pub struct ToolboxIdlTypeFlatFieldNamed {
    pub name: String,
    pub content: ToolboxIdlTypeFlat,
}

/// A positional field of an unresolved tuple struct.
#[derive(Debug, PartialEq)]
pub struct ToolboxIdlTypeFlatFieldUnnamed {
    pub content: ToolboxIdlTypeFlat,
}

/// The mathematical model of an unresolved type.
pub enum ToolboxIdlTypeFlatView {
    Defined { name: Seq<char>, generics: Seq<ToolboxIdlTypeFlatView> },
    Generic { symbol: Seq<char> },
    Option { prefix: ToolboxIdlTypePrefix, content: Box<ToolboxIdlTypeFlatView> },
    Vec { prefix: ToolboxIdlTypePrefix, items: Box<ToolboxIdlTypeFlatView> },
    Array { items: Box<ToolboxIdlTypeFlatView>, length: Box<ToolboxIdlTypeFlatView> },
    String { prefix: ToolboxIdlTypePrefix },
    Struct { fields: ToolboxIdlTypeFlatFieldsView },
    Enum { prefix: ToolboxIdlTypePrefix, variants: Seq<ToolboxIdlTypeFlatEnumVariantView> },
    Padded { before: usize, min_size: usize, after: usize, content: Box<ToolboxIdlTypeFlatView> },
    Const { literal: u64 },
    Primitive { primitive: ToolboxIdlTypePrimitive },
}

/// The mathematical model of an unresolved enum variant.
pub struct ToolboxIdlTypeFlatEnumVariantView {
    pub name: Seq<char>,
    pub code: u128,
    pub fields: ToolboxIdlTypeFlatFieldsView,
}

/// The mathematical model of an unresolved field list.
pub enum ToolboxIdlTypeFlatFieldsView {
    Nothing,
    Named(Seq<(Seq<char>, ToolboxIdlTypeFlatView)>),
    Unnamed(Seq<ToolboxIdlTypeFlatView>),
}

/// The model of an exec unresolved type.
pub open spec fn spec_type_flat_view(t: ToolboxIdlTypeFlat) -> ToolboxIdlTypeFlatView
    decreases t,
{
    match t {
        ToolboxIdlTypeFlat::Defined { name, generics } => ToolboxIdlTypeFlatView::Defined {
            name: name@,
            generics: spec_type_flat_seq_view(generics@),
        },
        ToolboxIdlTypeFlat::Generic { symbol } => ToolboxIdlTypeFlatView::Generic {
            symbol: symbol@,
        },
        ToolboxIdlTypeFlat::Option { prefix, content } => ToolboxIdlTypeFlatView::Option {
            prefix,
            content: Box::new(spec_type_flat_view(*content)),
        },
        ToolboxIdlTypeFlat::Vec { prefix, items } => ToolboxIdlTypeFlatView::Vec {
            prefix,
            items: Box::new(spec_type_flat_view(*items)),
        },
        ToolboxIdlTypeFlat::Array { items, length } => ToolboxIdlTypeFlatView::Array {
            items: Box::new(spec_type_flat_view(*items)),
            length: Box::new(spec_type_flat_view(*length)),
        },
        ToolboxIdlTypeFlat::String { prefix } => ToolboxIdlTypeFlatView::String { prefix },
        ToolboxIdlTypeFlat::Struct { fields } => ToolboxIdlTypeFlatView::Struct {
            fields: spec_type_flat_fields_view(fields),
        },
        ToolboxIdlTypeFlat::Enum { prefix, variants } => ToolboxIdlTypeFlatView::Enum {
            prefix,
            variants: spec_type_flat_variants_view(variants@),
        },
        ToolboxIdlTypeFlat::Padded { before, min_size, after, content } => {
            ToolboxIdlTypeFlatView::Padded {
                before,
                min_size,
                after,
                content: Box::new(spec_type_flat_view(*content)),
            }
        },
        ToolboxIdlTypeFlat::Const { literal } => ToolboxIdlTypeFlatView::Const { literal },
        ToolboxIdlTypeFlat::Primitive { primitive } => ToolboxIdlTypeFlatView::Primitive {
            primitive,
        },
    }
}

/// The models of a sequence of exec unresolved types.
pub open spec fn spec_type_flat_seq_view(ts: Seq<ToolboxIdlTypeFlat>) -> Seq<
    ToolboxIdlTypeFlatView,
>
    decreases ts,
{
    if ts.len() == 0 {
        Seq::empty()
    } else {
        spec_type_flat_seq_view(ts.subrange(0, ts.len() - 1)).push(
            spec_type_flat_view(ts[ts.len() - 1]),
        )
    }
}

/// The model of an exec unresolved enum variant.
pub open spec fn spec_type_flat_variant_view(
    v: ToolboxIdlTypeFlatEnumVariant,
) -> ToolboxIdlTypeFlatEnumVariantView
    decreases v,
{
    ToolboxIdlTypeFlatEnumVariantView {
        name: v.name@,
        code: v.code,
        fields: spec_type_flat_fields_view(v.fields),
    }
}

/// The models of a sequence of exec unresolved enum variants.
pub open spec fn spec_type_flat_variants_view(vs: Seq<ToolboxIdlTypeFlatEnumVariant>) -> Seq<
    ToolboxIdlTypeFlatEnumVariantView,
>
    decreases vs,
{
    if vs.len() == 0 {
        Seq::empty()
    } else {
        spec_type_flat_variants_view(vs.subrange(0, vs.len() - 1)).push(
            spec_type_flat_variant_view(vs[vs.len() - 1]),
        )
    }
}

/// The model of an exec unresolved field list.
pub open spec fn spec_type_flat_fields_view(
    f: ToolboxIdlTypeFlatFields,
) -> ToolboxIdlTypeFlatFieldsView
    decreases f,
{
    match f {
        ToolboxIdlTypeFlatFields::Nothing => ToolboxIdlTypeFlatFieldsView::Nothing,
        ToolboxIdlTypeFlatFields::Named(fields) => ToolboxIdlTypeFlatFieldsView::Named(
            spec_type_flat_fields_named_view(fields@),
        ),
        ToolboxIdlTypeFlatFields::Unnamed(fields) => ToolboxIdlTypeFlatFieldsView::Unnamed(
            spec_type_flat_fields_unnamed_view(fields@),
        ),
    }
}

/// The models of a sequence of exec named fields.
pub open spec fn spec_type_flat_fields_named_view(fs: Seq<ToolboxIdlTypeFlatFieldNamed>) -> Seq<
    (Seq<char>, ToolboxIdlTypeFlatView),
>
    decreases fs,
{
    if fs.len() == 0 {
        Seq::empty()
    } else {
        spec_type_flat_fields_named_view(fs.subrange(0, fs.len() - 1)).push(
            (fs[fs.len() - 1].name@, spec_type_flat_view(fs[fs.len() - 1].content)),
        )
    }
}

/// The models of a sequence of exec positional fields.
pub open spec fn spec_type_flat_fields_unnamed_view(fs: Seq<ToolboxIdlTypeFlatFieldUnnamed>) -> Seq<
    ToolboxIdlTypeFlatView,
>
    decreases fs,
{
    if fs.len() == 0 {
        Seq::empty()
    } else {
        spec_type_flat_fields_unnamed_view(fs.subrange(0, fs.len() - 1)).push(
            spec_type_flat_view(fs[fs.len() - 1].content),
        )
    }
}

/// Element-wise reading of the generic-argument models.
pub proof fn lemma_type_flat_seq_view(ts: Seq<ToolboxIdlTypeFlat>)
    ensures
        spec_type_flat_seq_view(ts).len() == ts.len(),
        forall|i: int|
            0 <= i < ts.len() ==> #[trigger] spec_type_flat_seq_view(ts)[i]
                == spec_type_flat_view(ts[i]),
    decreases ts,
{
    if ts.len() > 0 {
        lemma_type_flat_seq_view(ts.subrange(0, ts.len() - 1));
    }
}

/// Element-wise reading of the variant models.
pub proof fn lemma_type_flat_variants_view(vs: Seq<ToolboxIdlTypeFlatEnumVariant>)
    ensures
        spec_type_flat_variants_view(vs).len() == vs.len(),
        forall|i: int|
            0 <= i < vs.len() ==> #[trigger] spec_type_flat_variants_view(vs)[i]
                == spec_type_flat_variant_view(vs[i]),
    decreases vs,
{
    if vs.len() > 0 {
        lemma_type_flat_variants_view(vs.subrange(0, vs.len() - 1));
    }
}

/// Element-wise reading of the named-field models.
pub proof fn lemma_type_flat_fields_named_view(fs: Seq<ToolboxIdlTypeFlatFieldNamed>)
    ensures
        spec_type_flat_fields_named_view(fs).len() == fs.len(),
        forall|i: int|
            0 <= i < fs.len() ==> #[trigger] spec_type_flat_fields_named_view(fs)[i]
                == (fs[i].name@, spec_type_flat_view(fs[i].content)),
    decreases fs,
{
    if fs.len() > 0 {
        lemma_type_flat_fields_named_view(fs.subrange(0, fs.len() - 1));
    }
}

/// Element-wise reading of the positional-field models.
pub proof fn lemma_type_flat_fields_unnamed_view(fs: Seq<ToolboxIdlTypeFlatFieldUnnamed>)
    ensures
        spec_type_flat_fields_unnamed_view(fs).len() == fs.len(),
        forall|i: int|
            0 <= i < fs.len() ==> #[trigger] spec_type_flat_fields_unnamed_view(fs)[i]
                == spec_type_flat_view(fs[i].content),
    decreases fs,
{
    if fs.len() > 0 {
        lemma_type_flat_fields_unnamed_view(fs.subrange(0, fs.len() - 1));
    }
}

impl View for ToolboxIdlTypeFlat {
    type V = ToolboxIdlTypeFlatView;

    open spec fn view(&self) -> ToolboxIdlTypeFlatView {
        spec_type_flat_view(*self)
    }
}

impl View for ToolboxIdlTypeFlatEnumVariant {
    type V = ToolboxIdlTypeFlatEnumVariantView;

    open spec fn view(&self) -> ToolboxIdlTypeFlatEnumVariantView {
        spec_type_flat_variant_view(*self)
    }
}

impl View for ToolboxIdlTypeFlatFields {
    type V = ToolboxIdlTypeFlatFieldsView;

    open spec fn view(&self) -> ToolboxIdlTypeFlatFieldsView {
        spec_type_flat_fields_view(*self)
    }
}

} // verus!
