//! The fully resolved type model: the closed, generic-free tree that
//! drives the binary codec, the schema generator and path addressing.
//! A `Full` tree contains no `Generic` or `Defined` nodes; hydration
//! eliminates them or fails.

use vstd::prelude::*;

use crate::type_prefix::ToolboxIdlTypePrefix;
use crate::type_primitive::ToolboxIdlTypePrimitive;

verus! {

broadcast use vstd::std_specs::vec::axiom_vec_index_decreases;

/// A fully resolved type.
#[derive(Debug, PartialEq)]
pub enum ToolboxIdlTypeFull {
    /// A named alias retained for documentation; transparent to the
    /// codec and to path addressing.
    Typedef { name: String, repr: Option<String>, content: Box<ToolboxIdlTypeFull> },
    /// An optional value: a presence flag of the prefix width, then the
    /// content if present.
    Option { prefix: ToolboxIdlTypePrefix, content: Box<ToolboxIdlTypeFull> },
    /// A variable-length collection: a length prefix, then the items.
    Vec { prefix: ToolboxIdlTypePrefix, items: Box<ToolboxIdlTypeFull> },
    /// A fixed-length collection: the items, with no prefix.
    Array { items: Box<ToolboxIdlTypeFull>, length: usize },
    /// UTF-8 text: a byte-length prefix, then the raw bytes.
    String { prefix: ToolboxIdlTypePrefix },
    /// A product of fields.
    Struct { fields: ToolboxIdlTypeFullFields },
    /// A tagged union: a discriminant of the prefix width, then the
    /// selected variant's fields.
    Enum { prefix: ToolboxIdlTypePrefix, variants: Vec<ToolboxIdlTypeFullEnumVariant> },
    /// Explicit filler around a content type.
    Padded { before: usize, min_size: usize, after: usize, content: Box<ToolboxIdlTypeFull> },
    /// A primitive leaf.
    Primitive { primitive: ToolboxIdlTypePrimitive },
}

/// The outcome of hydrating a flat node: either a resolved type or a
/// compile-time integer literal (used for array lengths).
#[derive(Debug, PartialEq)]
pub enum ToolboxIdlTypeFullOrConstLiteral {
    ToolboxIdlTypeFull(ToolboxIdlTypeFull),
    ConstLiteral(u64),
}

/// One variant of a resolved enum.
#[derive(Debug, PartialEq)]
pub struct ToolboxIdlTypeFullEnumVariant {
    pub name: String,
    pub code: u128,
    pub fields: ToolboxIdlTypeFullFields,
}

/// The field list of a resolved struct or enum variant.
#[derive(Debug, PartialEq)]
pub enum ToolboxIdlTypeFullFields {
    Nothing,
    Named(Vec<ToolboxIdlTypeFullFieldNamed>),
    Unnamed(Vec<ToolboxIdlTypeFullFieldUnnamed>),
}

/// A named field of a resolved struct.
#[derive(Debug, PartialEq)]
pub struct ToolboxIdlTypeFullFieldNamed {
    pub name: String,
    pub content: ToolboxIdlTypeFull,
}

/// A positional field of a resolved tuple struct.
#[derive(Debug, PartialEq)]
pub struct ToolboxIdlTypeFullFieldUnnamed {
    pub position: usize,
    pub content: ToolboxIdlTypeFull,
}

/// The mathematical model of a resolved type.
pub enum ToolboxIdlTypeFullView {
    Typedef { name: Seq<char>, repr: Option<Seq<char>>, content: Box<ToolboxIdlTypeFullView> },
    Option { prefix: ToolboxIdlTypePrefix, content: Box<ToolboxIdlTypeFullView> },
    Vec { prefix: ToolboxIdlTypePrefix, items: Box<ToolboxIdlTypeFullView> },
    Array { items: Box<ToolboxIdlTypeFullView>, length: usize },
    String { prefix: ToolboxIdlTypePrefix },
    Struct { fields: ToolboxIdlTypeFullFieldsView },
    Enum { prefix: ToolboxIdlTypePrefix, variants: Seq<ToolboxIdlTypeFullEnumVariantView> },
    Padded { before: usize, min_size: usize, after: usize, content: Box<ToolboxIdlTypeFullView> },
    Primitive { primitive: ToolboxIdlTypePrimitive },
}

/// The mathematical model of an enum variant.
pub struct ToolboxIdlTypeFullEnumVariantView {
    pub name: Seq<char>,
    pub code: u128,
    pub fields: ToolboxIdlTypeFullFieldsView,
}

/// The mathematical model of a field list; positional fields are
/// modelled by their order alone.
pub enum ToolboxIdlTypeFullFieldsView {
    Nothing,
    Named(Seq<(Seq<char>, ToolboxIdlTypeFullView)>),
    Unnamed(Seq<ToolboxIdlTypeFullView>),
}

/// The model of an exec resolved type.
pub open spec fn spec_type_full_view(t: ToolboxIdlTypeFull) -> ToolboxIdlTypeFullView
    decreases t,
{
    match t {
        ToolboxIdlTypeFull::Typedef { name, repr, content } => ToolboxIdlTypeFullView::Typedef {
            name: name@,
            repr: match repr {
                Some(r) => Some(r@),
                None => None,
            },
            content: Box::new(spec_type_full_view(*content)),
        },
        ToolboxIdlTypeFull::Option { prefix, content } => ToolboxIdlTypeFullView::Option {
            prefix,
            content: Box::new(spec_type_full_view(*content)),
        },
        ToolboxIdlTypeFull::Vec { prefix, items } => ToolboxIdlTypeFullView::Vec {
            prefix,
            items: Box::new(spec_type_full_view(*items)),
        },
        ToolboxIdlTypeFull::Array { items, length } => ToolboxIdlTypeFullView::Array {
            items: Box::new(spec_type_full_view(*items)),
            length,
        },
        ToolboxIdlTypeFull::String { prefix } => ToolboxIdlTypeFullView::String { prefix },
        ToolboxIdlTypeFull::Struct { fields } => ToolboxIdlTypeFullView::Struct {
            fields: spec_type_full_fields_view(fields),
        },
        ToolboxIdlTypeFull::Enum { prefix, variants } => ToolboxIdlTypeFullView::Enum {
            prefix,
            variants: spec_type_full_variants_view(variants@),
        },
        ToolboxIdlTypeFull::Padded { before, min_size, after, content } => {
            ToolboxIdlTypeFullView::Padded {
                before,
                min_size,
                after,
                content: Box::new(spec_type_full_view(*content)),
            }
        },
        ToolboxIdlTypeFull::Primitive { primitive } => ToolboxIdlTypeFullView::Primitive {
            primitive,
        },
    }
}

/// The models of a sequence of exec enum variants.
pub open spec fn spec_type_full_variants_view(
    vs: Seq<ToolboxIdlTypeFullEnumVariant>,
) -> Seq<ToolboxIdlTypeFullEnumVariantView>
    decreases vs,
{
    if vs.len() == 0 {
        Seq::empty()
    } else {
        spec_type_full_variants_view(vs.subrange(0, vs.len() - 1)).push(
            spec_type_full_variant_view(vs[vs.len() - 1]),
        )
    }
}

/// The model of an exec enum variant.
pub open spec fn spec_type_full_variant_view(
    v: ToolboxIdlTypeFullEnumVariant,
) -> ToolboxIdlTypeFullEnumVariantView
    decreases v,
{
    ToolboxIdlTypeFullEnumVariantView {
        name: v.name@,
        code: v.code,
        fields: spec_type_full_fields_view(v.fields),
    }
}

/// The model of an exec field list.
pub open spec fn spec_type_full_fields_view(
    f: ToolboxIdlTypeFullFields,
) -> ToolboxIdlTypeFullFieldsView
    decreases f,
{
    match f {
        ToolboxIdlTypeFullFields::Nothing => ToolboxIdlTypeFullFieldsView::Nothing,
        ToolboxIdlTypeFullFields::Named(fields) => ToolboxIdlTypeFullFieldsView::Named(
            spec_type_full_fields_named_view(fields@),
        ),
        ToolboxIdlTypeFullFields::Unnamed(fields) => ToolboxIdlTypeFullFieldsView::Unnamed(
            spec_type_full_fields_unnamed_view(fields@),
        ),
    }
}

/// The models of a sequence of exec named fields.
pub open spec fn spec_type_full_fields_named_view(
    fs: Seq<ToolboxIdlTypeFullFieldNamed>,
) -> Seq<(Seq<char>, ToolboxIdlTypeFullView)>
    decreases fs,
{
    if fs.len() == 0 {
        Seq::empty()
    } else {
        spec_type_full_fields_named_view(fs.subrange(0, fs.len() - 1)).push(
            (fs[fs.len() - 1].name@, spec_type_full_view(fs[fs.len() - 1].content)),
        )
    }
}

/// The models of a sequence of exec positional fields.
pub open spec fn spec_type_full_fields_unnamed_view(
    fs: Seq<ToolboxIdlTypeFullFieldUnnamed>,
) -> Seq<ToolboxIdlTypeFullView>
    decreases fs,
{
    if fs.len() == 0 {
        Seq::empty()
    } else {
        spec_type_full_fields_unnamed_view(fs.subrange(0, fs.len() - 1)).push(
            spec_type_full_view(fs[fs.len() - 1].content),
        )
    }
}

/// Element-wise reading of the variant models.
pub proof fn lemma_type_full_variants_view(vs: Seq<ToolboxIdlTypeFullEnumVariant>)
    ensures
        spec_type_full_variants_view(vs).len() == vs.len(),
        forall|i: int|
            0 <= i < vs.len() ==> #[trigger] spec_type_full_variants_view(vs)[i]
                == spec_type_full_variant_view(vs[i]),
    decreases vs,
{
    if vs.len() > 0 {
        lemma_type_full_variants_view(vs.subrange(0, vs.len() - 1));
    }
}

/// Element-wise reading of the named-field models.
pub proof fn lemma_type_full_fields_named_view(fs: Seq<ToolboxIdlTypeFullFieldNamed>)
    ensures
        spec_type_full_fields_named_view(fs).len() == fs.len(),
        forall|i: int|
            0 <= i < fs.len() ==> #[trigger] spec_type_full_fields_named_view(fs)[i]
                == (fs[i].name@, spec_type_full_view(fs[i].content)),
    decreases fs,
{
    if fs.len() > 0 {
        lemma_type_full_fields_named_view(fs.subrange(0, fs.len() - 1));
    }
}

/// Element-wise reading of the positional-field models.
pub proof fn lemma_type_full_fields_unnamed_view(fs: Seq<ToolboxIdlTypeFullFieldUnnamed>)
    ensures
        spec_type_full_fields_unnamed_view(fs).len() == fs.len(),
        forall|i: int|
            0 <= i < fs.len() ==> #[trigger] spec_type_full_fields_unnamed_view(fs)[i]
                == spec_type_full_view(fs[i].content),
    decreases fs,
{
    if fs.len() > 0 {
        lemma_type_full_fields_unnamed_view(fs.subrange(0, fs.len() - 1));
    }
}

impl View for ToolboxIdlTypeFull {
    type V = ToolboxIdlTypeFullView;

    open spec fn view(&self) -> ToolboxIdlTypeFullView {
        spec_type_full_view(*self)
    }
}

impl View for ToolboxIdlTypeFullEnumVariant {
    type V = ToolboxIdlTypeFullEnumVariantView;

    open spec fn view(&self) -> ToolboxIdlTypeFullEnumVariantView {
        spec_type_full_variant_view(*self)
    }
}

impl View for ToolboxIdlTypeFullFields {
    type V = ToolboxIdlTypeFullFieldsView;

    open spec fn view(&self) -> ToolboxIdlTypeFullFieldsView {
        spec_type_full_fields_view(*self)
    }
}

/// The mathematical model of a hydration outcome.
pub enum ToolboxIdlTypeFullOrConstLiteralView {
    ToolboxIdlTypeFull(ToolboxIdlTypeFullView),
    ConstLiteral(u64),
}

impl View for ToolboxIdlTypeFullOrConstLiteral {
    type V = ToolboxIdlTypeFullOrConstLiteralView;

    open spec fn view(&self) -> ToolboxIdlTypeFullOrConstLiteralView {
        match self {
            ToolboxIdlTypeFullOrConstLiteral::ToolboxIdlTypeFull(t) => {
                ToolboxIdlTypeFullOrConstLiteralView::ToolboxIdlTypeFull(spec_type_full_view(*t))
            },
            ToolboxIdlTypeFullOrConstLiteral::ConstLiteral(l) => {
                ToolboxIdlTypeFullOrConstLiteralView::ConstLiteral(*l)
            },
        }
    }
}

impl Clone for ToolboxIdlTypeFull {
    fn clone(&self) -> (r: Self)
        ensures
            r@ == self@,
        decreases self,
    {
        match self {
            ToolboxIdlTypeFull::Typedef { name, repr, content } => ToolboxIdlTypeFull::Typedef {
                name: name.clone(),
                repr: match repr {
                    Some(r) => Some(r.clone()),
                    None => None,
                },
                content: Box::new((**content).clone()),
            },
            ToolboxIdlTypeFull::Option { prefix, content } => ToolboxIdlTypeFull::Option {
                prefix: *prefix,
                content: Box::new((**content).clone()),
            },
            ToolboxIdlTypeFull::Vec { prefix, items } => ToolboxIdlTypeFull::Vec {
                prefix: *prefix,
                items: Box::new((**items).clone()),
            },
            ToolboxIdlTypeFull::Array { items, length } => ToolboxIdlTypeFull::Array {
                items: Box::new((**items).clone()),
                length: *length,
            },
            ToolboxIdlTypeFull::String { prefix } => ToolboxIdlTypeFull::String {
                prefix: *prefix,
            },
            ToolboxIdlTypeFull::Struct { fields } => ToolboxIdlTypeFull::Struct {
                fields: fields.clone(),
            },
            ToolboxIdlTypeFull::Enum { prefix, variants } => {
                let mut cloned_variants: Vec<ToolboxIdlTypeFullEnumVariant> = Vec::new();
                let mut i: usize = 0;
                while i < variants.len()
                    invariant
                        0 <= i <= variants.len(),
                        cloned_variants@.len() == i,
                        self is Enum,
                        variants == self->Enum_variants,
                        forall|k: int| #![trigger cloned_variants@[k]]
                            0 <= k < i ==> cloned_variants@[k]@ == variants@[k]@,
                    decreases variants.len() - i,
                {
                    proof {
                        assert(decreases_to!(*self => self->Enum_variants));
                        assert(decreases_to!(self->Enum_variants => self->Enum_variants@));
                        assert(decreases_to!(self->Enum_variants@ => self->Enum_variants@[
                            i as int
                        ]));
                    }
                    cloned_variants.push(variants[i].clone());
                    i += 1;
                }
                let r = ToolboxIdlTypeFull::Enum {
                    prefix: *prefix,
                    variants: cloned_variants,
                };
                proof {
                    lemma_type_full_variants_view(cloned_variants@);
                    lemma_type_full_variants_view(variants@);
                    assert forall|j: int| 0 <= j < variants@.len() implies
                        spec_type_full_variants_view(cloned_variants@)[j]
                            == spec_type_full_variants_view(variants@)[j] by {
                        assert(cloned_variants@[j]@ == variants@[j]@);
                    }
                    assert(spec_type_full_variants_view(cloned_variants@)
                        =~= spec_type_full_variants_view(variants@));
                }
                r
            },
            ToolboxIdlTypeFull::Padded { before, min_size, after, content } => {
                ToolboxIdlTypeFull::Padded {
                    before: *before,
                    min_size: *min_size,
                    after: *after,
                    content: Box::new((**content).clone()),
                }
            },
            ToolboxIdlTypeFull::Primitive { primitive } => ToolboxIdlTypeFull::Primitive {
                primitive: *primitive,
            },
        }
    }
}

impl Clone for ToolboxIdlTypeFullEnumVariant {
    fn clone(&self) -> (r: Self)
        ensures
            r@ == self@,
        decreases self,
    {
        ToolboxIdlTypeFullEnumVariant {
            name: self.name.clone(),
            code: self.code,
            fields: self.fields.clone(),
        }
    }
}

impl Clone for ToolboxIdlTypeFullFields {
    fn clone(&self) -> (r: Self)
        ensures
            r@ == self@,
        decreases self,
    {
        match self {
            ToolboxIdlTypeFullFields::Nothing => ToolboxIdlTypeFullFields::Nothing,
            ToolboxIdlTypeFullFields::Named(fields) => {
                let mut cloned_fields: Vec<ToolboxIdlTypeFullFieldNamed> = Vec::new();
                let mut i: usize = 0;
                while i < fields.len()
                    invariant
                        0 <= i <= fields.len(),
                        cloned_fields@.len() == i,
                        self is Named,
                        fields == self->Named_0,
                        forall|k: int| #![trigger cloned_fields@[k]]
                            0 <= k < i ==> cloned_fields@[k].name@ == fields@[k].name@
                                && cloned_fields@[k].content@ == fields@[k].content@,
                    decreases fields.len() - i,
                {
                    let field = &fields[i];
                    proof {
                        assert(decreases_to!(*self => self->Named_0));
                        assert(decreases_to!(self->Named_0 => self->Named_0@));
                        assert(decreases_to!(self->Named_0@ => self->Named_0@[i as int]));
                        assert(decreases_to!(self->Named_0@[i as int] => self->Named_0@[
                            i as int
                        ].content));
                    }
                    cloned_fields.push(
                        ToolboxIdlTypeFullFieldNamed {
                            name: field.name.clone(),
                            content: field.content.clone(),
                        },
                    );
                    i += 1;
                }
                let r = ToolboxIdlTypeFullFields::Named(cloned_fields);
                proof {
                    lemma_type_full_fields_named_view(cloned_fields@);
                    lemma_type_full_fields_named_view(fields@);
                    assert forall|j: int| 0 <= j < fields@.len() implies
                        spec_type_full_fields_named_view(cloned_fields@)[j]
                            == spec_type_full_fields_named_view(fields@)[j] by {
                        assert(cloned_fields@[j].name@ == fields@[j].name@
                            && cloned_fields@[j].content@ == fields@[j].content@);
                    }
                    assert(spec_type_full_fields_named_view(cloned_fields@)
                        =~= spec_type_full_fields_named_view(fields@));
                }
                r
            },
            ToolboxIdlTypeFullFields::Unnamed(fields) => {
                let mut cloned_fields: Vec<ToolboxIdlTypeFullFieldUnnamed> = Vec::new();
                let mut i: usize = 0;
                while i < fields.len()
                    invariant
                        0 <= i <= fields.len(),
                        cloned_fields@.len() == i,
                        self is Unnamed,
                        fields == self->Unnamed_0,
                        forall|k: int| #![trigger cloned_fields@[k]]
                            0 <= k < i ==> cloned_fields@[k].content@ == fields@[k].content@,
                    decreases fields.len() - i,
                {
                    let field = &fields[i];
                    proof {
                        assert(decreases_to!(*self => self->Unnamed_0));
                        assert(decreases_to!(self->Unnamed_0 => self->Unnamed_0@));
                        assert(decreases_to!(self->Unnamed_0@ => self->Unnamed_0@[i as int]));
                        assert(decreases_to!(self->Unnamed_0@[i as int] => self->Unnamed_0@[
                            i as int
                        ].content));
                    }
                    cloned_fields.push(
                        ToolboxIdlTypeFullFieldUnnamed {
                            position: field.position,
                            content: field.content.clone(),
                        },
                    );
                    i += 1;
                }
                let r = ToolboxIdlTypeFullFields::Unnamed(cloned_fields);
                proof {
                    lemma_type_full_fields_unnamed_view(cloned_fields@);
                    lemma_type_full_fields_unnamed_view(fields@);
                    assert forall|j: int| 0 <= j < fields@.len() implies
                        spec_type_full_fields_unnamed_view(cloned_fields@)[j]
                            == spec_type_full_fields_unnamed_view(fields@)[j] by {
                        assert(cloned_fields@[j].content@ == fields@[j].content@);
                    }
                    assert(spec_type_full_fields_unnamed_view(cloned_fields@)
                        =~= spec_type_full_fields_unnamed_view(fields@));
                }
                r
            },
        }
    }
}

impl Clone for ToolboxIdlTypeFullOrConstLiteral {
    fn clone(&self) -> (r: Self)
        ensures
            r@ == self@,
    {
        match self {
            ToolboxIdlTypeFullOrConstLiteral::ToolboxIdlTypeFull(t) => {
                ToolboxIdlTypeFullOrConstLiteral::ToolboxIdlTypeFull(t.clone())
            },
            ToolboxIdlTypeFullOrConstLiteral::ConstLiteral(l) => {
                ToolboxIdlTypeFullOrConstLiteral::ConstLiteral(*l)
            },
        }
    }
}

impl ToolboxIdlTypeFullView {
    /// Whether the type is a `u32`-prefixed vector of bytes.
    pub open spec fn spec_is_vec32_u8(self) -> bool {
        match self {
            ToolboxIdlTypeFullView::Vec { prefix, items } => {
                &&& prefix == ToolboxIdlTypePrefix::U32
                &&& *items == (ToolboxIdlTypeFullView::Primitive {
                    primitive: ToolboxIdlTypePrimitive::U8,
                })
            },
            _ => false,
        }
    }

    /// Whether the type is a `u32`-prefixed string.
    pub open spec fn spec_is_string32(self) -> bool {
        match self {
            ToolboxIdlTypeFullView::String { prefix } => prefix == ToolboxIdlTypePrefix::U32,
            _ => false,
        }
    }
}

impl ToolboxIdlTypeFull {
    /// Whether the type is a `u32`-prefixed vector of bytes.
    pub fn is_vec32_u8(&self) -> (r: bool)
        ensures
            r == self@.spec_is_vec32_u8(),
    {
        match self {
            ToolboxIdlTypeFull::Vec { prefix, items } => {
                *prefix == ToolboxIdlTypePrefix::U32 && items.is_primitive(
                    &ToolboxIdlTypePrimitive::U8,
                )
            },
            _ => false,
        }
    }

    /// Whether the type is a `u32`-prefixed string.
    pub fn is_string32(&self) -> (r: bool)
        ensures
            r == self@.spec_is_string32(),
    {
        match self {
            ToolboxIdlTypeFull::String { prefix } => *prefix == ToolboxIdlTypePrefix::U32,
            _ => false,
        }
    }

    /// Whether the type is exactly the given primitive.
    pub fn is_primitive(&self, value: &ToolboxIdlTypePrimitive) -> (r: bool)
        ensures
            r == (self@ == (ToolboxIdlTypeFullView::Primitive { primitive: *value })),
    {
        match self {
            ToolboxIdlTypeFull::Primitive { primitive } => *primitive == *value,
            _ => false,
        }
    }

    /// The empty struct type, used where a shape declares no content.
    pub fn struct_nothing() -> (r: ToolboxIdlTypeFull)
        ensures
            r@ == (ToolboxIdlTypeFullView::Struct {
                fields: ToolboxIdlTypeFullFieldsView::Nothing,
            }),
    {
        let r = ToolboxIdlTypeFull::Struct { fields: ToolboxIdlTypeFullFields::Nothing };
        proof {
            assert(spec_type_full_fields_view(ToolboxIdlTypeFullFields::Nothing)
                == ToolboxIdlTypeFullFieldsView::Nothing);
            assert(r@ == (ToolboxIdlTypeFullView::Struct {
                fields: ToolboxIdlTypeFullFieldsView::Nothing,
            }));
        }
        r
    }
}

impl ToolboxIdlTypeFullFields {
    /// Whether the field list carries no content on the wire.
    pub fn is_empty(&self) -> (r: bool)
        ensures
            r == match self@ {
                ToolboxIdlTypeFullFieldsView::Nothing => true,
                ToolboxIdlTypeFullFieldsView::Named(fs) => fs.len() == 0,
                ToolboxIdlTypeFullFieldsView::Unnamed(fs) => fs.len() == 0,
            },
    {
        let r = match self {
            ToolboxIdlTypeFullFields::Nothing => true,
            ToolboxIdlTypeFullFields::Named(fields) => fields.len() == 0,
            ToolboxIdlTypeFullFields::Unnamed(fields) => fields.len() == 0,
        };
        proof {
            match self {
                ToolboxIdlTypeFullFields::Nothing => {},
                ToolboxIdlTypeFullFields::Named(fields) => {
                    lemma_type_full_fields_named_view(fields@);
                },
                ToolboxIdlTypeFullFields::Unnamed(fields) => {
                    lemma_type_full_fields_unnamed_view(fields@);
                },
            }
        }
        r
    }
}

impl From<ToolboxIdlTypePrimitive> for ToolboxIdlTypeFull {
    fn from(primitive: ToolboxIdlTypePrimitive) -> (r: ToolboxIdlTypeFull)
    {
        ToolboxIdlTypeFull::Primitive { primitive }
    }
}

impl vstd::std_specs::convert::FromSpecImpl<ToolboxIdlTypePrimitive> for ToolboxIdlTypeFull {
    open spec fn obeys_from_spec() -> bool {
        true
    }

    open spec fn from_spec(primitive: ToolboxIdlTypePrimitive) -> ToolboxIdlTypeFull {
        ToolboxIdlTypeFull::Primitive { primitive }
    }
}

} // verus!
