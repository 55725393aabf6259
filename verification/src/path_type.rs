//! Path addressing over resolved types: walking a full type tree by a
//! path. Typedef, option and padding nodes forward transparently;
//! collections forward to their item type, rejecting key segments and
//! bounds-checking an index against a fixed array's length (a
//! vector's length is dynamic, so its bounds are checked at decode
//! time instead); structs forward by field; enums select a variant by
//! code or name and then forward into its fields; primitives and
//! strings are leaves.

use vstd::prelude::*;

use crate::error::ToolboxIdlError;
use crate::path::spec_part_value;
use crate::path::ToolboxIdlPath;
use crate::path::ToolboxIdlPathPart;
use crate::text::string_eq_str;
use crate::type_full::ToolboxIdlTypeFull;
use crate::type_full::ToolboxIdlTypeFullEnumVariantView;
use crate::type_full::ToolboxIdlTypeFullFields;
use crate::type_full::ToolboxIdlTypeFullFieldsView;
use crate::type_full::ToolboxIdlTypeFullView;
use crate::type_full::lemma_type_full_fields_named_view;
use crate::type_full::lemma_type_full_fields_unnamed_view;
use crate::type_full::lemma_type_full_variants_view;

verus! {

/// The first named field called `key`, if any.
pub open spec fn spec_find_field(
    fs: Seq<(Seq<char>, ToolboxIdlTypeFullView)>,
    key: Seq<char>,
) -> Option<ToolboxIdlTypeFullView>
    decreases fs.len(),
{
    if fs.len() == 0 {
        None
    } else if fs[0].0 == key {
        Some(fs[0].1)
    } else {
        spec_find_field(fs.skip(1), key)
    }
}

/// The first variant with the numeric code `code`, if any.
pub open spec fn spec_find_variant_by_code(
    vs: Seq<ToolboxIdlTypeFullEnumVariantView>,
    code: u128,
) -> Option<ToolboxIdlTypeFullFieldsView>
    decreases vs.len(),
{
    if vs.len() == 0 {
        None
    } else if vs[0].code == code {
        Some(vs[0].fields)
    } else {
        spec_find_variant_by_code(vs.skip(1), code)
    }
}

/// The first variant named `name`, if any.
pub open spec fn spec_find_variant_by_name(
    vs: Seq<ToolboxIdlTypeFullEnumVariantView>,
    name: Seq<char>,
) -> Option<ToolboxIdlTypeFullFieldsView>
    decreases vs.len(),
{
    if vs.len() == 0 {
        None
    } else if vs[0].name == name {
        Some(vs[0].fields)
    } else {
        spec_find_variant_by_name(vs.skip(1), name)
    }
}

/// The subtype of `t` addressed by `parts`; `None` is failure: a leaf
/// addressed as a container, a key segment on a collection, an unknown
/// field or variant, an out-of-range field index, or a path ending on
/// a bare field list.
pub open spec fn spec_get_type_full(
    parts: Seq<ToolboxIdlPathPart>,
    t: ToolboxIdlTypeFullView,
) -> Option<ToolboxIdlTypeFullView>
    decreases parts.len(), t, 0int,
{
    if parts.len() == 0 {
        Some(t)
    } else {
        match t {
            ToolboxIdlTypeFullView::Typedef { content, .. } => {
                proof {
                    assert(decreases_to!(t => t->Typedef_content));
                }
                spec_get_type_full(parts, *content)
            },
            ToolboxIdlTypeFullView::Option { content, .. } => {
                proof {
                    assert(decreases_to!(t => t->Option_content));
                }
                spec_get_type_full(parts, *content)
            },
            ToolboxIdlTypeFullView::Vec { items, .. } => {
                if parts[0] is Key {
                    None
                } else {
                    spec_get_type_full(parts.skip(1), *items)
                }
            },
            ToolboxIdlTypeFullView::Array { items, length } => {
                if parts[0] is Key {
                    None
                } else if parts[0] matches ToolboxIdlPathPart::Index(index) && index as int
                    >= length {
                    None
                } else {
                    spec_get_type_full(parts.skip(1), *items)
                }
            },
            ToolboxIdlTypeFullView::String { .. } => None,
            ToolboxIdlTypeFullView::Struct { fields } => {
                proof {
                    assert(decreases_to!(t => t->Struct_fields));
                }
                spec_get_type_full_fields(parts, fields)
            },
            ToolboxIdlTypeFullView::Enum { variants, .. } => {
                match parts[0] {
                    ToolboxIdlPathPart::Empty => None,
                    ToolboxIdlPathPart::Index(index) => {
                        match spec_find_variant_by_code(variants, index as u128) {
                            None => None,
                            Some(fields) => spec_get_type_full_fields(parts.skip(1), fields),
                        }
                    },
                    ToolboxIdlPathPart::Key(key) => {
                        match spec_find_variant_by_name(variants, key@) {
                            None => None,
                            Some(fields) => spec_get_type_full_fields(parts.skip(1), fields),
                        }
                    },
                }
            },
            ToolboxIdlTypeFullView::Padded { content, .. } => {
                proof {
                    assert(decreases_to!(t => t->Padded_content));
                }
                spec_get_type_full(parts, *content)
            },
            ToolboxIdlTypeFullView::Primitive { .. } => None,
        }
    }
}

/// The subtype of the field list `fields` addressed by `parts`; the
/// path must select a field, so an empty path is failure here.
pub open spec fn spec_get_type_full_fields(
    parts: Seq<ToolboxIdlPathPart>,
    fields: ToolboxIdlTypeFullFieldsView,
) -> Option<ToolboxIdlTypeFullView>
    decreases parts.len(), fields, 1int,
{
    if parts.len() == 0 {
        None
    } else {
        match fields {
            ToolboxIdlTypeFullFieldsView::Nothing => None,
            ToolboxIdlTypeFullFieldsView::Named(fs) => {
                match spec_find_field(fs, spec_part_value(parts[0])) {
                    None => None,
                    Some(content) => spec_get_type_full(parts.skip(1), content),
                }
            },
            ToolboxIdlTypeFullFieldsView::Unnamed(fs) => {
                match parts[0] {
                    ToolboxIdlPathPart::Index(index) => {
                        if (index as int) < fs.len() {
                            spec_get_type_full(parts.skip(1), fs[index as int])
                        } else {
                            None
                        }
                    },
                    _ => None,
                }
            },
        }
    }
}

impl ToolboxIdlPath {
    /// The subtype of `type_full` this path addresses. Succeeds exactly
    /// when the mathematical traversal does, and then returns exactly
    /// its result.
    pub fn try_get_type_full<'a>(
        &self,
        type_full: &'a ToolboxIdlTypeFull,
    ) -> (r: Result<&'a ToolboxIdlTypeFull, ToolboxIdlError>)
        ensures
            match r {
                Ok(sub) => spec_get_type_full(self.parts@, type_full@) == Some(sub@),
                Err(_) => spec_get_type_full(self.parts@, type_full@) is None,
            },
        decreases self.parts@.len(), *type_full, 0int,
    {
        let (current, next) = match self.split_first() {
            None => {
                return Ok(type_full);
            },
            Some(pair) => pair,
        };
        match type_full {
            ToolboxIdlTypeFull::Typedef { content, .. } => {
                proof {
                    assert(decreases_to!(*type_full => type_full->Typedef_content));
                }
                self.try_get_type_full(content)
            },
            ToolboxIdlTypeFull::Option { content, .. } => {
                proof {
                    assert(decreases_to!(*type_full => type_full->Option_content));
                }
                self.try_get_type_full(content)
            },
            ToolboxIdlTypeFull::Vec { items, .. } => {
                if let ToolboxIdlPathPart::Key(_) = &current {
                    return Err(
                        ToolboxIdlError::TypeMismatch(
                            String::from_str("vec cannot be accessed by key"),
                        ),
                    );
                }
                next.try_get_type_full(items)
            },
            ToolboxIdlTypeFull::Array { items, length } => {
                if let ToolboxIdlPathPart::Key(_) = &current {
                    return Err(
                        ToolboxIdlError::TypeMismatch(
                            String::from_str("array cannot be accessed by key"),
                        ),
                    );
                }
                if let ToolboxIdlPathPart::Index(index) = &current {
                    if *index >= *length {
                        return Err(
                            ToolboxIdlError::Lookup(
                                String::from_str("array index out of bounds"),
                            ),
                        );
                    }
                }
                next.try_get_type_full(items)
            },
            ToolboxIdlTypeFull::String { .. } => Err(
                ToolboxIdlError::TypeMismatch(
                    String::from_str("type string does not contain path"),
                ),
            ),
            ToolboxIdlTypeFull::Struct { fields } => {
                proof {
                    assert(decreases_to!(*type_full => type_full->Struct_fields));
                }
                self.try_get_type_full_fields(fields)
            },
            ToolboxIdlTypeFull::Enum { variants, .. } => {
                let ghost variants_view = type_full@->Enum_variants;
                proof {
                    lemma_type_full_variants_view(variants@);
                    assert(variants_view.skip(0int) =~= variants_view);
                }
                match &current {
                    ToolboxIdlPathPart::Empty => Err(
                        ToolboxIdlError::Lookup(
                            String::from_str("invalid enum variant: empty string"),
                        ),
                    ),
                    ToolboxIdlPathPart::Index(index) => {
                        let code = *index as u128;
                        let mut i: usize = 0;
                        while i < variants.len()
                            invariant
                                0 <= i <= variants@.len(),
                                type_full is Enum,
                                variants == type_full->Enum_variants,
                                variants_view == type_full@->Enum_variants,
                                variants_view.len() == variants@.len(),
                                forall|j: int|
                                    0 <= j < variants@.len() ==> #[trigger] variants_view[j]
                                        == variants@[j]@,
                                self.parts@.len() > 0,
                                next.parts@ == self.parts@.skip(1),
                                self.parts@[0] is Index,
                                self.parts@[0]->Index_0 as u128 == code,
                                spec_find_variant_by_code(variants_view.skip(i as int), code)
                                    == spec_find_variant_by_code(variants_view, code),
                            decreases variants@.len() - i,
                        {
                            proof {
                                assert(variants_view.skip(i as int)[0] == variants_view[i as int]);
                                assert(variants_view.skip(i as int).skip(1) =~= variants_view.skip(
                                    i + 1,
                                ));
                            }
                            if variants[i].code == code {
                                return next.try_get_type_full_fields(&variants[i].fields);
                            }
                            i += 1;
                        }
                        proof {
                            assert(variants_view.skip(variants_view.len() as int)
                                =~= Seq::<ToolboxIdlTypeFullEnumVariantView>::empty());
                        }
                        Err(
                            ToolboxIdlError::Lookup(
                                String::from_str("could not find enum variant by code"),
                            ),
                        )
                    },
                    ToolboxIdlPathPart::Key(key) => {
                        let mut i: usize = 0;
                        while i < variants.len()
                            invariant
                                0 <= i <= variants@.len(),
                                type_full is Enum,
                                variants == type_full->Enum_variants,
                                variants_view == type_full@->Enum_variants,
                                variants_view.len() == variants@.len(),
                                forall|j: int|
                                    0 <= j < variants@.len() ==> #[trigger] variants_view[j]
                                        == variants@[j]@,
                                self.parts@.len() > 0,
                                next.parts@ == self.parts@.skip(1),
                                self.parts@[0] is Key,
                                self.parts@[0]->Key_0@ == key@,
                                spec_find_variant_by_name(variants_view.skip(i as int), key@)
                                    == spec_find_variant_by_name(variants_view, key@),
                            decreases variants@.len() - i,
                        {
                            proof {
                                assert(variants_view.skip(i as int)[0] == variants_view[i as int]);
                                assert(variants_view.skip(i as int).skip(1) =~= variants_view.skip(
                                    i + 1,
                                ));
                            }
                            if string_eq_str(&variants[i].name, key.as_str()) {
                                return next.try_get_type_full_fields(&variants[i].fields);
                            }
                            i += 1;
                        }
                        proof {
                            assert(variants_view.skip(variants_view.len() as int)
                                =~= Seq::<ToolboxIdlTypeFullEnumVariantView>::empty());
                        }
                        Err(
                            ToolboxIdlError::Lookup(
                                String::from_str("could not find enum variant by name"),
                            ),
                        )
                    },
                }
            },
            ToolboxIdlTypeFull::Padded { content, .. } => {
                proof {
                    assert(decreases_to!(*type_full => type_full->Padded_content));
                }
                self.try_get_type_full(content)
            },
            ToolboxIdlTypeFull::Primitive { .. } => Err(
                ToolboxIdlError::TypeMismatch(
                    String::from_str("type primitive does not contain path"),
                ),
            ),
        }
    }

    /// The subtype of the field list `type_full_fields` this path
    /// addresses; an empty path is an error, since a bare field list is
    /// not a standalone type.
    pub fn try_get_type_full_fields<'a>(
        &self,
        type_full_fields: &'a ToolboxIdlTypeFullFields,
    ) -> (r: Result<&'a ToolboxIdlTypeFull, ToolboxIdlError>)
        ensures
            match r {
                Ok(sub) => spec_get_type_full_fields(self.parts@, type_full_fields@)
                    == Some(sub@),
                Err(_) => spec_get_type_full_fields(self.parts@, type_full_fields@) is None,
            },
        decreases self.parts@.len(), *type_full_fields, 1int,
    {
        let (current, next) = match self.split_first() {
            None => {
                return Err(
                    ToolboxIdlError::TypeMismatch(
                        String::from_str("fields cannot be a standalone type"),
                    ),
                );
            },
            Some(pair) => pair,
        };
        match type_full_fields {
            ToolboxIdlTypeFullFields::Nothing => Err(
                ToolboxIdlError::Lookup(String::from_str("type has no fields")),
            ),
            ToolboxIdlTypeFullFields::Named(fields) => {
                let key = current.value();
                let ghost fields_view = type_full_fields@->Named_0;
                proof {
                    lemma_type_full_fields_named_view(fields@);
                    assert(fields_view.skip(0int) =~= fields_view);
                }
                let mut i: usize = 0;
                while i < fields.len()
                    invariant
                        0 <= i <= fields@.len(),
                        key@ == spec_part_value(self.parts@[0]),
                        self.parts@.len() > 0,
                        next.parts@ == self.parts@.skip(1),
                        type_full_fields is Named,
                        fields == type_full_fields->Named_0,
                        fields_view == spec_type_full_fields_named_view_of(*type_full_fields),
                        fields_view.len() == fields@.len(),
                        forall|j: int|
                            0 <= j < fields@.len() ==> #[trigger] fields_view[j]
                                == (fields@[j].name@, fields@[j].content@),
                        spec_find_field(fields_view.skip(i as int), key@)
                            == spec_find_field(fields_view, key@),
                    decreases fields@.len() - i,
                {
                    proof {
                        assert(fields_view.skip(i as int)[0] == fields_view[i as int]);
                        assert(fields_view.skip(i as int).skip(1) =~= fields_view.skip(i + 1));
                    }
                    if string_eq_str(&fields[i].name, key.as_str()) {
                        proof {
                            assert(decreases_to!(*type_full_fields
                                => type_full_fields->Named_0));
                            assert(decreases_to!(type_full_fields->Named_0
                                => type_full_fields->Named_0@));
                            assert(decreases_to!(type_full_fields->Named_0@
                                => type_full_fields->Named_0@[i as int]));
                        }
                        return next.try_get_type_full(&fields[i].content);
                    }
                    i += 1;
                }
                proof {
                    assert(fields_view.skip(fields_view.len() as int)
                        =~= Seq::<(Seq<char>, ToolboxIdlTypeFullView)>::empty());
                }
                Err(ToolboxIdlError::Lookup(String::from_str("could not find named field")))
            },
            ToolboxIdlTypeFullFields::Unnamed(fields) => {
                let index = match current.index() {
                    None => {
                        return Err(
                            ToolboxIdlError::TypeMismatch(String::from_str("field index")),
                        );
                    },
                    Some(index) => index,
                };
                let ghost fields_view = type_full_fields@->Unnamed_0;
                proof {
                    lemma_type_full_fields_unnamed_view(fields@);
                }
                if index >= fields.len() {
                    return Err(
                        ToolboxIdlError::Lookup(String::from_str("invalid field index")),
                    );
                }
                proof {
                    assert(decreases_to!(*type_full_fields => type_full_fields->Unnamed_0));
                    assert(decreases_to!(type_full_fields->Unnamed_0
                        => type_full_fields->Unnamed_0@));
                    assert(decreases_to!(type_full_fields->Unnamed_0@
                        => type_full_fields->Unnamed_0@[index as int]));
                }
                next.try_get_type_full(&fields[index].content)
            },
        }
    }
}

/// The named-field models of a field list known to be `Named`.
pub open spec fn spec_type_full_fields_named_view_of(f: ToolboxIdlTypeFullFields) -> Seq<
    (Seq<char>, ToolboxIdlTypeFullView),
> {
    f@->Named_0
}

/// Whether two path parts agree up to string views.
pub open spec fn spec_part_equiv(a: ToolboxIdlPathPart, b: ToolboxIdlPathPart) -> bool {
    match (a, b) {
        (ToolboxIdlPathPart::Empty, ToolboxIdlPathPart::Empty) => true,
        (ToolboxIdlPathPart::Index(x), ToolboxIdlPathPart::Index(y)) => x == y,
        (ToolboxIdlPathPart::Key(x), ToolboxIdlPathPart::Key(y)) => x@ == y@,
        _ => false,
    }
}

/// Whether two part sequences agree element-wise up to string views.
pub open spec fn spec_parts_equiv(
    a: Seq<ToolboxIdlPathPart>,
    b: Seq<ToolboxIdlPathPart>,
) -> bool {
    a.len() == b.len() && (forall|i: int|
        0 <= i < a.len() ==> spec_part_equiv(#[trigger] a[i], #[trigger] b[i]))
}

/// Type traversal depends only on the parts' views: equivalent part
/// sequences address the same subtype.
pub proof fn lemma_get_type_full_congruent(
    a: Seq<ToolboxIdlPathPart>,
    b: Seq<ToolboxIdlPathPart>,
    t: ToolboxIdlTypeFullView,
)
    requires
        spec_parts_equiv(a, b),
    ensures
        spec_get_type_full(a, t) == spec_get_type_full(b, t),
    decreases a.len(), t, 0int,
{
    if a.len() == 0 {
    } else {
        assert(spec_part_equiv(a[0], b[0]));
        assert(spec_part_value(a[0]) == spec_part_value(b[0]));
        assert(spec_parts_equiv(a.skip(1), b.skip(1))) by {
            assert(forall|i: int|
                0 <= i < a.skip(1).len() ==> a.skip(1)[i] == a[i + 1] && b.skip(1)[i] == b[
                    i + 1
                ]);
        }
        match t {
            ToolboxIdlTypeFullView::Typedef { content, .. } => {
                assert(decreases_to!(t => t->Typedef_content));
                lemma_get_type_full_congruent(a, b, *content);
            },
            ToolboxIdlTypeFullView::Option { content, .. } => {
                assert(decreases_to!(t => t->Option_content));
                lemma_get_type_full_congruent(a, b, *content);
            },
            ToolboxIdlTypeFullView::Vec { items, .. } => {
                lemma_get_type_full_congruent(a.skip(1), b.skip(1), *items);
            },
            ToolboxIdlTypeFullView::Array { items, .. } => {
                lemma_get_type_full_congruent(a.skip(1), b.skip(1), *items);
            },
            ToolboxIdlTypeFullView::Struct { fields } => {
                assert(decreases_to!(t => t->Struct_fields));
                lemma_get_type_full_fields_congruent(a, b, fields);
            },
            ToolboxIdlTypeFullView::Enum { variants, .. } => {
                match a[0] {
                    ToolboxIdlPathPart::Index(index) => {
                        match spec_find_variant_by_code(variants, index as u128) {
                            Some(fields) => {
                                lemma_find_variant_by_code_smaller(
                                    variants,
                                    index as u128,
                                );
                                lemma_get_type_full_fields_congruent(
                                    a.skip(1),
                                    b.skip(1),
                                    fields,
                                );
                            },
                            None => {},
                        }
                    },
                    ToolboxIdlPathPart::Key(key) => {
                        assert(b[0] is Key && b[0]->Key_0@ == key@);
                        match spec_find_variant_by_name(variants, key@) {
                            Some(fields) => {
                                lemma_find_variant_by_name_smaller(variants, key@);
                                lemma_get_type_full_fields_congruent(
                                    a.skip(1),
                                    b.skip(1),
                                    fields,
                                );
                            },
                            None => {},
                        }
                    },
                    _ => {},
                }
            },
            ToolboxIdlTypeFullView::Padded { content, .. } => {
                assert(decreases_to!(t => t->Padded_content));
                lemma_get_type_full_congruent(a, b, *content);
            },
            _ => {},
        }
    }
}

/// Field-list traversal depends only on the parts' views.
pub proof fn lemma_get_type_full_fields_congruent(
    a: Seq<ToolboxIdlPathPart>,
    b: Seq<ToolboxIdlPathPart>,
    fields: ToolboxIdlTypeFullFieldsView,
)
    requires
        spec_parts_equiv(a, b),
    ensures
        spec_get_type_full_fields(a, fields) == spec_get_type_full_fields(b, fields),
    decreases a.len(), fields, 1int,
{
    if a.len() == 0 {
    } else {
        assert(spec_part_equiv(a[0], b[0]));
        assert(spec_part_value(a[0]) == spec_part_value(b[0]));
        assert(spec_parts_equiv(a.skip(1), b.skip(1))) by {
            assert(forall|i: int|
                0 <= i < a.skip(1).len() ==> a.skip(1)[i] == a[i + 1] && b.skip(1)[i] == b[
                    i + 1
                ]);
        }
        match fields {
            ToolboxIdlTypeFullFieldsView::Nothing => {},
            ToolboxIdlTypeFullFieldsView::Named(fs) => {
                match spec_find_field(fs, spec_part_value(a[0])) {
                    Some(content) => {
                        lemma_find_field_smaller(fs, spec_part_value(a[0]));
                        lemma_get_type_full_congruent(a.skip(1), b.skip(1), content);
                    },
                    None => {},
                }
            },
            ToolboxIdlTypeFullFieldsView::Unnamed(fs) => {
                match a[0] {
                    ToolboxIdlPathPart::Index(index) => {
                        if (index as int) < fs.len() {
                            assert(decreases_to!(fields => fields->Unnamed_0));
                            assert(decreases_to!(fs => fs[index as int]));
                            lemma_get_type_full_congruent(
                                a.skip(1),
                                b.skip(1),
                                fs[index as int],
                            );
                        }
                    },
                    _ => {},
                }
            },
        }
    }
}

/// A found named field's content is structurally below the list.
proof fn lemma_find_field_smaller(
    fs: Seq<(Seq<char>, ToolboxIdlTypeFullView)>,
    key: Seq<char>,
)
    requires
        spec_find_field(fs, key) is Some,
    ensures
        decreases_to!(fs => spec_find_field(fs, key).unwrap()),
    decreases fs.len(),
{
    if fs[0].0 == key {
        assert(decreases_to!(fs => fs[0]));
        assert(decreases_to!(fs[0] => fs[0].1));
    } else {
        lemma_find_field_smaller(fs.skip(1), key);
        assert(decreases_to!(fs => fs.skip(1)));
    }
}

/// A found variant's fields are structurally below the variant list.
proof fn lemma_find_variant_by_code_smaller(
    vs: Seq<ToolboxIdlTypeFullEnumVariantView>,
    code: u128,
)
    requires
        spec_find_variant_by_code(vs, code) is Some,
    ensures
        decreases_to!(vs => spec_find_variant_by_code(vs, code).unwrap()),
    decreases vs.len(),
{
    if vs[0].code == code {
        assert(decreases_to!(vs => vs[0]));
        assert(decreases_to!(vs[0] => vs[0].fields));
    } else {
        lemma_find_variant_by_code_smaller(vs.skip(1), code);
        assert(decreases_to!(vs => vs.skip(1)));
    }
}

/// A found variant's fields are structurally below the variant list.
proof fn lemma_find_variant_by_name_smaller(
    vs: Seq<ToolboxIdlTypeFullEnumVariantView>,
    name: Seq<char>,
)
    requires
        spec_find_variant_by_name(vs, name) is Some,
    ensures
        decreases_to!(vs => spec_find_variant_by_name(vs, name).unwrap()),
    decreases vs.len(),
{
    if vs[0].name == name {
        assert(decreases_to!(vs => vs[0]));
        assert(decreases_to!(vs[0] => vs[0].fields));
    } else {
        lemma_find_variant_by_name_smaller(vs.skip(1), name);
        assert(decreases_to!(vs => vs.skip(1)));
    }
}

} // verus!
