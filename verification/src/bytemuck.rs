//! The fixed-memory-layout transform: rewriting a resolved type so
//! that its wire encoding follows the type's in-memory C layout —
//! aligned field offsets, trailing padding, and a fixed total size —
//! rather than sequential packing. Variable-length types (vectors,
//! strings, options and enums) have no fixed memory image and are
//! rejected.

use vstd::prelude::*;

use crate::error::ToolboxIdlError;
use crate::serialize::spec_serialize;
use crate::serialize::spec_zeros;
use crate::serialize::spec_serialize_fields;
use crate::serialize::spec_serialize_fields_named;
use crate::serialize::spec_serialize_fields_unnamed;
use crate::serialize::spec_serialize_items;
use crate::type_full::lemma_type_full_fields_named_view;
use crate::type_full::lemma_type_full_fields_unnamed_view;
use crate::type_full::spec_type_full_view;
use crate::type_full::ToolboxIdlTypeFull;
use crate::type_full::ToolboxIdlTypeFullFieldNamed;
use crate::type_full::ToolboxIdlTypeFullFieldUnnamed;
use crate::type_full::ToolboxIdlTypeFullFields;
use crate::type_full::ToolboxIdlTypeFullFieldsView;
use crate::type_full::ToolboxIdlTypeFullView;
use crate::type_primitive::ToolboxIdlTypePrimitive;
use crate::value::ToolboxIdlValueView;

verus! {

/// `n` rounded up to the next multiple of `a`.
pub open spec fn spec_align_up(n: nat, a: nat) -> nat {
    (((n + a - 1) as nat) / a) * a
}

/// The memory alignment and size of a primitive leaf.
pub open spec fn spec_primitive_layout(primitive: ToolboxIdlTypePrimitive) -> (nat, nat) {
    match primitive {
        ToolboxIdlTypePrimitive::U8 => (1, 1),
        ToolboxIdlTypePrimitive::U16 => (2, 2),
        ToolboxIdlTypePrimitive::U32 => (4, 4),
        ToolboxIdlTypePrimitive::U64 => (8, 8),
        ToolboxIdlTypePrimitive::U128 => (16, 16),
        ToolboxIdlTypePrimitive::I8 => (1, 1),
        ToolboxIdlTypePrimitive::I16 => (2, 2),
        ToolboxIdlTypePrimitive::I32 => (4, 4),
        ToolboxIdlTypePrimitive::I64 => (8, 8),
        ToolboxIdlTypePrimitive::I128 => (16, 16),
        ToolboxIdlTypePrimitive::F32 => (4, 4),
        ToolboxIdlTypePrimitive::F64 => (8, 8),
        ToolboxIdlTypePrimitive::Bool => (1, 1),
        ToolboxIdlTypePrimitive::Pubkey => (1, 32),
    }
}

/// The fixed-layout image of a type: its alignment, its total size,
/// and the padding-annotated type whose encoding occupies exactly that
/// size. `None` is failure: a type with no fixed memory image, or a
/// size beyond the platform's reach.
pub open spec fn spec_bytemuck(t: ToolboxIdlTypeFullView) -> Option<
    (nat, nat, ToolboxIdlTypeFullView),
>
    decreases t, 0int, 0int,
{
    match t {
        ToolboxIdlTypeFullView::Typedef { content, .. } => {
            proof {
                assert(decreases_to!(t => t->Typedef_content));
            }
            spec_bytemuck(*content)
        },
        ToolboxIdlTypeFullView::Array { items, length } => {
            proof {
                assert(decreases_to!(t => t->Array_items));
            }
            match spec_bytemuck(*items) {
                Some(item_layout) => {
                    let stride = spec_align_up(item_layout.1, item_layout.0);
                    if stride <= usize::MAX && length * stride <= usize::MAX {
                        Some(
                            (
                                item_layout.0,
                                (length * stride) as nat,
                                ToolboxIdlTypeFullView::Array {
                                    items: Box::new(
                                        ToolboxIdlTypeFullView::Padded {
                                            before: 0,
                                            min_size: stride as usize,
                                            after: 0,
                                            content: Box::new(item_layout.2),
                                        },
                                    ),
                                    length,
                                },
                            ),
                        )
                    } else {
                        None
                    }
                },
                None => None,
            }
        },
        ToolboxIdlTypeFullView::Struct { fields } => {
            proof {
                assert(decreases_to!(t => t->Struct_fields));
            }
            match spec_bytemuck_fields(fields) {
                Some(layout) => {
                    let total = spec_align_up(layout.1, layout.0);
                    if total <= usize::MAX {
                        Some(
                            (
                                layout.0,
                                total,
                                ToolboxIdlTypeFullView::Padded {
                                    before: 0,
                                    min_size: total as usize,
                                    after: 0,
                                    content: Box::new(
                                        ToolboxIdlTypeFullView::Struct { fields: layout.2 },
                                    ),
                                },
                            ),
                        )
                    } else {
                        None
                    }
                },
                None => None,
            }
        },
        ToolboxIdlTypeFullView::Primitive { primitive } => {
            let layout = spec_primitive_layout(primitive);
            Some((layout.0, layout.1, t))
        },
        _ => None,
    }
}

/// The fixed layout of a field list: each field aligned to its own
/// alignment; the end cursor is not yet rounded to the whole's
/// alignment.
pub open spec fn spec_bytemuck_fields(fields: ToolboxIdlTypeFullFieldsView) -> Option<
    (nat, nat, ToolboxIdlTypeFullFieldsView),
>
    decreases fields, 1int, 0int,
{
    match fields {
        ToolboxIdlTypeFullFieldsView::Nothing => Some(
            (1, 0, ToolboxIdlTypeFullFieldsView::Nothing),
        ),
        ToolboxIdlTypeFullFieldsView::Named(fs) => {
            proof {
                assert(decreases_to!(fields => fields->Named_0));
            }
            match spec_bytemuck_named(fs, 0, 1) {
                Some(layout) => Some(
                    (layout.0, layout.1, ToolboxIdlTypeFullFieldsView::Named(layout.2)),
                ),
                None => None,
            }
        },
        ToolboxIdlTypeFullFieldsView::Unnamed(fs) => {
            proof {
                assert(decreases_to!(fields => fields->Unnamed_0));
            }
            match spec_bytemuck_unnamed(fs, 0, 1) {
                Some(layout) => Some(
                    (layout.0, layout.1, ToolboxIdlTypeFullFieldsView::Unnamed(layout.2)),
                ),
                None => None,
            }
        },
    }
}

/// Lays out named fields from byte offset `cursor`, with `align` the
/// largest alignment seen so far; yields the struct alignment, the
/// total size, and the padding-annotated fields.
pub open spec fn spec_bytemuck_named(
    fs: Seq<(Seq<char>, ToolboxIdlTypeFullView)>,
    cursor: nat,
    align: nat,
) -> Option<(nat, nat, Seq<(Seq<char>, ToolboxIdlTypeFullView)>)>
    decreases fs, 1int, 0int,
{
    if align == 0 {
        None
    } else if fs.len() == 0 {
        Some((align, cursor, Seq::empty()))
    } else {
        proof {
            assert(decreases_to!(fs => fs[0]));
            assert(decreases_to!(fs[0] => fs[0].1));
        }
        match spec_bytemuck(fs[0].1) {
            None => None,
            Some(field_layout) => {
                if field_layout.0 == 0 {
                    None
                } else {
                    let offset = spec_align_up(cursor, field_layout.0);
                    let before = (offset - cursor) as nat;
                    if offset + field_layout.1 > usize::MAX {
                        None
                    } else {
                        let next_align = if field_layout.0 > align {
                            field_layout.0
                        } else {
                            align
                        };
                        match spec_bytemuck_named(
                            fs.skip(1),
                            offset + field_layout.1,
                            next_align,
                        ) {
                            None => None,
                            Some(rest_layout) => Some(
                                (
                                    rest_layout.0,
                                    rest_layout.1,
                                    seq![
                                        (
                                            fs[0].0,
                                            ToolboxIdlTypeFullView::Padded {
                                                before: before as usize,
                                                min_size: 0,
                                                after: 0,
                                                content: Box::new(field_layout.2),
                                            },
                                        ),
                                    ] + rest_layout.2,
                                ),
                            ),
                        }
                    }
                }
            },
        }
    }
}

/// Lays out positional fields, as [`spec_bytemuck_named`] does.
pub open spec fn spec_bytemuck_unnamed(
    fs: Seq<ToolboxIdlTypeFullView>,
    cursor: nat,
    align: nat,
) -> Option<(nat, nat, Seq<ToolboxIdlTypeFullView>)>
    decreases fs, 1int, 0int,
{
    if align == 0 {
        None
    } else if fs.len() == 0 {
        Some((align, cursor, Seq::empty()))
    } else {
        proof {
            assert(decreases_to!(fs => fs[0]));
        }
        match spec_bytemuck(fs[0]) {
            None => None,
            Some(field_layout) => {
                if field_layout.0 == 0 {
                    None
                } else {
                    let offset = spec_align_up(cursor, field_layout.0);
                    let before = (offset - cursor) as nat;
                    if offset + field_layout.1 > usize::MAX {
                        None
                    } else {
                        let next_align = if field_layout.0 > align {
                            field_layout.0
                        } else {
                            align
                        };
                        match spec_bytemuck_unnamed(
                            fs.skip(1),
                            offset + field_layout.1,
                            next_align,
                        ) {
                            None => None,
                            Some(rest_layout) => Some(
                                (
                                    rest_layout.0,
                                    rest_layout.1,
                                    seq![
                                        ToolboxIdlTypeFullView::Padded {
                                            before: before as usize,
                                            min_size: 0,
                                            after: 0,
                                            content: Box::new(field_layout.2),
                                        },
                                    ] + rest_layout.2,
                                ),
                            ),
                        }
                    }
                }
            },
        }
    }
}

/// `Some((align, size, prefix + fields))` when `tail` carries the rest
/// of a layout.
pub open spec fn spec_named_layout_cat(
    prefix: Seq<(Seq<char>, ToolboxIdlTypeFullView)>,
    tail: Option<(nat, nat, Seq<(Seq<char>, ToolboxIdlTypeFullView)>)>,
) -> Option<(nat, nat, Seq<(Seq<char>, ToolboxIdlTypeFullView)>)> {
    match tail {
        Some(layout) => Some((layout.0, layout.1, prefix + layout.2)),
        None => None,
    }
}

/// `Some((align, size, prefix + fields))` when `tail` carries the rest
/// of a layout.
pub open spec fn spec_unnamed_layout_cat(
    prefix: Seq<ToolboxIdlTypeFullView>,
    tail: Option<(nat, nat, Seq<ToolboxIdlTypeFullView>)>,
) -> Option<(nat, nat, Seq<ToolboxIdlTypeFullView>)> {
    match tail {
        Some(layout) => Some((layout.0, layout.1, prefix + layout.2)),
        None => None,
    }
}

/// Rounds up in wide arithmetic.
fn align_up_wide(n: u128, a: u128) -> (r: u128)
    requires
        1 <= a <= 16,
        n <= u64::MAX as u128,
    ensures
        r as nat == spec_align_up(n as nat, a as nat),
        r >= n,
        r <= n + a - 1,
{
    let padded_end = n + a - 1;
    let quotient = padded_end / a;
    proof {
        assert(quotient * a <= padded_end && quotient * a >= n) by (nonlinear_arith)
            requires
                1 <= a <= 16,
                quotient == padded_end / a,
                padded_end == n + a - 1,
                n >= 0,
        ;
    }
    let r = quotient * a;
    proof {
        assert(r as nat == spec_align_up(n as nat, a as nat)) by (nonlinear_arith)
            requires
                1 <= a <= 16,
                n <= u64::MAX as u128,
                r as int == (((n + a - 1) as int) / (a as int)) * (a as int),
        ;
    }
    r
}

/// Rounding up never shrinks.
proof fn lemma_align_up_ge(n: nat, a: nat)
    requires
        a >= 1,
    ensures
        spec_align_up(n, a) >= n,
{
    assert((((n + a - 1) as nat) / a) * a >= n) by (nonlinear_arith)
        requires
            a >= 1,
            n >= 0,
    ;
}

impl ToolboxIdlTypeFull {
    /// Rewrites this type into its fixed-memory-layout image, yielding
    /// the alignment, the total in-memory size, and the
    /// padding-annotated type whose encoding occupies exactly that
    /// size. Fails exactly when the type has no fixed memory image.
    pub fn bytemuck(&self) -> (r: Result<(usize, usize, ToolboxIdlTypeFull), ToolboxIdlError>)
        ensures
            match r {
                Ok(layout) => spec_bytemuck(self@) == Some(
                    (layout.0 as nat, layout.1 as nat, layout.2@),
                ) && 1 <= layout.0 <= 16,
                Err(_) => spec_bytemuck(self@) is None,
            },
        decreases *self, 0int, 0int,
    {
        match self {
            ToolboxIdlTypeFull::Typedef { content, .. } => {
                proof {
                    assert(decreases_to!(*self => self->Typedef_content));
                }
                match content.bytemuck() {
                    Ok(layout) => {
                        proof {
                            assert(spec_bytemuck(self@) == Some(
                                (layout.0 as nat, layout.1 as nat, layout.2@),
                            ));
                        }
                        Ok(layout)
                    },
                    Err(error) => {
                        proof {
                            assert(spec_bytemuck(self@) is None);
                        }
                        Err(error)
                    },
                }
            },
            ToolboxIdlTypeFull::Array { items, length } => {
                proof {
                    assert(decreases_to!(*self => self->Array_items));
                }
                let (item_align, item_size, item_type) = match items.bytemuck() {
                    Ok(layout) => layout,
                    Err(error) => {
                        return Err(error);
                    },
                };
                let stride = align_up_wide(item_size as u128, item_align as u128);
                if stride > usize::MAX as u128 {
                    return Err(
                        ToolboxIdlError::Codec(String::from_str("memory size out of range")),
                    );
                }
                let total = match (*length as u128).checked_mul(stride) {
                    Some(total) => total,
                    None => {
                        proof {
                            assert((*length as nat) * (stride as nat) > usize::MAX)
                                by (nonlinear_arith)
                                requires
                                    (*length as nat) * (stride as nat) > u128::MAX,
                                    usize::MAX <= u128::MAX,
                            ;
                        }
                        return Err(
                            ToolboxIdlError::Codec(
                                String::from_str("memory size out of range"),
                            ),
                        );
                    },
                };
                proof {
                    assert((*length as u128) * stride == (*length as nat) * (stride as nat));
                }
                if total > usize::MAX as u128 {
                    return Err(
                        ToolboxIdlError::Codec(String::from_str("memory size out of range")),
                    );
                }
                let padded_item = ToolboxIdlTypeFull::Padded {
                    before: 0,
                    min_size: stride as usize,
                    after: 0,
                    content: Box::new(item_type),
                };
                proof {
                    assert(padded_item@ == (ToolboxIdlTypeFullView::Padded {
                        before: 0,
                        min_size: stride as usize,
                        after: 0,
                        content: Box::new(item_type@),
                    }));
                }
                let built = ToolboxIdlTypeFull::Array {
                    items: Box::new(padded_item),
                    length: *length,
                };
                proof {
                    assert(spec_bytemuck(self@) == Some(
                        (item_align as nat, (total as usize) as nat, built@),
                    ));
                }
                Ok((item_align, total as usize, built))
            },
            ToolboxIdlTypeFull::Struct { fields } => {
                proof {
                    assert(decreases_to!(*self => self->Struct_fields));
                }
                let (align, end, laid_fields) = match fields.bytemuck() {
                    Ok(layout) => layout,
                    Err(error) => {
                        return Err(error);
                    },
                };
                let total = align_up_wide(end as u128, align as u128);
                if total > usize::MAX as u128 {
                    return Err(
                        ToolboxIdlError::Codec(String::from_str("memory size out of range")),
                    );
                }
                let inner_struct = ToolboxIdlTypeFull::Struct { fields: laid_fields };
                proof {
                    assert(inner_struct@ == (ToolboxIdlTypeFullView::Struct {
                        fields: inner_struct->Struct_fields@,
                    }));
                }
                let built = ToolboxIdlTypeFull::Padded {
                    before: 0,
                    min_size: total as usize,
                    after: 0,
                    content: Box::new(inner_struct),
                };
                proof {
                    assert(spec_bytemuck(self@) == Some(
                        (align as nat, (total as usize) as nat, built@),
                    ));
                }
                Ok((align, total as usize, built))
            },
            ToolboxIdlTypeFull::Primitive { primitive } => {
                let layout: (usize, usize) = match primitive {
                    ToolboxIdlTypePrimitive::U8 => (1, 1),
                    ToolboxIdlTypePrimitive::U16 => (2, 2),
                    ToolboxIdlTypePrimitive::U32 => (4, 4),
                    ToolboxIdlTypePrimitive::U64 => (8, 8),
                    ToolboxIdlTypePrimitive::U128 => (16, 16),
                    ToolboxIdlTypePrimitive::I8 => (1, 1),
                    ToolboxIdlTypePrimitive::I16 => (2, 2),
                    ToolboxIdlTypePrimitive::I32 => (4, 4),
                    ToolboxIdlTypePrimitive::I64 => (8, 8),
                    ToolboxIdlTypePrimitive::I128 => (16, 16),
                    ToolboxIdlTypePrimitive::F32 => (4, 4),
                    ToolboxIdlTypePrimitive::F64 => (8, 8),
                    ToolboxIdlTypePrimitive::Bool => (1, 1),
                    ToolboxIdlTypePrimitive::Pubkey => (1, 32),
                };
                let copy = self.clone();
                proof {
                    assert(copy@ == self@);
                    assert(spec_primitive_layout(*primitive) == (
                        layout.0 as nat,
                        layout.1 as nat,
                    ));
                    assert(spec_bytemuck(self@) == Some(
                        (layout.0 as nat, layout.1 as nat, self@),
                    ));
                }
                Ok((layout.0, layout.1, copy))
            },
            _ => {
                proof {
                    assert(spec_bytemuck(self@) is None);
                }
                Err(
                    ToolboxIdlError::TypeMismatch(
                        String::from_str("type has no fixed memory layout"),
                    ),
                )
            },
        }
    }
}

impl ToolboxIdlTypeFullFields {
    /// Lays out a field list in memory order.
    pub fn bytemuck(&self) -> (r: Result<
        (usize, usize, ToolboxIdlTypeFullFields),
        ToolboxIdlError,
    >)
        ensures
            match r {
                Ok(layout) => spec_bytemuck_fields(self@) == Some(
                    (layout.0 as nat, layout.1 as nat, layout.2@),
                ) && 1 <= layout.0 <= 16,
                Err(_) => spec_bytemuck_fields(self@) is None,
            },
        decreases *self, 1int, 0int,
    {
        match self {
            ToolboxIdlTypeFullFields::Nothing => Ok((1, 0, ToolboxIdlTypeFullFields::Nothing)),
            ToolboxIdlTypeFullFields::Named(fields) => {
                let ghost fields_view = self@->Named_0;
                proof {
                    lemma_type_full_fields_named_view(fields@);
                    assert(fields_view.skip(0int) =~= fields_view);
                }
                let mut laid: Vec<ToolboxIdlTypeFullFieldNamed> = Vec::new();
                let mut cursor: u128 = 0;
                let mut align: u128 = 1;
                let mut i: usize = 0;
                while i < fields.len()
                    invariant
                        0 <= i <= fields@.len(),
                        self is Named,
                        fields == self->Named_0,
                        fields_view == self@->Named_0,
                        fields_view.len() == fields@.len(),
                        forall|j: int|
                            0 <= j < fields@.len() ==> #[trigger] fields_view[j]
                                == (fields@[j].name@, fields@[j].content@),
                        1 <= align <= 16,
                        cursor <= usize::MAX as u128,
                        spec_bytemuck_named(fields_view, 0, 1) == spec_named_layout_cat(
                            crate::type_full::spec_type_full_fields_named_view(laid@),
                            spec_bytemuck_named(
                                fields_view.skip(i as int),
                                cursor as nat,
                                align as nat,
                            ),
                        ),
                    decreases fields@.len() - i,
                {
                    proof {
                        assert(fields_view.skip(i as int)[0] == fields_view[i as int]);
                        assert(fields_view.skip(i as int).skip(1) =~= fields_view.skip(i + 1));
                        assert(decreases_to!(*self => self->Named_0));
                        assert(decreases_to!(self->Named_0 => self->Named_0@));
                        assert(decreases_to!(self->Named_0@ => self->Named_0@[i as int]));
                        assert(decreases_to!(self->Named_0@[i as int] => self->Named_0@[
                            i as int
                        ].content));
                    }
                    let field = &fields[i];
                    let (field_align, field_size, field_type) = match field.content.bytemuck() {
                        Ok(layout) => layout,
                        Err(error) => {
                            return Err(error);
                        },
                    };
                    let offset = align_up_wide(cursor, field_align as u128);
                    let before = offset - cursor;
                    if offset + (field_size as u128) > usize::MAX as u128 {
                        return Err(
                            ToolboxIdlError::Codec(
                                String::from_str("memory size out of range"),
                            ),
                        );
                    }
                    let ghost prior = laid@;
                    laid.push(
                        ToolboxIdlTypeFullFieldNamed {
                            name: field.name.clone(),
                            content: ToolboxIdlTypeFull::Padded {
                                before: before as usize,
                                min_size: 0,
                                after: 0,
                                content: Box::new(field_type),
                            },
                        },
                    );
                    proof {
                        assert(laid@.subrange(0, laid@.len() - 1) =~= prior);
                        let named_view = crate::type_full::spec_type_full_fields_named_view(
                            laid@,
                        );
                        let prior_view = crate::type_full::spec_type_full_fields_named_view(
                            prior,
                        );
                        assert(named_view =~= prior_view.push(
                            (laid@.last().name@, laid@.last().content@),
                        ));
                        if spec_bytemuck_named(
                            fields_view.skip(i + 1),
                            (offset + field_size) as nat,
                            (if (field_align as u128) > align {
                                field_align as u128
                            } else {
                                align
                            }) as nat,
                        ) is Some {
                            let rest = spec_bytemuck_named(
                                fields_view.skip(i + 1),
                                (offset + field_size) as nat,
                                (if (field_align as u128) > align {
                                    field_align as u128
                                } else {
                                    align
                                }) as nat,
                            ).unwrap();
                            assert(prior_view + (seq![
                                (laid@.last().name@, laid@.last().content@),
                            ] + rest.2) =~= (prior_view.push(
                                (laid@.last().name@, laid@.last().content@),
                            )) + rest.2);
                        }
                    }
                    cursor = offset + (field_size as u128);
                    if (field_align as u128) > align {
                        align = field_align as u128;
                    }
                    i += 1;
                }
                proof {
                    assert(fields_view.skip(fields_view.len() as int)
                        =~= Seq::<(Seq<char>, ToolboxIdlTypeFullView)>::empty());
                    assert(crate::type_full::spec_type_full_fields_named_view(laid@) + Seq::<
                        (Seq<char>, ToolboxIdlTypeFullView),
                    >::empty() =~= crate::type_full::spec_type_full_fields_named_view(laid@));
                }
                Ok((align as usize, cursor as usize, ToolboxIdlTypeFullFields::Named(laid)))
            },
            ToolboxIdlTypeFullFields::Unnamed(fields) => {
                let ghost fields_view = self@->Unnamed_0;
                proof {
                    lemma_type_full_fields_unnamed_view(fields@);
                    assert(fields_view.skip(0int) =~= fields_view);
                }
                let mut laid: Vec<ToolboxIdlTypeFullFieldUnnamed> = Vec::new();
                let mut cursor: u128 = 0;
                let mut align: u128 = 1;
                let mut i: usize = 0;
                while i < fields.len()
                    invariant
                        0 <= i <= fields@.len(),
                        self is Unnamed,
                        fields == self->Unnamed_0,
                        fields_view == self@->Unnamed_0,
                        fields_view.len() == fields@.len(),
                        forall|j: int|
                            0 <= j < fields@.len() ==> #[trigger] fields_view[j]
                                == fields@[j].content@,
                        1 <= align <= 16,
                        cursor <= usize::MAX as u128,
                        spec_bytemuck_unnamed(fields_view, 0, 1) == spec_unnamed_layout_cat(
                            crate::type_full::spec_type_full_fields_unnamed_view(laid@),
                            spec_bytemuck_unnamed(
                                fields_view.skip(i as int),
                                cursor as nat,
                                align as nat,
                            ),
                        ),
                    decreases fields@.len() - i,
                {
                    proof {
                        assert(fields_view.skip(i as int)[0] == fields_view[i as int]);
                        assert(fields_view.skip(i as int).skip(1) =~= fields_view.skip(i + 1));
                        assert(decreases_to!(*self => self->Unnamed_0));
                        assert(decreases_to!(self->Unnamed_0 => self->Unnamed_0@));
                        assert(decreases_to!(self->Unnamed_0@ => self->Unnamed_0@[i as int]));
                        assert(decreases_to!(self->Unnamed_0@[i as int] => self->Unnamed_0@[
                            i as int
                        ].content));
                    }
                    let field = &fields[i];
                    let (field_align, field_size, field_type) = match field.content.bytemuck() {
                        Ok(layout) => layout,
                        Err(error) => {
                            return Err(error);
                        },
                    };
                    let offset = align_up_wide(cursor, field_align as u128);
                    if offset + (field_size as u128) > usize::MAX as u128 {
                        return Err(
                            ToolboxIdlError::Codec(
                                String::from_str("memory size out of range"),
                            ),
                        );
                    }
                    let before = offset - cursor;
                    let ghost prior = laid@;
                    laid.push(
                        ToolboxIdlTypeFullFieldUnnamed {
                            position: i,
                            content: ToolboxIdlTypeFull::Padded {
                                before: before as usize,
                                min_size: 0,
                                after: 0,
                                content: Box::new(field_type),
                            },
                        },
                    );
                    proof {
                        assert(laid@.subrange(0, laid@.len() - 1) =~= prior);
                        let unnamed_view = crate::type_full::spec_type_full_fields_unnamed_view(
                            laid@,
                        );
                        let prior_view = crate::type_full::spec_type_full_fields_unnamed_view(
                            prior,
                        );
                        assert(unnamed_view =~= prior_view.push(laid@.last().content@));
                        if spec_bytemuck_unnamed(
                            fields_view.skip(i + 1),
                            (offset + field_size) as nat,
                            (if (field_align as u128) > align {
                                field_align as u128
                            } else {
                                align
                            }) as nat,
                        ) is Some {
                            let rest = spec_bytemuck_unnamed(
                                fields_view.skip(i + 1),
                                (offset + field_size) as nat,
                                (if (field_align as u128) > align {
                                    field_align as u128
                                } else {
                                    align
                                }) as nat,
                            ).unwrap();
                            assert(prior_view + (seq![laid@.last().content@] + rest.2)
                                =~= (prior_view.push(laid@.last().content@)) + rest.2);
                        }
                    }
                    cursor = offset + (field_size as u128);
                    if (field_align as u128) > align {
                        align = field_align as u128;
                    }
                    i += 1;
                }
                proof {
                    assert(fields_view.skip(fields_view.len() as int)
                        =~= Seq::<ToolboxIdlTypeFullView>::empty());
                    assert(crate::type_full::spec_type_full_fields_unnamed_view(laid@) + Seq::<
                        ToolboxIdlTypeFullView,
                    >::empty() =~= crate::type_full::spec_type_full_fields_unnamed_view(laid@));
                }
                Ok((align as usize, cursor as usize, ToolboxIdlTypeFullFields::Unnamed(laid)))
            },
        }
    }
}

/// A fixed layout's alignment is positive.
proof fn lemma_bytemuck_align_pos(t: ToolboxIdlTypeFullView)
    requires
        spec_bytemuck(t) is Some,
    ensures
        spec_bytemuck(t).unwrap().0 >= 1,
    decreases t, 0int, 0int,
{
    match t {
        ToolboxIdlTypeFullView::Typedef { content, .. } => {
            assert(decreases_to!(t => t->Typedef_content));
            lemma_bytemuck_align_pos(*content);
        },
        ToolboxIdlTypeFullView::Array { items, length } => {
            assert(decreases_to!(t => t->Array_items));
            lemma_bytemuck_align_pos(*items);
        },
        ToolboxIdlTypeFullView::Struct { fields } => {
            assert(decreases_to!(t => t->Struct_fields));
            assert(spec_bytemuck_fields(fields) is Some);
            match fields {
                ToolboxIdlTypeFullFieldsView::Nothing => {},
                ToolboxIdlTypeFullFieldsView::Named(fs) => {
                    assert(decreases_to!(fields => fields->Named_0));
                    assert(spec_bytemuck_named(fs, 0, 1) is Some);
                    lemma_bytemuck_named_align_pos(fs, 0, 1);
                    assert(spec_bytemuck_fields(fields).unwrap().0 >= 1);
                },
                ToolboxIdlTypeFullFieldsView::Unnamed(fs) => {
                    assert(decreases_to!(fields => fields->Unnamed_0));
                    assert(spec_bytemuck_unnamed(fs, 0, 1) is Some);
                    lemma_bytemuck_unnamed_align_pos(fs, 0, 1);
                    assert(spec_bytemuck_fields(fields).unwrap().0 >= 1);
                },
            }
        },
        _ => {},
    }
}

/// A named layout's alignment never drops below the running maximum.
proof fn lemma_bytemuck_named_align_pos(
    fs: Seq<(Seq<char>, ToolboxIdlTypeFullView)>,
    cursor: nat,
    align: nat,
)
    requires
        align >= 1,
        spec_bytemuck_named(fs, cursor, align) is Some,
    ensures
        spec_bytemuck_named(fs, cursor, align).unwrap().0 >= align,
    decreases fs, 1int, 0int,
{
    if fs.len() > 0 {
        assert(decreases_to!(fs => fs[0]));
        let field_layout = spec_bytemuck(fs[0].1).unwrap();
        let offset = spec_align_up(cursor, field_layout.0);
        let next_align = if field_layout.0 > align {
            field_layout.0
        } else {
            align
        };
        lemma_bytemuck_named_align_pos(fs.skip(1), offset + field_layout.1, next_align);
    }
}

/// A positional layout's alignment never drops below the running
/// maximum.
proof fn lemma_bytemuck_unnamed_align_pos(
    fs: Seq<ToolboxIdlTypeFullView>,
    cursor: nat,
    align: nat,
)
    requires
        align >= 1,
        spec_bytemuck_unnamed(fs, cursor, align) is Some,
    ensures
        spec_bytemuck_unnamed(fs, cursor, align).unwrap().0 >= align,
    decreases fs, 1int, 0int,
{
    if fs.len() > 0 {
        assert(decreases_to!(fs => fs[0]));
        let field_layout = spec_bytemuck(fs[0]).unwrap();
        let offset = spec_align_up(cursor, field_layout.0);
        let next_align = if field_layout.0 > align {
            field_layout.0
        } else {
            align
        };
        lemma_bytemuck_unnamed_align_pos(fs.skip(1), offset + field_layout.1, next_align);
    }
}

/// If every value of `titem` encodes to exactly `stride` bytes, a
/// sequence of items encodes to `count * stride` bytes.
proof fn lemma_items_fixed_size(
    titem: ToolboxIdlTypeFullView,
    vs: Seq<ToolboxIdlValueView>,
    stride: nat,
)
    requires
        forall|v2: ToolboxIdlValueView|
            spec_serialize(titem, v2, true) is Some ==> (#[trigger] spec_serialize(
                titem,
                v2,
                true,
            )).unwrap().len() == stride,
        spec_serialize_items(titem, vs, true) is Some,
    ensures
        spec_serialize_items(titem, vs, true).unwrap().len() == vs.len() * stride,
    decreases vs.len(),
{
    if vs.len() == 0 {
        assert(Seq::<u8>::empty().len() == 0);
    } else {
        lemma_items_fixed_size(titem, vs.skip(1), stride);
        assert(spec_serialize(titem, vs[0], true).unwrap().len() == stride);
        assert((vs.len() - 1) * stride + stride == vs.len() * stride) by (nonlinear_arith);
    }
}

/// The fixed-layout size law: a value encoded under a fixed-layout
/// image occupies exactly the image's declared in-memory size,
/// whatever the value.
#[verifier::rlimit(100)]
pub proof fn lemma_bytemuck_size(t: ToolboxIdlTypeFullView, v: ToolboxIdlValueView)
    requires
        spec_bytemuck(t) is Some,
        spec_serialize(spec_bytemuck(t).unwrap().2, v, true) is Some,
    ensures
        spec_serialize(spec_bytemuck(t).unwrap().2, v, true).unwrap().len() == spec_bytemuck(
            t,
        ).unwrap().1,
    decreases t, 0int, 0int,
{
    let layout = spec_bytemuck(t).unwrap();
    let b = spec_serialize(layout.2, v, true).unwrap();
    match t {
        ToolboxIdlTypeFullView::Typedef { content, .. } => {
            assert(decreases_to!(t => t->Typedef_content));
            lemma_bytemuck_size(*content, v);
        },
        ToolboxIdlTypeFullView::Array { items, length } => {
            assert(decreases_to!(t => t->Array_items));
            let item_layout = spec_bytemuck(*items).unwrap();
            let stride = spec_align_up(item_layout.1, item_layout.0);
            let padded_item = ToolboxIdlTypeFullView::Padded {
                before: 0,
                min_size: stride as usize,
                after: 0,
                content: Box::new(item_layout.2),
            };
            assert forall|v2: ToolboxIdlValueView|
                spec_serialize(padded_item, v2, true) is Some implies (
            #[trigger] spec_serialize(padded_item, v2, true)).unwrap().len() == stride by {
                let cb = spec_serialize(item_layout.2, v2, true).unwrap();
                lemma_bytemuck_size(*items, v2);
                lemma_bytemuck_align_pos(*items);
                lemma_align_up_ge(item_layout.1, item_layout.0);
                let padded = spec_zeros(0) + cb + spec_zeros(0);
                assert(padded =~= cb);
            };
            let vs = v->Array_0;
            assert(vs.len() == length);
            lemma_items_fixed_size(padded_item, vs, stride);
        },
        ToolboxIdlTypeFullView::Struct { fields } => {
            assert(decreases_to!(t => t->Struct_fields));
            let fields_layout = spec_bytemuck_fields(fields).unwrap();
            let total = spec_align_up(fields_layout.1, fields_layout.0);
            let inner = ToolboxIdlTypeFullView::Struct { fields: fields_layout.2 };
            let cb = spec_serialize(inner, v, true).unwrap();
            assert(spec_serialize(inner, v, true) == spec_serialize_fields(
                fields_layout.2,
                v,
                true,
            ));
            match fields {
                ToolboxIdlTypeFullFieldsView::Nothing => {
                    assert(fields_layout.2 is Nothing);
                    assert(cb =~= Seq::<u8>::empty());
                    assert(spec_align_up(0, 1) == 0) by (nonlinear_arith);
                },
                ToolboxIdlTypeFullFieldsView::Named(fs) => {
                    assert(decreases_to!(fields => fields->Named_0));
                    let entries = v->Object_0;
                    assert(spec_serialize_fields_named(
                        spec_bytemuck_named(fs, 0, 1).unwrap().2,
                        entries,
                        true,
                    ) is Some);
                    lemma_bytemuck_named_size(fs, 0, 1, entries);
                    lemma_bytemuck_named_align_pos(fs, 0, 1);
                    lemma_align_up_ge(fields_layout.1, fields_layout.0);
                    assert(cb.len() == fields_layout.1);
                },
                ToolboxIdlTypeFullFieldsView::Unnamed(fs) => {
                    assert(decreases_to!(fields => fields->Unnamed_0));
                    let vs = v->Array_0;
                    assert(spec_serialize_fields_unnamed(
                        spec_bytemuck_unnamed(fs, 0, 1).unwrap().2,
                        vs,
                        true,
                    ) is Some);
                    lemma_bytemuck_unnamed_size(fs, 0, 1, vs);
                    lemma_bytemuck_unnamed_align_pos(fs, 0, 1);
                    lemma_align_up_ge(fields_layout.1, fields_layout.0);
                    assert(cb.len() == fields_layout.1);
                },
            }
            let padded = spec_zeros(0) + cb + spec_zeros(0);
            assert(padded =~= cb);
            assert(cb.len() <= total);
        },
        ToolboxIdlTypeFullView::Primitive { primitive } => {
            match primitive.spec_int_size() {
                Some(width) => {
                    let n = crate::serialize::spec_value_as_int(v).unwrap();
                    if primitive.spec_is_signed() {
                        crate::little_endian::lemma_le_bytes_len(
                            crate::little_endian::spec_to_unsigned(n, width),
                            width,
                        );
                    } else {
                        crate::little_endian::lemma_le_bytes_len(n as nat, width);
                    }
                },
                None => {},
            }
        },
        _ => {},
    }
}

/// The size law for named fields: the encoded fields extend the cursor
/// exactly to the layout's end offset.
proof fn lemma_bytemuck_named_size(
    fs: Seq<(Seq<char>, ToolboxIdlTypeFullView)>,
    cursor: nat,
    align: nat,
    entries: Seq<(Seq<char>, ToolboxIdlValueView)>,
)
    requires
        align >= 1,
        spec_bytemuck_named(fs, cursor, align) is Some,
        spec_serialize_fields_named(
            spec_bytemuck_named(fs, cursor, align).unwrap().2,
            entries,
            true,
        ) is Some,
    ensures
        cursor + spec_serialize_fields_named(
            spec_bytemuck_named(fs, cursor, align).unwrap().2,
            entries,
            true,
        ).unwrap().len() == spec_bytemuck_named(fs, cursor, align).unwrap().1,
    decreases fs, 1int, 0int,
{
    let layout = spec_bytemuck_named(fs, cursor, align).unwrap();
    if fs.len() == 0 {
    } else {
        assert(decreases_to!(fs => fs[0]));
        assert(decreases_to!(fs[0] => fs[0].1));
        let field_layout = spec_bytemuck(fs[0].1).unwrap();
        lemma_bytemuck_align_pos(fs[0].1);
        let offset = spec_align_up(cursor, field_layout.0);
        let before = (offset - cursor) as nat;
        lemma_align_up_ge(cursor, field_layout.0);
        let next_align = if field_layout.0 > align {
            field_layout.0
        } else {
            align
        };
        let rest_layout = spec_bytemuck_named(
            fs.skip(1),
            offset + field_layout.1,
            next_align,
        ).unwrap();
        let wrapped = ToolboxIdlTypeFullView::Padded {
            before: before as usize,
            min_size: 0,
            after: 0,
            content: Box::new(field_layout.2),
        };
        assert(layout.2 =~= seq![(fs[0].0, wrapped)] + rest_layout.2);
        assert(layout.2[0] == (fs[0].0, wrapped));
        assert(layout.2.skip(1) =~= rest_layout.2);
        let fv = crate::value::spec_object_get(entries, fs[0].0).unwrap();
        let b0 = spec_serialize(wrapped, fv, true).unwrap();
        let cb0 = spec_serialize(field_layout.2, fv, true).unwrap();
        lemma_bytemuck_size(fs[0].1, fv);
        let padded = spec_zeros(before) + cb0 + spec_zeros(0);
        assert(padded.len() == before + cb0.len());
        assert(b0 == padded);
        lemma_bytemuck_named_size(fs.skip(1), offset + field_layout.1, next_align, entries);
    }
}

/// The size law for positional fields.
proof fn lemma_bytemuck_unnamed_size(
    fs: Seq<ToolboxIdlTypeFullView>,
    cursor: nat,
    align: nat,
    vs: Seq<ToolboxIdlValueView>,
)
    requires
        align >= 1,
        spec_bytemuck_unnamed(fs, cursor, align) is Some,
        spec_serialize_fields_unnamed(
            spec_bytemuck_unnamed(fs, cursor, align).unwrap().2,
            vs,
            true,
        ) is Some,
    ensures
        cursor + spec_serialize_fields_unnamed(
            spec_bytemuck_unnamed(fs, cursor, align).unwrap().2,
            vs,
            true,
        ).unwrap().len() == spec_bytemuck_unnamed(fs, cursor, align).unwrap().1,
    decreases fs, 1int, 0int,
{
    let layout = spec_bytemuck_unnamed(fs, cursor, align).unwrap();
    if fs.len() == 0 {
    } else {
        assert(decreases_to!(fs => fs[0]));
        let field_layout = spec_bytemuck(fs[0]).unwrap();
        lemma_bytemuck_align_pos(fs[0]);
        let offset = spec_align_up(cursor, field_layout.0);
        let before = (offset - cursor) as nat;
        lemma_align_up_ge(cursor, field_layout.0);
        let next_align = if field_layout.0 > align {
            field_layout.0
        } else {
            align
        };
        let rest_layout = spec_bytemuck_unnamed(
            fs.skip(1),
            offset + field_layout.1,
            next_align,
        ).unwrap();
        let wrapped = ToolboxIdlTypeFullView::Padded {
            before: before as usize,
            min_size: 0,
            after: 0,
            content: Box::new(field_layout.2),
        };
        assert(layout.2 =~= seq![wrapped] + rest_layout.2);
        assert(layout.2[0] == wrapped);
        assert(layout.2.skip(1) =~= rest_layout.2);
        let b0 = spec_serialize(wrapped, vs[0], true).unwrap();
        let cb0 = spec_serialize(field_layout.2, vs[0], true).unwrap();
        lemma_bytemuck_size(fs[0], vs[0]);
        let padded = spec_zeros(before) + cb0 + spec_zeros(0);
        assert(padded.len() == before + cb0.len());
        assert(b0 == padded);
        lemma_bytemuck_unnamed_size(fs.skip(1), offset + field_layout.1, next_align, vs.skip(1));
    }
}

} // verus!
