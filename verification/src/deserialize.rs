//! Decoding on-chain bytes against a resolved type back into a
//! canonical dynamic value, together with the number of bytes
//! consumed. Decoding always reads length prefixes; the canonical
//! value uses native numbers for widths up to 32 bits and decimal
//! strings for 64- and 128-bit widths.

use vstd::prelude::*;

use crate::decimal::spec_dec_signed;
use crate::decimal::u128_to_dec;
use crate::error::ToolboxIdlError;
use crate::little_endian::pow256;
use crate::little_endian::read_le_bytes;
use crate::little_endian::spec_le_val;
use crate::little_endian::spec_to_signed;
use crate::little_endian::spec_wire_width;
use crate::little_endian::wire_half;
use crate::little_endian::wire_max;
use crate::little_endian::lemma_pow256_values;
use crate::outside::base58_encode;
use crate::outside::base58_of;
use crate::outside::string_from_utf8;
use crate::serialize::spec_fields_is_empty;
use crate::type_full::spec_type_full_variants_view;
use crate::type_full::lemma_type_full_fields_named_view;
use crate::type_full::lemma_type_full_fields_unnamed_view;
use crate::type_full::lemma_type_full_variants_view;
use crate::type_full::ToolboxIdlTypeFull;
use crate::type_full::ToolboxIdlTypeFullEnumVariant;
use crate::type_full::ToolboxIdlTypeFullEnumVariantView;
use crate::type_full::ToolboxIdlTypeFullFields;
use crate::type_full::ToolboxIdlTypeFullFieldsView;
use crate::type_full::ToolboxIdlTypeFullView;
use crate::type_prefix::ToolboxIdlTypePrefix;
use crate::type_primitive::ToolboxIdlTypePrimitive;
use crate::value::lemma_value_entries_view;
use crate::value::lemma_value_seq_view;
use crate::value::spec_value_entries_view;
use crate::value::spec_value_seq_view;
use crate::value::ToolboxIdlValue;
use crate::value::ToolboxIdlValueView;
use vstd::utf8::decode_utf8;
use vstd::utf8::valid_utf8;

verus! {

/// The first variant whose code is `code`, whole.
pub open spec fn spec_variant_with_code(
    vs: Seq<ToolboxIdlTypeFullEnumVariantView>,
    code: int,
) -> Option<ToolboxIdlTypeFullEnumVariantView>
    decreases vs.len(),
{
    if vs.len() == 0 {
        None
    } else if vs[0].code as int == code {
        Some(vs[0])
    } else {
        spec_variant_with_code(vs.skip(1), code)
    }
}

/// A found variant is an element of the variant list.
pub proof fn lemma_variant_with_code_is_element(
    vs: Seq<ToolboxIdlTypeFullEnumVariantView>,
    code: int,
)
    requires
        spec_variant_with_code(vs, code) is Some,
    ensures
        exists|i: int|
            0 <= i < vs.len() && vs[i] == spec_variant_with_code(vs, code).unwrap(),
    decreases vs.len(),
{
    if vs.len() > 0 && vs[0].code as int != code {
        lemma_variant_with_code_is_element(vs.skip(1), code);
        let i = choose|i: int|
            0 <= i < vs.skip(1).len() && vs.skip(1)[i] == spec_variant_with_code(
                vs.skip(1),
                code,
            ).unwrap();
        assert(vs[i + 1] == spec_variant_with_code(vs, code).unwrap());
    }
}

/// The canonical value of a decoded integer: a native number for
/// widths up to four bytes, a decimal string beyond.
pub open spec fn spec_int_value(n: int, width: nat) -> ToolboxIdlValueView {
    if width <= 4 {
        ToolboxIdlValueView::Number(n)
    } else {
        ToolboxIdlValueView::String(spec_dec_signed(n))
    }
}

/// The decoding of the front of `bytes` under the type `t`: the
/// canonical value and the count of bytes consumed. `None` is failure:
/// insufficient bytes, an unknown discriminant, a presence flag other
/// than zero or one, invalid UTF-8, a count beyond the platform's
/// reach, or a floating-point leaf.
pub open spec fn spec_deserialize(t: ToolboxIdlTypeFullView, bytes: Seq<u8>) -> Option<
    (ToolboxIdlValueView, nat),
>
    decreases t, 0int, 0int,
{
    match t {
        ToolboxIdlTypeFullView::Typedef { content, .. } => {
            proof {
                assert(decreases_to!(t => t->Typedef_content));
            }
            spec_deserialize(*content, bytes)
        },
        ToolboxIdlTypeFullView::Option { prefix, content } => {
            proof {
                assert(decreases_to!(t => t->Option_content));
            }
            let size = prefix.spec_size();
            if bytes.len() < size {
                None
            } else {
                let flag = spec_le_val(bytes.take(size as int));
                if flag == 0 {
                    Some((ToolboxIdlValueView::Null, size))
                } else if flag == 1 {
                    match spec_deserialize(*content, bytes.skip(size as int)) {
                        Some((v, n)) => Some((v, (size + n) as nat)),
                        None => None,
                    }
                } else {
                    None
                }
            }
        },
        ToolboxIdlTypeFullView::Vec { prefix, items } => {
            proof {
                assert(decreases_to!(t => t->Vec_items));
            }
            let size = prefix.spec_size();
            if bytes.len() < size {
                None
            } else {
                let count = spec_le_val(bytes.take(size as int));
                if count > usize::MAX {
                    None
                } else {
                    match spec_deserialize_items(*items, bytes.skip(size as int), count) {
                        Some((vs, n)) => Some(
                            (ToolboxIdlValueView::Array(vs), (size + n) as nat),
                        ),
                        None => None,
                    }
                }
            }
        },
        ToolboxIdlTypeFullView::Array { items, length } => {
            proof {
                assert(decreases_to!(t => t->Array_items));
            }
            match spec_deserialize_items(*items, bytes, length as nat) {
                Some((vs, n)) => Some((ToolboxIdlValueView::Array(vs), n)),
                None => None,
            }
        },
        ToolboxIdlTypeFullView::String { prefix } => {
            let size = prefix.spec_size();
            if bytes.len() < size {
                None
            } else {
                let count = spec_le_val(bytes.take(size as int));
                if count > usize::MAX || bytes.len() < size + count {
                    None
                } else {
                    let content_bytes = bytes.subrange(size as int, (size + count) as int);
                    if valid_utf8(content_bytes) {
                        Some(
                            (
                                ToolboxIdlValueView::String(decode_utf8(content_bytes)),
                                (size + count) as nat,
                            ),
                        )
                    } else {
                        None
                    }
                }
            }
        },
        ToolboxIdlTypeFullView::Struct { fields } => {
            proof {
                assert(decreases_to!(t => t->Struct_fields));
            }
            spec_deserialize_fields(fields, bytes)
        },
        ToolboxIdlTypeFullView::Enum { prefix, variants } => {
            proof {
                assert(decreases_to!(t => t->Enum_variants));
            }
            let size = prefix.spec_size();
            if bytes.len() < size {
                None
            } else {
                let code = spec_le_val(bytes.take(size as int));
                proof {
                    if spec_variant_with_code(variants, code as int) is Some {
                        lemma_variant_with_code_is_element(variants, code as int);
                        let i = choose|i: int|
                            0 <= i < variants.len() && variants[i] == spec_variant_with_code(
                                variants,
                                code as int,
                            ).unwrap();
                        assert(decreases_to!(t->Enum_variants => t->Enum_variants[i]));
                        assert(decreases_to!(t->Enum_variants[i] => t->Enum_variants[i].fields));
                    }
                }
                match spec_variant_with_code(variants, code as int) {
                    None => None,
                    Some(variant) => {
                        match spec_deserialize_fields(variant.fields, bytes.skip(size as int)) {
                            Some((fv, n)) => {
                                let value = if spec_fields_is_empty(variant.fields) {
                                    ToolboxIdlValueView::String(variant.name)
                                } else {
                                    ToolboxIdlValueView::Object(seq![(variant.name, fv)])
                                };
                                Some((value, (size + n) as nat))
                            },
                            None => None,
                        }
                    },
                }
            }
        },
        ToolboxIdlTypeFullView::Padded { before, min_size, after, content } => {
            proof {
                assert(decreases_to!(t => t->Padded_content));
            }
            if bytes.len() < before {
                None
            } else {
                match spec_deserialize(*content, bytes.skip(before as int)) {
                    Some((v, n)) => {
                        let written = before + n + after;
                        let total: int = if written >= min_size {
                            written
                        } else {
                            min_size as int
                        };
                        if bytes.len() >= total {
                            Some((v, total as nat))
                        } else {
                            None
                        }
                    },
                    None => None,
                }
            }
        },
        ToolboxIdlTypeFullView::Primitive { primitive } => {
            match primitive.spec_int_size() {
                Some(width) => {
                    if bytes.len() < width {
                        None
                    } else {
                        let unsigned_value = spec_le_val(bytes.take(width as int));
                        let n: int = if primitive.spec_is_signed() {
                            spec_to_signed(unsigned_value, width)
                        } else {
                            unsigned_value as int
                        };
                        Some((spec_int_value(n, width), width))
                    }
                },
                None => {
                    match primitive {
                        ToolboxIdlTypePrimitive::Bool => {
                            if bytes.len() < 1 {
                                None
                            } else if bytes[0] == 0 {
                                Some((ToolboxIdlValueView::Bool(false), 1))
                            } else if bytes[0] == 1 {
                                Some((ToolboxIdlValueView::Bool(true), 1))
                            } else {
                                None
                            }
                        },
                        ToolboxIdlTypePrimitive::Pubkey => {
                            if bytes.len() < 32 {
                                None
                            } else {
                                Some(
                                    (
                                        ToolboxIdlValueView::String(
                                            base58_of(bytes.take(32int)),
                                        ),
                                        32,
                                    ),
                                )
                            }
                        },
                        _ => None,
                    }
                },
            }
        },
    }
}

/// The decoding of `count` consecutive items.
pub open spec fn spec_deserialize_items(
    titem: ToolboxIdlTypeFullView,
    bytes: Seq<u8>,
    count: nat,
) -> Option<(Seq<ToolboxIdlValueView>, nat)>
    decreases titem, 1int, count,
{
    if count == 0 {
        Some((Seq::empty(), 0))
    } else {
        match spec_deserialize(titem, bytes) {
            Some((v, n)) => {
                match spec_deserialize_items(titem, bytes.skip(n as int), (count - 1) as nat) {
                    Some((vs, rest)) => Some((seq![v] + vs, (n + rest) as nat)),
                    None => None,
                }
            },
            None => None,
        }
    }
}

/// The decoding of a field list: a keyed object for named fields, an
/// array for positional fields, null for no fields.
pub open spec fn spec_deserialize_fields(
    fields: ToolboxIdlTypeFullFieldsView,
    bytes: Seq<u8>,
) -> Option<(ToolboxIdlValueView, nat)>
    decreases fields, 1int, 0int,
{
    match fields {
        ToolboxIdlTypeFullFieldsView::Nothing => Some((ToolboxIdlValueView::Null, 0)),
        ToolboxIdlTypeFullFieldsView::Named(fs) => {
            proof {
                assert(decreases_to!(fields => fields->Named_0));
            }
            match spec_deserialize_fields_named(fs, bytes) {
                Some((entries, n)) => Some((ToolboxIdlValueView::Object(entries), n)),
                None => None,
            }
        },
        ToolboxIdlTypeFullFieldsView::Unnamed(fs) => {
            proof {
                assert(decreases_to!(fields => fields->Unnamed_0));
            }
            match spec_deserialize_fields_unnamed(fs, bytes) {
                Some((vs, n)) => Some((ToolboxIdlValueView::Array(vs), n)),
                None => None,
            }
        },
    }
}

/// The decoding of named fields, in declaration order.
pub open spec fn spec_deserialize_fields_named(
    fs: Seq<(Seq<char>, ToolboxIdlTypeFullView)>,
    bytes: Seq<u8>,
) -> Option<(Seq<(Seq<char>, ToolboxIdlValueView)>, nat)>
    decreases fs, 1int, 0int,
{
    if fs.len() == 0 {
        Some((Seq::empty(), 0))
    } else {
        proof {
            assert(decreases_to!(fs => fs[0]));
        }
        match spec_deserialize(fs[0].1, bytes) {
            Some((v, n)) => {
                match spec_deserialize_fields_named(fs.skip(1), bytes.skip(n as int)) {
                    Some((entries, rest)) => Some(
                        (seq![(fs[0].0, v)] + entries, (n + rest) as nat),
                    ),
                    None => None,
                }
            },
            None => None,
        }
    }
}

/// The decoding of positional fields, in order.
pub open spec fn spec_deserialize_fields_unnamed(
    fs: Seq<ToolboxIdlTypeFullView>,
    bytes: Seq<u8>,
) -> Option<(Seq<ToolboxIdlValueView>, nat)>
    decreases fs, 1int, 0int,
{
    if fs.len() == 0 {
        Some((Seq::empty(), 0))
    } else {
        proof {
            assert(decreases_to!(fs => fs[0]));
        }
        match spec_deserialize(fs[0], bytes) {
            Some((v, n)) => {
                match spec_deserialize_fields_unnamed(fs.skip(1), bytes.skip(n as int)) {
                    Some((vs, rest)) => Some((seq![v] + vs, (n + rest) as nat)),
                    None => None,
                }
            },
            None => None,
        }
    }
}

/// `Some((prefix + vs, consumed + n))` when `tail` is `Some((vs, n))`.
pub open spec fn spec_items_cat(
    prefix: Seq<ToolboxIdlValueView>,
    consumed: nat,
    tail: Option<(Seq<ToolboxIdlValueView>, nat)>,
) -> Option<(Seq<ToolboxIdlValueView>, nat)> {
    match tail {
        Some(pair) => Some((prefix + pair.0, (consumed + pair.1) as nat)),
        None => None,
    }
}

/// `Some((prefix + es, consumed + n))` when `tail` is `Some((es, n))`.
pub open spec fn spec_entries_cat(
    prefix: Seq<(Seq<char>, ToolboxIdlValueView)>,
    consumed: nat,
    tail: Option<(Seq<(Seq<char>, ToolboxIdlValueView)>, nat)>,
) -> Option<(Seq<(Seq<char>, ToolboxIdlValueView)>, nat)> {
    match tail {
        Some(pair) => Some((prefix + pair.0, (consumed + pair.1) as nat)),
        None => None,
    }
}

/// A copy of `bytes[start..end]`.
fn copy_bytes(bytes: &Vec<u8>, start: usize, end: usize) -> (r: Vec<u8>)
    requires
        start <= end <= bytes@.len(),
    ensures
        r@ == bytes@.subrange(start as int, end as int),
{
    let mut out: Vec<u8> = Vec::new();
    let mut i: usize = start;
    while i < end
        invariant
            start <= i <= end <= bytes@.len(),
            out@ =~= bytes@.subrange(start as int, i as int),
        decreases end - i,
    {
        out.push(bytes[i]);
        proof {
            assert(out@ =~= bytes@.subrange(start as int, i + 1));
        }
        i += 1;
    }
    proof {
        assert(out@ =~= bytes@.subrange(start as int, end as int));
    }
    out
}

impl ToolboxIdlTypeFull {
    /// Decodes the bytes at `offset` under this type, yielding the
    /// canonical value and the count of bytes consumed. Succeeds
    /// exactly when the mathematical decoding does, and then returns
    /// exactly its result.
    pub fn try_deserialize(&self, bytes: &Vec<u8>, offset: usize) -> (r: Result<
        (ToolboxIdlValue, usize),
        ToolboxIdlError,
    >)
        requires
            offset <= bytes@.len(),
        ensures
            match r {
                Ok(pair) => spec_deserialize(self@, bytes@.skip(offset as int)) == Some(
                    (pair.0@, pair.1 as nat),
                ) && offset + pair.1 <= bytes@.len(),
                Err(_) => spec_deserialize(self@, bytes@.skip(offset as int)) is None,
            },
        decreases *self, 0int, 0int,
    {
        match self {
            ToolboxIdlTypeFull::Typedef { content, .. } => {
                proof {
                    assert(decreases_to!(*self => self->Typedef_content));
                }
                content.try_deserialize(bytes, offset)
            },
            ToolboxIdlTypeFull::Option { prefix, content } => {
                proof {
                    assert(decreases_to!(*self => self->Option_content));
                    assert(spec_wire_width(prefix.spec_size()));
                }
                let size = prefix.size();
                if bytes.len() - offset < size {
                    proof {
                        assert(bytes@.skip(offset as int).len() < prefix.spec_size());
                    }
                    return Err(
                        ToolboxIdlError::Codec(String::from_str("missing option flag bytes")),
                    );
                }
                let flag = read_le_bytes(bytes, offset, size);
                proof {
                    assert(bytes@.skip(offset as int).take(size as int) =~= bytes@.subrange(
                        offset as int,
                        offset + size,
                    ));
                }
                if flag == 0 {
                    return Ok((ToolboxIdlValue::Null, size));
                }
                if flag != 1 {
                    return Err(
                        ToolboxIdlError::Codec(String::from_str("invalid option flag")),
                    );
                }
                match content.try_deserialize(bytes, offset + size) {
                    Ok((value, consumed)) => {
                        proof {
                            assert(bytes@.skip(offset as int).skip(size as int) =~= bytes@.skip(
                                offset + size,
                            ));
                        }
                        Ok((value, size + consumed))
                    },
                    Err(error) => {
                        proof {
                            assert(bytes@.skip(offset as int).skip(size as int) =~= bytes@.skip(
                                offset + size,
                            ));
                        }
                        Err(error)
                    },
                }
            },
            ToolboxIdlTypeFull::Vec { prefix, items } => {
                proof {
                    assert(decreases_to!(*self => self->Vec_items));
                    assert(spec_wire_width(prefix.spec_size()));
                }
                let size = prefix.size();
                if bytes.len() - offset < size {
                    proof {
                        assert(bytes@.skip(offset as int).len() < prefix.spec_size());
                    }
                    return Err(
                        ToolboxIdlError::Codec(String::from_str("missing length prefix")),
                    );
                }
                let raw_count = read_le_bytes(bytes, offset, size);
                proof {
                    assert(bytes@.skip(offset as int).take(size as int) =~= bytes@.subrange(
                        offset as int,
                        offset + size,
                    ));
                }
                if raw_count > usize::MAX as u128 {
                    return Err(
                        ToolboxIdlError::Codec(String::from_str("count out of range")),
                    );
                }
                let count = raw_count as usize;
                proof {
                    assert(bytes@.skip(offset as int).skip(size as int) =~= bytes@.skip(
                        offset + size,
                    ));
                }
                match deserialize_items(items, bytes, offset + size, count) {
                    Ok((item_values, consumed)) => Ok(
                        (ToolboxIdlValue::Array(item_values), size + consumed),
                    ),
                    Err(error) => Err(error),
                }
            },
            ToolboxIdlTypeFull::Array { items, length } => {
                proof {
                    assert(decreases_to!(*self => self->Array_items));
                }
                match deserialize_items(items, bytes, offset, *length) {
                    Ok((item_values, consumed)) => Ok(
                        (ToolboxIdlValue::Array(item_values), consumed),
                    ),
                    Err(error) => Err(error),
                }
            },
            ToolboxIdlTypeFull::String { prefix } => {
                deserialize_string(prefix, bytes, offset)
            },
            ToolboxIdlTypeFull::Struct { fields } => {
                proof {
                    assert(decreases_to!(*self => self->Struct_fields));
                }
                fields.try_deserialize(bytes, offset)
            },
            ToolboxIdlTypeFull::Enum { prefix, variants } => {
                proof {
                    assert(decreases_to!(*self => self->Enum_variants));
                    assert(decreases_to!(self->Enum_variants => self->Enum_variants@));
                }
                deserialize_enum(prefix, variants, bytes, offset)
            },
            ToolboxIdlTypeFull::Padded { before, min_size, after, content } => {
                proof {
                    assert(decreases_to!(*self => self->Padded_content));
                }
                if bytes.len() - offset < *before {
                    proof {
                        assert(bytes@.skip(offset as int).len() < *before as nat);
                    }
                    return Err(
                        ToolboxIdlError::Codec(String::from_str("missing padding bytes")),
                    );
                }
                let (value, consumed) = match content.try_deserialize(bytes, offset + *before) {
                    Ok(pair) => pair,
                    Err(error) => {
                        proof {
                            assert(bytes@.skip(offset as int).skip(*before as int)
                                =~= bytes@.skip(offset + *before));
                        }
                        return Err(error);
                    },
                };
                proof {
                    assert(bytes@.skip(offset as int).skip(*before as int) =~= bytes@.skip(
                        offset + *before,
                    ));
                }
                let written: u128 = (*before as u128) + (consumed as u128) + (*after as u128);
                let total: u128 = if written >= (*min_size as u128) {
                    written
                } else {
                    *min_size as u128
                };
                if ((bytes.len() - offset) as u128) < total {
                    return Err(
                        ToolboxIdlError::Codec(String::from_str("missing padding bytes")),
                    );
                }
                Ok((value, total as usize))
            },
            ToolboxIdlTypeFull::Primitive { primitive } => {
                deserialize_primitive(primitive, bytes, offset)
            },
        }
    }
}

/// Decodes a length-prefixed string.
fn deserialize_string(prefix: &ToolboxIdlTypePrefix, bytes: &Vec<u8>, offset: usize) -> (r:
    Result<(ToolboxIdlValue, usize), ToolboxIdlError>)
    requires
        offset <= bytes@.len(),
    ensures
        match r {
            Ok(pair) => spec_deserialize(
                ToolboxIdlTypeFullView::String { prefix: *prefix },
                bytes@.skip(offset as int),
            ) == Some((pair.0@, pair.1 as nat)) && offset + pair.1 <= bytes@.len(),
            Err(_) => spec_deserialize(
                ToolboxIdlTypeFullView::String { prefix: *prefix },
                bytes@.skip(offset as int),
            ) is None,
        },
{
                proof {
                    assert(spec_wire_width(prefix.spec_size()));
                }
                let size = prefix.size();
                if bytes.len() - offset < size {
                    proof {
                        assert(bytes@.skip(offset as int).len() < prefix.spec_size());
                    }
                    return Err(
                        ToolboxIdlError::Codec(String::from_str("missing length prefix")),
                    );
                }
                let raw_count = read_le_bytes(bytes, offset, size);
                proof {
                    assert(bytes@.skip(offset as int).take(size as int) =~= bytes@.subrange(
                        offset as int,
                        offset + size,
                    ));
                }
                if raw_count > usize::MAX as u128 {
                    return Err(
                        ToolboxIdlError::Codec(String::from_str("count out of range")),
                    );
                }
                let count = raw_count as usize;
                if bytes.len() - offset - size < count {
                    proof {
                        assert(bytes@.skip(offset as int).len() < prefix.spec_size()
                            + count as nat);
                    }
                    return Err(
                        ToolboxIdlError::Codec(String::from_str("missing string bytes")),
                    );
                }
                let content_bytes = copy_bytes(bytes, offset + size, offset + size + count);
                proof {
                    assert(bytes@.skip(offset as int).subrange(
                        size as int,
                        size + count,
                    ) =~= bytes@.subrange(offset + size, offset + size + count));
                }
                match string_from_utf8(content_bytes) {
                    Some(text) => Ok((ToolboxIdlValue::String(text), size + count)),
                    None => Err(
                        ToolboxIdlError::Codec(String::from_str("string is not utf-8")),
                    ),
                }
}

/// Decodes an enum's discriminant and the selected variant's fields.
#[verifier::rlimit(100)]
fn deserialize_enum(
    prefix: &ToolboxIdlTypePrefix,
    variants: &Vec<ToolboxIdlTypeFullEnumVariant>,
    bytes: &Vec<u8>,
    offset: usize,
) -> (r: Result<(ToolboxIdlValue, usize), ToolboxIdlError>)
    requires
        offset <= bytes@.len(),
    ensures
        match r {
            Ok(pair) => spec_deserialize(
                ToolboxIdlTypeFullView::Enum {
                    prefix: *prefix,
                    variants: spec_type_full_variants_view(variants@),
                },
                bytes@.skip(offset as int),
            ) == Some((pair.0@, pair.1 as nat)) && offset + pair.1 <= bytes@.len(),
            Err(_) => spec_deserialize(
                ToolboxIdlTypeFullView::Enum {
                    prefix: *prefix,
                    variants: spec_type_full_variants_view(variants@),
                },
                bytes@.skip(offset as int),
            ) is None,
        },
    decreases variants@, 0int, 0int,
{
    proof {
        assert(spec_wire_width(prefix.spec_size()));
    }
    let size = prefix.size();
    if bytes.len() - offset < size {
        proof {
            assert(bytes@.skip(offset as int).len() < prefix.spec_size());
        }
        return Err(ToolboxIdlError::Codec(String::from_str("missing enum discriminant")));
    }
    let code = read_le_bytes(bytes, offset, size);
    let total_len = bytes.len();
    let ghost variants_view = spec_type_full_variants_view(variants@);
    proof {
        assert(bytes@.skip(offset as int).take(size as int) =~= bytes@.subrange(
            offset as int,
            offset + size,
        ));
        lemma_type_full_variants_view(variants@);
        assert(variants_view.skip(0int) =~= variants_view);
    }
    let mut i: usize = 0;
    while i < variants.len()
        invariant
            0 <= i <= variants@.len(),
            variants_view == spec_type_full_variants_view(variants@),
            variants_view.len() == variants@.len(),
            forall|j: int|
                0 <= j < variants@.len() ==> #[trigger] variants_view[j] == variants@[j]@,
            total_len == bytes@.len(),
            offset + size <= bytes@.len(),
            size as nat == prefix.spec_size(),
            code as nat == spec_le_val(bytes@.skip(offset as int).take(size as int)),
            spec_variant_with_code(variants_view.skip(i as int), code as int)
                == spec_variant_with_code(variants_view, code as int),
        decreases variants@.len() - i,
    {
        proof {
            assert(variants_view.skip(i as int)[0] == variants_view[i as int]);
            assert(variants_view.skip(i as int).skip(1) =~= variants_view.skip(i + 1));
        }
        if variants[i].code == code {
            proof {
                assert(decreases_to!(variants@ => variants@[i as int]));
                assert(decreases_to!(variants@[i as int] => variants@[i as int].fields));
            }
            let (fields_value, consumed) = match variants[i].fields.try_deserialize(
                bytes,
                offset + size,
            ) {
                Ok(pair) => pair,
                Err(error) => {
                    proof {
                        assert(bytes@.skip(offset as int).skip(size as int) =~= bytes@.skip(
                            offset + size,
                        ));
                    }
                    return Err(error);
                },
            };
            proof {
                assert(bytes@.skip(offset as int).skip(size as int) =~= bytes@.skip(
                    offset + size,
                ));
            }
            let value = if variants[i].fields.is_empty() {
                ToolboxIdlValue::String(variants[i].name.clone())
            } else {
                let mut entries: Vec<(String, ToolboxIdlValue)> = Vec::new();
                entries.push((variants[i].name.clone(), fields_value));
                proof {
                    lemma_value_entries_view(entries@);
                    assert(spec_value_entries_view(entries@) =~= seq![
                        (entries@[0].0@, entries@[0].1@),
                    ]);
                }
                ToolboxIdlValue::Object(entries)
            };
            return Ok((value, size + consumed));
        }
        i += 1;
    }
    proof {
        assert(variants_view.skip(variants_view.len() as int)
            =~= Seq::<ToolboxIdlTypeFullEnumVariantView>::empty());
    }
    Err(ToolboxIdlError::Codec(String::from_str("unknown enum discriminant")))
}

/// Decodes a primitive leaf.
fn deserialize_primitive(
    primitive: &ToolboxIdlTypePrimitive,
    bytes: &Vec<u8>,
    offset: usize,
) -> (r: Result<(ToolboxIdlValue, usize), ToolboxIdlError>)
    requires
        offset <= bytes@.len(),
    ensures
        match r {
            Ok(pair) => spec_deserialize(
                ToolboxIdlTypeFullView::Primitive { primitive: *primitive },
                bytes@.skip(offset as int),
            ) == Some((pair.0@, pair.1 as nat)) && offset + pair.1 <= bytes@.len(),
            Err(_) => spec_deserialize(
                ToolboxIdlTypeFullView::Primitive { primitive: *primitive },
                bytes@.skip(offset as int),
            ) is None,
        },
{
    match primitive.int_size() {
        Some(width) => {
            proof {
                assert(spec_wire_width(width as nat));
                lemma_pow256_values();
            }
            if bytes.len() - offset < width {
                proof {
                    assert(bytes@.skip(offset as int).len() < width as nat);
                }
                return Err(
                    ToolboxIdlError::Codec(String::from_str("missing integer bytes")),
                );
            }
            let unsigned_value = read_le_bytes(bytes, offset, width);
            proof {
                assert(bytes@.skip(offset as int).take(width as int) =~= bytes@.subrange(
                    offset as int,
                    offset + width,
                ));
            }
            let signed = primitive.is_signed();
            let half = wire_half(width);
            let negative = signed && unsigned_value >= half;
            let ghost n: int = if negative {
                unsigned_value - pow256(width as nat)
            } else {
                unsigned_value as int
            };
            proof {
                if signed {
                    assert(n == spec_to_signed(unsigned_value as nat, width as nat));
                }
            }
            let value = if width <= 4 {
                let number: i128 = if negative {
                    let magnitude = (wire_max(width) - unsigned_value) + 1;
                    -(magnitude as i128)
                } else {
                    unsigned_value as i128
                };
                ToolboxIdlValue::Number(number)
            } else {
                let text: String = if negative {
                    let magnitude = (wire_max(width) - unsigned_value) + 1;
                    proof {
                        reveal_strlit("-");
                    }
                    let r = String::from_str("-").concat(u128_to_dec(magnitude).as_str());
                    proof {
                        assert(r@ =~= spec_dec_signed(n));
                    }
                    r
                } else {
                    u128_to_dec(unsigned_value)
                };
                ToolboxIdlValue::String(text)
            };
            Ok((value, width))
        },
        None => {
            match primitive {
                ToolboxIdlTypePrimitive::Bool => {
                    if bytes.len() - offset < 1 {
                        proof {
                            assert(bytes@.skip(offset as int).len() < 1);
                        }
                        return Err(
                            ToolboxIdlError::Codec(String::from_str("missing bool byte")),
                        );
                    }
                    let byte = bytes[offset];
                    proof {
                        assert(bytes@.skip(offset as int)[0] == bytes@[offset as int]);
                    }
                    if byte == 0 {
                        Ok((ToolboxIdlValue::Bool(false), 1))
                    } else if byte == 1 {
                        Ok((ToolboxIdlValue::Bool(true), 1))
                    } else {
                        Err(ToolboxIdlError::Codec(String::from_str("invalid bool byte")))
                    }
                },
                ToolboxIdlTypePrimitive::Pubkey => {
                    if bytes.len() - offset < 32 {
                        proof {
                            assert(bytes@.skip(offset as int).len() < 32);
                        }
                        return Err(
                            ToolboxIdlError::Codec(String::from_str("missing pubkey bytes")),
                        );
                    }
                    let address_bytes = copy_bytes(bytes, offset, offset + 32);
                    proof {
                        assert(bytes@.skip(offset as int).take(32int) =~= bytes@.subrange(
                            offset as int,
                            offset + 32,
                        ));
                    }
                    let text = base58_encode(&address_bytes);
                    Ok((ToolboxIdlValue::String(text), 32))
                },
                _ => Err(
                    ToolboxIdlError::Codec(
                        String::from_str("floating point is not supported"),
                    ),
                ),
            }
        },
    }
}

/// Decodes `count` consecutive items.
fn deserialize_items(
    items: &ToolboxIdlTypeFull,
    bytes: &Vec<u8>,
    offset: usize,
    count: usize,
) -> (r: Result<(Vec<ToolboxIdlValue>, usize), ToolboxIdlError>)
    requires
        offset <= bytes@.len(),
    ensures
        match r {
            Ok(pair) => spec_deserialize_items(
                items@,
                bytes@.skip(offset as int),
                count as nat,
            ) == Some((spec_value_seq_view(pair.0@), pair.1 as nat)) && offset + pair.1
                <= bytes@.len(),
            Err(_) => spec_deserialize_items(
                items@,
                bytes@.skip(offset as int),
                count as nat,
            ) is None,
        },
    decreases *items, 1int, 0int,
{
    let total_len = bytes.len();
    let mut item_values: Vec<ToolboxIdlValue> = Vec::new();
    let mut cursor: usize = offset;
    let mut i: usize = 0;
    proof {
        assert(spec_value_seq_view(item_values@) =~= Seq::<ToolboxIdlValueView>::empty());
    }
    while i < count
        invariant
            0 <= i <= count,
            total_len == bytes@.len(),
            offset <= cursor <= bytes@.len(),
            spec_deserialize_items(items@, bytes@.skip(offset as int), count as nat)
                == spec_items_cat(
                spec_value_seq_view(item_values@),
                (cursor - offset) as nat,
                spec_deserialize_items(items@, bytes@.skip(cursor as int), (count - i) as nat),
            ),
        decreases count - i,
    {
        let (value, consumed) = match items.try_deserialize(bytes, cursor) {
            Ok(pair) => pair,
            Err(error) => {
                return Err(error);
            },
        };
        let ghost prior = item_values@;
        item_values.push(value);
        proof {
            assert(item_values@.subrange(0, item_values@.len() - 1) =~= prior);
            assert(bytes@.skip(cursor as int).skip(consumed as int) =~= bytes@.skip(
                cursor + consumed,
            ));
            let piece = seq![item_values@.last()@];
            assert(spec_value_seq_view(item_values@) =~= spec_value_seq_view(prior) + piece);
            if spec_deserialize_items(
                items@,
                bytes@.skip(cursor + consumed),
                (count - i - 1) as nat,
            ) is Some {
                let rest = spec_deserialize_items(
                    items@,
                    bytes@.skip(cursor + consumed),
                    (count - i - 1) as nat,
                ).unwrap();
                assert(spec_value_seq_view(prior) + (piece + rest.0) =~= (spec_value_seq_view(
                    prior,
                ) + piece) + rest.0);
            }
        }
        cursor = cursor + consumed;
        i += 1;
    }
    proof {
        assert(spec_deserialize_items(items@, bytes@.skip(cursor as int), 0nat) == Some(
            (Seq::<ToolboxIdlValueView>::empty(), 0nat),
        ));
        assert(spec_value_seq_view(item_values@) + Seq::<ToolboxIdlValueView>::empty()
            =~= spec_value_seq_view(item_values@));
    }
    Ok((item_values, cursor - offset))
}

impl ToolboxIdlTypeFullFields {
    /// Decodes a field list's content.
    pub fn try_deserialize(&self, bytes: &Vec<u8>, offset: usize) -> (r: Result<
        (ToolboxIdlValue, usize),
        ToolboxIdlError,
    >)
        requires
            offset <= bytes@.len(),
        ensures
            match r {
                Ok(pair) => spec_deserialize_fields(self@, bytes@.skip(offset as int)) == Some(
                    (pair.0@, pair.1 as nat),
                ) && offset + pair.1 <= bytes@.len(),
                Err(_) => spec_deserialize_fields(self@, bytes@.skip(offset as int)) is None,
            },
        decreases *self, 1int, 0int,
    {
        match self {
            ToolboxIdlTypeFullFields::Nothing => Ok((ToolboxIdlValue::Null, 0)),
            ToolboxIdlTypeFullFields::Named(fields) => {
                let ghost fields_view = self@->Named_0;
                proof {
                    lemma_type_full_fields_named_view(fields@);
                    assert(fields_view.skip(0int) =~= fields_view);
                    assert(spec_value_entries_view(Seq::<(String, ToolboxIdlValue)>::empty())
                        =~= Seq::<(Seq<char>, ToolboxIdlValueView)>::empty());
                }
                let total_len = bytes.len();
                let mut entries: Vec<(String, ToolboxIdlValue)> = Vec::new();
                let mut cursor: usize = offset;
                let mut i: usize = 0;
                proof {
                    assert(spec_value_entries_view(entries@) =~= Seq::<
                        (Seq<char>, ToolboxIdlValueView),
                    >::empty());
                }
                while i < fields.len()
                    invariant
                        0 <= i <= fields@.len(),
                        total_len == bytes@.len(),
                        offset <= cursor <= bytes@.len(),
                        self is Named,
                        fields == self->Named_0,
                        fields_view == self@->Named_0,
                        fields_view.len() == fields@.len(),
                        forall|j: int|
                            0 <= j < fields@.len() ==> #[trigger] fields_view[j]
                                == (fields@[j].name@, fields@[j].content@),
                        spec_deserialize_fields_named(fields_view, bytes@.skip(offset as int))
                            == spec_entries_cat(
                            spec_value_entries_view(entries@),
                            (cursor - offset) as nat,
                            spec_deserialize_fields_named(
                                fields_view.skip(i as int),
                                bytes@.skip(cursor as int),
                            ),
                        ),
                    decreases fields@.len() - i,
                {
                    proof {
                        assert(fields_view.skip(i as int)[0] == fields_view[i as int]);
                        assert(fields_view.skip(i as int).skip(1) =~= fields_view.skip(i + 1));
                        assert(decreases_to!(*self => self->Named_0));
                        assert(decreases_to!(self->Named_0 => self->Named_0@));
                        assert(decreases_to!(self->Named_0@ => self->Named_0@[i as int]));
                        assert(decreases_to!(self->Named_0@[i as int] => self->Named_0@[
                            i as int
                        ].content));
                    }
                    let field = &fields[i];
                    let (value, consumed) = match field.content.try_deserialize(bytes, cursor) {
                        Ok(pair) => pair,
                        Err(error) => {
                            return Err(error);
                        },
                    };
                    let ghost prior = entries@;
                    entries.push((field.name.clone(), value));
                    proof {
                        assert(entries@.subrange(0, entries@.len() - 1) =~= prior);
                        assert(bytes@.skip(cursor as int).skip(consumed as int) =~= bytes@.skip(
                            cursor + consumed,
                        ));
                        let piece = seq![(entries@.last().0@, entries@.last().1@)];
                        assert(spec_value_entries_view(entries@) =~= spec_value_entries_view(
                            prior,
                        ) + piece);
                        if spec_deserialize_fields_named(
                            fields_view.skip(i + 1),
                            bytes@.skip(cursor + consumed),
                        ) is Some {
                            let rest = spec_deserialize_fields_named(
                                fields_view.skip(i + 1),
                                bytes@.skip(cursor + consumed),
                            ).unwrap();
                            assert(spec_value_entries_view(prior) + (piece + rest.0)
                                =~= (spec_value_entries_view(prior) + piece) + rest.0);
                        }
                    }
                    cursor = cursor + consumed;
                    i += 1;
                }
                proof {
                    assert(fields_view.skip(fields_view.len() as int)
                        =~= Seq::<(Seq<char>, ToolboxIdlTypeFullView)>::empty());
                    assert(spec_value_entries_view(entries@) + Seq::<
                        (Seq<char>, ToolboxIdlValueView),
                    >::empty() =~= spec_value_entries_view(entries@));
                }
                Ok((ToolboxIdlValue::Object(entries), cursor - offset))
            },
            ToolboxIdlTypeFullFields::Unnamed(fields) => {
                let ghost fields_view = self@->Unnamed_0;
                proof {
                    lemma_type_full_fields_unnamed_view(fields@);
                    assert(fields_view.skip(0int) =~= fields_view);
                }
                let total_len = bytes.len();
                let mut item_values: Vec<ToolboxIdlValue> = Vec::new();
                let mut cursor: usize = offset;
                let mut i: usize = 0;
                proof {
                    assert(spec_value_seq_view(item_values@) =~= Seq::<
                        ToolboxIdlValueView,
                    >::empty());
                }
                while i < fields.len()
                    invariant
                        0 <= i <= fields@.len(),
                        total_len == bytes@.len(),
                        offset <= cursor <= bytes@.len(),
                        self is Unnamed,
                        fields == self->Unnamed_0,
                        fields_view == self@->Unnamed_0,
                        fields_view.len() == fields@.len(),
                        forall|j: int|
                            0 <= j < fields@.len() ==> #[trigger] fields_view[j]
                                == fields@[j].content@,
                        spec_deserialize_fields_unnamed(fields_view, bytes@.skip(offset as int))
                            == spec_items_cat(
                            spec_value_seq_view(item_values@),
                            (cursor - offset) as nat,
                            spec_deserialize_fields_unnamed(
                                fields_view.skip(i as int),
                                bytes@.skip(cursor as int),
                            ),
                        ),
                    decreases fields@.len() - i,
                {
                    proof {
                        assert(fields_view.skip(i as int)[0] == fields_view[i as int]);
                        assert(fields_view.skip(i as int).skip(1) =~= fields_view.skip(i + 1));
                        assert(decreases_to!(*self => self->Unnamed_0));
                        assert(decreases_to!(self->Unnamed_0 => self->Unnamed_0@));
                        assert(decreases_to!(self->Unnamed_0@ => self->Unnamed_0@[i as int]));
                        assert(decreases_to!(self->Unnamed_0@[i as int] => self->Unnamed_0@[
                            i as int
                        ].content));
                    }
                    let field = &fields[i];
                    let (value, consumed) = match field.content.try_deserialize(bytes, cursor) {
                        Ok(pair) => pair,
                        Err(error) => {
                            return Err(error);
                        },
                    };
                    let ghost prior = item_values@;
                    item_values.push(value);
                    proof {
                        assert(item_values@.subrange(0, item_values@.len() - 1) =~= prior);
                        assert(bytes@.skip(cursor as int).skip(consumed as int) =~= bytes@.skip(
                            cursor + consumed,
                        ));
                        let piece = seq![item_values@.last()@];
                        assert(spec_value_seq_view(item_values@) =~= spec_value_seq_view(prior)
                            + piece);
                        if spec_deserialize_fields_unnamed(
                            fields_view.skip(i + 1),
                            bytes@.skip(cursor + consumed),
                        ) is Some {
                            let rest = spec_deserialize_fields_unnamed(
                                fields_view.skip(i + 1),
                                bytes@.skip(cursor + consumed),
                            ).unwrap();
                            assert(spec_value_seq_view(prior) + (piece + rest.0)
                                =~= (spec_value_seq_view(prior) + piece) + rest.0);
                        }
                    }
                    cursor = cursor + consumed;
                    i += 1;
                }
                proof {
                    assert(fields_view.skip(fields_view.len() as int)
                        =~= Seq::<ToolboxIdlTypeFullView>::empty());
                    assert(spec_value_seq_view(item_values@) + Seq::<
                        ToolboxIdlValueView,
                    >::empty() =~= spec_value_seq_view(item_values@));
                }
                Ok((ToolboxIdlValue::Array(item_values), cursor - offset))
            },
        }
    }
}

} // verus!
