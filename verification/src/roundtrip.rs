//! The codec round-trip law: for a well-formed type, decoding an
//! encoding consumes exactly the encoded bytes and yields a canonical
//! value that encodes back to the same bytes. Well-formed means that
//! struct field names are distinct, enum variant names and codes are
//! distinct, and no public-key leaf occurs (a public key decodes
//! through an outside Base58 encoder whose inverse only the trusted
//! boundary states).

use vstd::prelude::*;

use crate::decimal::lemma_dec_digits_val;
use crate::decimal::lemma_dec_signed_val;
use crate::decimal::spec_dec_signed;
use crate::deserialize::spec_deserialize;
use crate::deserialize::spec_deserialize_fields;
use crate::deserialize::spec_deserialize_fields_named;
use crate::deserialize::spec_deserialize_fields_unnamed;
use crate::deserialize::spec_deserialize_items;
use crate::deserialize::spec_int_value;
use crate::deserialize::spec_variant_with_code;
use crate::little_endian::lemma_le_bytes_len;
use crate::little_endian::lemma_le_bytes_val;
use crate::little_endian::lemma_pow256_le;
use crate::little_endian::lemma_pow256_values;
use crate::little_endian::pow256;
use crate::little_endian::spec_le_bytes;
use crate::little_endian::spec_le_val;
use crate::little_endian::spec_to_signed;
use crate::little_endian::spec_to_unsigned;
use crate::serialize::spec_bytes_of_value;
use crate::serialize::spec_fields_is_empty;
use crate::serialize::spec_serialize;
use crate::serialize::spec_serialize_fields;
use crate::serialize::spec_serialize_fields_named;
use crate::serialize::spec_serialize_fields_unnamed;
use crate::serialize::spec_serialize_items;
use crate::serialize::spec_serialize_variant_fields;
use crate::serialize::spec_value_as_int;
use crate::serialize::spec_variant_named;
use crate::serialize::spec_zeros;
use crate::type_full::ToolboxIdlTypeFullEnumVariantView;
use crate::type_full::ToolboxIdlTypeFullFieldsView;
use crate::type_full::ToolboxIdlTypeFullView;
use crate::type_prefix::ToolboxIdlTypePrefix;
use crate::type_primitive::ToolboxIdlTypePrimitive;
use crate::value::spec_object_get;
use crate::value::ToolboxIdlValueView;
use vstd::utf8::encode_utf8;
use vstd::utf8::decode_utf8;
use vstd::utf8::valid_utf8;
use vstd::utf8::encode_utf8_valid_utf8;
use vstd::utf8::encode_utf8_decode_utf8;

verus! {

/// Whether a resolved type round-trips: distinct field names, distinct
/// variant names and codes, and no public-key leaf.
pub open spec fn spec_type_wf(t: ToolboxIdlTypeFullView) -> bool
    decreases t, 0int, 0int,
{
    match t {
        ToolboxIdlTypeFullView::Typedef { content, .. } => {
            proof {
                assert(decreases_to!(t => t->Typedef_content));
            }
            spec_type_wf(*content)
        },
        ToolboxIdlTypeFullView::Option { content, .. } => {
            proof {
                assert(decreases_to!(t => t->Option_content));
            }
            spec_type_wf(*content) && !spec_type_nullable(*content)
        },
        ToolboxIdlTypeFullView::Vec { items, .. } => {
            proof {
                assert(decreases_to!(t => t->Vec_items));
            }
            spec_type_wf(*items)
        },
        ToolboxIdlTypeFullView::Array { items, .. } => {
            proof {
                assert(decreases_to!(t => t->Array_items));
            }
            spec_type_wf(*items)
        },
        ToolboxIdlTypeFullView::String { .. } => true,
        ToolboxIdlTypeFullView::Struct { fields } => {
            proof {
                assert(decreases_to!(t => t->Struct_fields));
            }
            spec_fields_wf(fields)
        },
        ToolboxIdlTypeFullView::Enum { variants, .. } => {
            proof {
                assert(decreases_to!(t => t->Enum_variants));
            }
            spec_variants_distinct(variants) && spec_variants_wf(variants)
        },
        ToolboxIdlTypeFullView::Padded { content, .. } => {
            proof {
                assert(decreases_to!(t => t->Padded_content));
            }
            spec_type_wf(*content)
        },
        ToolboxIdlTypeFullView::Primitive { primitive } => primitive
            != ToolboxIdlTypePrimitive::Pubkey,
    }
}

/// Whether decoding a value of this type can yield a bare null, which
/// an enclosing option could not tell from absence.
pub open spec fn spec_type_nullable(t: ToolboxIdlTypeFullView) -> bool
    decreases t, 0int, 0int,
{
    match t {
        ToolboxIdlTypeFullView::Typedef { content, .. } => {
            proof {
                assert(decreases_to!(t => t->Typedef_content));
            }
            spec_type_nullable(*content)
        },
        ToolboxIdlTypeFullView::Option { .. } => true,
        ToolboxIdlTypeFullView::Struct { fields } => fields
            == ToolboxIdlTypeFullFieldsView::Nothing,
        ToolboxIdlTypeFullView::Padded { content, .. } => {
            proof {
                assert(decreases_to!(t => t->Padded_content));
            }
            spec_type_nullable(*content)
        },
        _ => false,
    }
}

/// Distinct variant names and codes.
pub open spec fn spec_variants_distinct(vs: Seq<ToolboxIdlTypeFullEnumVariantView>) -> bool {
    forall|i: int, j: int| #![trigger vs[i], vs[j]]
        0 <= i < j < vs.len() ==> vs[i].name != vs[j].name && vs[i].code != vs[j].code
}

/// Every variant's fields are well-formed.
pub open spec fn spec_variants_wf(vs: Seq<ToolboxIdlTypeFullEnumVariantView>) -> bool
    decreases vs, 1int, 0int,
{
    if vs.len() == 0 {
        true
    } else {
        proof {
            assert(decreases_to!(vs => vs[0]));
            assert(decreases_to!(vs[0] => vs[0].fields));
        }
        spec_fields_wf(vs[0].fields) && spec_variants_wf(vs.skip(1))
    }
}

/// Distinct named-field names.
pub open spec fn spec_named_distinct(fs: Seq<(Seq<char>, ToolboxIdlTypeFullView)>) -> bool {
    forall|i: int, j: int| 0 <= i < j < fs.len() ==> #[trigger] fs[i].0 != #[trigger] fs[j].0
}

/// Whether a field list round-trips.
pub open spec fn spec_fields_wf(f: ToolboxIdlTypeFullFieldsView) -> bool
    decreases f, 1int, 0int,
{
    match f {
        ToolboxIdlTypeFullFieldsView::Nothing => true,
        ToolboxIdlTypeFullFieldsView::Named(fs) => {
            proof {
                assert(decreases_to!(f => f->Named_0));
            }
            spec_named_distinct(fs) && spec_fields_named_wf(fs)
        },
        ToolboxIdlTypeFullFieldsView::Unnamed(fs) => {
            proof {
                assert(decreases_to!(f => f->Unnamed_0));
            }
            spec_fields_unnamed_wf(fs)
        },
    }
}

/// Every named field's content is well-formed.
pub open spec fn spec_fields_named_wf(fs: Seq<(Seq<char>, ToolboxIdlTypeFullView)>) -> bool
    decreases fs, 1int, 0int,
{
    if fs.len() == 0 {
        true
    } else {
        proof {
            assert(decreases_to!(fs => fs[0]));
            assert(decreases_to!(fs[0] => fs[0].1));
        }
        spec_type_wf(fs[0].1) && spec_fields_named_wf(fs.skip(1))
    }
}

/// Every positional field's content is well-formed.
pub open spec fn spec_fields_unnamed_wf(fs: Seq<ToolboxIdlTypeFullView>) -> bool
    decreases fs, 1int, 0int,
{
    if fs.len() == 0 {
        true
    } else {
        proof {
            assert(decreases_to!(fs => fs[0]));
        }
        spec_type_wf(fs[0]) && spec_fields_unnamed_wf(fs.skip(1))
    }
}

/// Reading the well-formedness of one variant out of the list.
proof fn lemma_variants_wf_at(vs: Seq<ToolboxIdlTypeFullEnumVariantView>, i: int)
    requires
        spec_variants_wf(vs),
        0 <= i < vs.len(),
    ensures
        spec_fields_wf(vs[i].fields),
    decreases i,
{
    if i > 0 {
        lemma_variants_wf_at(vs.skip(1), i - 1);
    }
}

/// Reading the well-formedness of one named field out of the list.
proof fn lemma_fields_named_wf_at(fs: Seq<(Seq<char>, ToolboxIdlTypeFullView)>, i: int)
    requires
        spec_fields_named_wf(fs),
        0 <= i < fs.len(),
    ensures
        spec_type_wf(fs[i].1),
    decreases i,
{
    if i > 0 {
        lemma_fields_named_wf_at(fs.skip(1), i - 1);
    }
}

/// Finding a variant by its own name, under distinct names.
proof fn lemma_find_named_at(vs: Seq<ToolboxIdlTypeFullEnumVariantView>, i: int)
    requires
        spec_variants_distinct(vs),
        0 <= i < vs.len(),
    ensures
        spec_variant_named(vs, vs[i].name) == Some(vs[i]),
    decreases i,
{
    if i > 0 {
        assert(vs[0].name != vs[i].name);
        assert(forall|a: int, b: int|
            0 <= a < b < vs.skip(1).len() ==> vs.skip(1)[a] == vs[a + 1] && vs.skip(1)[b] == vs[
                b + 1
            ]);
        lemma_find_named_at(vs.skip(1), i - 1);
    }
}

/// Finding a variant by its own code, under distinct codes.
proof fn lemma_find_coded_at(vs: Seq<ToolboxIdlTypeFullEnumVariantView>, i: int)
    requires
        spec_variants_distinct(vs),
        0 <= i < vs.len(),
    ensures
        spec_variant_with_code(vs, vs[i].code as int) == Some(vs[i]),
    decreases i,
{
    if i > 0 {
        assert(vs[0].code != vs[i].code);
        assert(forall|a: int, b: int|
            0 <= a < b < vs.skip(1).len() ==> vs.skip(1)[a] == vs[a + 1] && vs.skip(1)[b] == vs[
                b + 1
            ]);
        lemma_find_coded_at(vs.skip(1), i - 1);
    }
}

/// A found-by-name variant is an element.
proof fn lemma_variant_named_element(vs: Seq<ToolboxIdlTypeFullEnumVariantView>, name: Seq<char>)
    requires
        spec_variant_named(vs, name) is Some,
    ensures
        exists|i: int|
            0 <= i < vs.len() && vs[i] == spec_variant_named(vs, name).unwrap() && vs[i].name
                == name,
    decreases vs.len(),
{
    if vs.len() > 0 && vs[0].name != name {
        lemma_variant_named_element(vs.skip(1), name);
        let i = choose|i: int|
            0 <= i < vs.skip(1).len() && vs.skip(1)[i] == spec_variant_named(
                vs.skip(1),
                name,
            ).unwrap() && vs.skip(1)[i].name == name;
        assert(vs[i + 1] == spec_variant_named(vs, name).unwrap());
    }
}

/// Encoding the fields of the variant selected by name equals encoding
/// that variant's fields directly.
proof fn lemma_svf_at(
    vs: Seq<ToolboxIdlTypeFullEnumVariantView>,
    i: int,
    v: ToolboxIdlValueView,
    p: bool,
)
    requires
        spec_variants_distinct(vs),
        0 <= i < vs.len(),
    ensures
        spec_serialize_variant_fields(vs, vs[i].name, v, p) == spec_serialize_fields(
            vs[i].fields,
            v,
            p,
        ),
    decreases i,
{
    if i > 0 {
        assert(vs[0].name != vs[i].name);
        assert(forall|a: int, b: int|
            0 <= a < b < vs.skip(1).len() ==> vs.skip(1)[a] == vs[a + 1] && vs.skip(1)[b] == vs[
                b + 1
            ]);
        lemma_svf_at(vs.skip(1), i - 1, v, p);
    }
}

/// A prepended object entry whose name no field bears does not change
/// the encoding of those fields.
proof fn lemma_named_prepend(
    fs: Seq<(Seq<char>, ToolboxIdlTypeFullView)>,
    head: (Seq<char>, ToolboxIdlValueView),
    entries: Seq<(Seq<char>, ToolboxIdlValueView)>,
    p: bool,
)
    requires
        forall|k: int| 0 <= k < fs.len() ==> #[trigger] fs[k].0 != head.0,
    ensures
        spec_serialize_fields_named(fs, seq![head] + entries, p) == spec_serialize_fields_named(
            fs,
            entries,
            p,
        ),
    decreases fs.len(),
{
    if fs.len() > 0 {
        assert((seq![head] + entries)[0] == head);
        assert((seq![head] + entries).skip(1) =~= entries);
        assert(spec_object_get(seq![head] + entries, fs[0].0) == spec_object_get(
            entries,
            fs[0].0,
        ));
        assert(forall|k: int|
            0 <= k < fs.skip(1).len() ==> #[trigger] fs.skip(1)[k] == fs[k + 1]);
        lemma_named_prepend(fs.skip(1), head, entries, p);
    }
}

/// The byte-number values of a byte string.
pub open spec fn spec_byte_numbers(cb: Seq<u8>) -> Seq<ToolboxIdlValueView> {
    Seq::new(cb.len(), |i: int| ToolboxIdlValueView::Number(cb[i] as int))
}

/// A raw byte string decodes item-wise to byte numbers that encode
/// back to the same bytes.
proof fn lemma_u8_items(cb: Seq<u8>, rest: Seq<u8>, p: bool)
    ensures
        spec_deserialize_items(
            ToolboxIdlTypeFullView::Primitive { primitive: ToolboxIdlTypePrimitive::U8 },
            cb + rest,
            cb.len() as nat,
        ) == Some((spec_byte_numbers(cb), cb.len() as nat)),
        spec_serialize_items(
            ToolboxIdlTypeFullView::Primitive { primitive: ToolboxIdlTypePrimitive::U8 },
            spec_byte_numbers(cb),
            p,
        ) == Some(cb),
    decreases cb.len(),
{
    let u8t = ToolboxIdlTypeFullView::Primitive { primitive: ToolboxIdlTypePrimitive::U8 };
    lemma_pow256_values();
    if cb.len() == 0 {
        assert(cb + rest =~= rest);
        assert(spec_byte_numbers(cb) =~= Seq::<ToolboxIdlValueView>::empty());
        assert(cb =~= Seq::<u8>::empty());
    } else {
        let all = cb + rest;
        assert(all.len() >= 1);
        assert(all.take(1int) =~= seq![cb[0]]);
        assert(seq![cb[0]].skip(1) =~= Seq::<u8>::empty());
        assert(spec_le_val(Seq::<u8>::empty()) == 0);
        assert(spec_le_val(seq![cb[0]]) == cb[0]);
        assert(spec_le_bytes((cb[0] as nat) / 256, 0nat) =~= Seq::<u8>::empty());
        assert((cb[0] as nat) % 256 == cb[0] as nat);
        assert(spec_deserialize(u8t, all) == Some(
            (ToolboxIdlValueView::Number(cb[0] as int), 1nat),
        ));
        assert(all.skip(1int) =~= cb.skip(1) + rest);
        lemma_u8_items(cb.skip(1), rest, p);
        assert(spec_byte_numbers(cb) =~= seq![ToolboxIdlValueView::Number(cb[0] as int)]
            + spec_byte_numbers(cb.skip(1)));
        assert(spec_byte_numbers(cb)[0] == ToolboxIdlValueView::Number(cb[0] as int));
        // Encoding side: one byte then the rest.
        assert(spec_value_as_int(ToolboxIdlValueView::Number(cb[0] as int)) == Some(
            cb[0] as int,
        ));
        assert(spec_le_bytes(cb[0] as nat, 1nat) =~= seq![cb[0]]);
        assert(spec_byte_numbers(cb).skip(1) =~= spec_byte_numbers(cb.skip(1)));
        assert(seq![cb[0]] + cb.skip(1) =~= cb);
        assert(spec_serialize(
            u8t,
            ToolboxIdlValueView::Number(cb[0] as int),
            p,
        ) == Some(seq![cb[0]]));
        assert(spec_byte_numbers(cb).len() == cb.len());
        assert(spec_serialize_items(u8t, spec_byte_numbers(cb), p) == Some(
            seq![cb[0]] + cb.skip(1),
        ));
    }
}

/// Splitting a concatenation at the boundary.
proof fn lemma_parts(a: Seq<u8>, b: Seq<u8>)
    ensures
        (a + b).take(a.len() as int) =~= a,
        (a + b).skip(a.len() as int) =~= b,
        (a + b).len() == a.len() + b.len(),
{
}

/// The round-trip statement for one type and value: if the value
/// encodes, then decoding the encoding (with anything appended)
/// consumes exactly the encoded bytes and yields a value that encodes
/// back to the same bytes.
pub open spec fn spec_round_trips(
    t: ToolboxIdlTypeFullView,
    v: ToolboxIdlValueView,
    rest: Seq<u8>,
) -> bool {
    match spec_serialize(t, v, true) {
        Some(b) => match spec_deserialize(t, b + rest) {
            Some(pair) => pair.1 == b.len() && spec_serialize(t, pair.0, true) == Some(b),
            None => false,
        },
        None => true,
    }
}

/// A decoded value is never a bare null unless the type is nullable.
proof fn lemma_deserialize_not_null(t: ToolboxIdlTypeFullView, bytes: Seq<u8>)
    requires
        spec_deserialize(t, bytes) is Some,
        !spec_type_nullable(t),
    ensures
        !(spec_deserialize(t, bytes).unwrap().0 is Null),
    decreases t, 0int, 0int,
{
    match t {
        ToolboxIdlTypeFullView::Typedef { content, .. } => {
            assert(decreases_to!(t => t->Typedef_content));
            lemma_deserialize_not_null(*content, bytes);
        },
        ToolboxIdlTypeFullView::Padded { before, content, .. } => {
            assert(decreases_to!(t => t->Padded_content));
            lemma_deserialize_not_null(*content, bytes.skip(before as int));
        },
        ToolboxIdlTypeFullView::Struct { fields } => {
            match fields {
                ToolboxIdlTypeFullFieldsView::Nothing => {
                    assert(spec_type_nullable(t));
                },
                ToolboxIdlTypeFullFieldsView::Named(fs) => {
                    assert(spec_deserialize_fields(fields, bytes) is Some);
                    assert(spec_deserialize_fields_named(fs, bytes) is Some);
                    assert(spec_deserialize_fields(fields, bytes).unwrap().0 is Object);
                    assert(spec_deserialize(t, bytes).unwrap().0 is Object);
                },
                ToolboxIdlTypeFullFieldsView::Unnamed(fs) => {
                    assert(spec_deserialize_fields(fields, bytes) is Some);
                    assert(spec_deserialize_fields_unnamed(fs, bytes) is Some);
                    assert(spec_deserialize_fields(fields, bytes).unwrap().0 is Array);
                    assert(spec_deserialize(t, bytes).unwrap().0 is Array);
                },
            }
        },
        _ => {},
    }
}

/// The codec round trip, for well-formed types (the library's central
/// law): `decode(encode(v))` consumes the encoded bytes exactly and
/// yields a canonical value with the same encoding.
pub proof fn lemma_round_trip(
    t: ToolboxIdlTypeFullView,
    v: ToolboxIdlValueView,
    rest: Seq<u8>,
)
    requires
        spec_type_wf(t),
    ensures
        spec_round_trips(t, v, rest),
    decreases t, 0int, 0int,
{
    if spec_serialize(t, v, true) is None {
        return;
    }
    match t {
        ToolboxIdlTypeFullView::Typedef { content, .. } => {
            assert(decreases_to!(t => t->Typedef_content));
            lemma_round_trip(*content, v, rest);
        },
        ToolboxIdlTypeFullView::Option { prefix, content } => {
            assert(decreases_to!(t => t->Option_content));
            lemma_round_trip_option(prefix, *content, v, rest);
        },
        ToolboxIdlTypeFullView::Vec { prefix, items } => {
            assert(decreases_to!(t => t->Vec_items));
            lemma_round_trip_vec(prefix, *items, v, rest);
        },
        ToolboxIdlTypeFullView::Array { items, length } => {
            assert(decreases_to!(t => t->Array_items));
            lemma_round_trip_array(*items, length, v, rest);
        },
        ToolboxIdlTypeFullView::String { prefix } => {
            lemma_round_trip_string(prefix, v, rest);
        },
        ToolboxIdlTypeFullView::Struct { fields } => {
            assert(decreases_to!(t => t->Struct_fields));
            let b = spec_serialize(t, v, true).unwrap();
            lemma_round_trip_fields(fields, v, rest);
        },
        ToolboxIdlTypeFullView::Enum { prefix, variants } => {
            assert(decreases_to!(t => t->Enum_variants));
            lemma_round_trip_enum(prefix, variants, v, rest);
        },
        ToolboxIdlTypeFullView::Padded { before, min_size, after, content } => {
            assert(decreases_to!(t => t->Padded_content));
            lemma_round_trip_padded(before, min_size, after, *content, v, rest);
        },
        ToolboxIdlTypeFullView::Primitive { primitive } => {
            lemma_round_trip_primitive(primitive, v, rest);
        },
    }
}

/// The round trip of an optional value.
proof fn lemma_round_trip_option(
    prefix: ToolboxIdlTypePrefix,
    content: ToolboxIdlTypeFullView,
    v: ToolboxIdlValueView,
    rest: Seq<u8>,
)
    requires
        spec_type_wf(content),
        !spec_type_nullable(content),
        spec_serialize(
            ToolboxIdlTypeFullView::Option { prefix, content: Box::new(content) },
            v,
            true,
        ) is Some,
    ensures
        spec_round_trips(
            ToolboxIdlTypeFullView::Option { prefix, content: Box::new(content) },
            v,
            rest,
        ),
    decreases content, 2int, 0int,
{
    let t = ToolboxIdlTypeFullView::Option { prefix, content: Box::new(content) };
    let b = spec_serialize(t, v, true).unwrap();
    let size = prefix.spec_size();
    lemma_pow256_le(0nat, size);
    assert(pow256(0nat) == 1);
    lemma_pow256_le(1nat, size);
    assert(pow256(1nat) == 256);
    if v is Null {
        lemma_le_bytes_len(0, size);
        lemma_le_bytes_val(0, size);
        lemma_parts(b, rest);
        assert((b + rest).take(size as int) =~= spec_le_bytes(0, size));
        assert(spec_deserialize(t, b + rest) == Some((ToolboxIdlValueView::Null, size)));
    } else {
        let cb = spec_serialize(content, v, true).unwrap();
        let head = spec_le_bytes(1, size);
        lemma_le_bytes_len(1, size);
        lemma_le_bytes_val(1, size);
        assert(b =~= head + cb);
        assert(b + rest =~= head + (cb + rest));
        lemma_parts(head, cb + rest);
        assert((head + (cb + rest)).take(size as int) =~= head);
        assert((head + (cb + rest)).skip(size as int) =~= cb + rest);
        lemma_round_trip(content, v, rest);
        let pair = spec_deserialize(content, cb + rest).unwrap();
        lemma_deserialize_not_null(content, cb + rest);
        assert(spec_deserialize(t, b + rest) == Some((pair.0, (size + pair.1) as nat)));
        assert(spec_serialize(t, pair.0, true) == Some(b));
    }
}

/// The round trip of a length-prefixed collection.
proof fn lemma_round_trip_vec(
    prefix: ToolboxIdlTypePrefix,
    items: ToolboxIdlTypeFullView,
    v: ToolboxIdlValueView,
    rest: Seq<u8>,
)
    requires
        spec_type_wf(items),
        spec_serialize(
            ToolboxIdlTypeFullView::Vec { prefix, items: Box::new(items) },
            v,
            true,
        ) is Some,
    ensures
        spec_round_trips(
            ToolboxIdlTypeFullView::Vec { prefix, items: Box::new(items) },
            v,
            rest,
        ),
    decreases items, 2int, 0int,
{
    let t = ToolboxIdlTypeFullView::Vec { prefix, items: Box::new(items) };
    let b = spec_serialize(t, v, true).unwrap();
    let size = prefix.spec_size();
    let u8t = ToolboxIdlTypeFullView::Primitive { primitive: ToolboxIdlTypePrimitive::U8 };
    if items == u8t && !(v is Array) {
        let cb = spec_bytes_of_value(v).unwrap();
        let head = spec_le_bytes(cb.len() as nat, size);
        lemma_le_bytes_len(cb.len() as nat, size);
        lemma_le_bytes_val(cb.len() as nat, size);
        assert(b =~= head + cb);
        assert(b + rest =~= head + (cb + rest));
        lemma_parts(head, cb + rest);
        lemma_u8_items(cb, rest, true);
        let vs2 = spec_byte_numbers(cb);
        assert(spec_deserialize(t, b + rest) == Some(
            (ToolboxIdlValueView::Array(vs2), (size + cb.len()) as nat),
        ));
        assert(spec_serialize(t, ToolboxIdlValueView::Array(vs2), true) == Some(b));
    } else {
        let vs = v->Array_0;
        let cb = spec_serialize_items(items, vs, true).unwrap();
        let head = spec_le_bytes(vs.len() as nat, size);
        lemma_le_bytes_len(vs.len() as nat, size);
        lemma_le_bytes_val(vs.len() as nat, size);
        assert(b =~= head + cb);
        assert(b + rest =~= head + (cb + rest));
        lemma_parts(head, cb + rest);
        lemma_round_trip_items(items, vs, rest);
        let pair = spec_deserialize_items(items, cb + rest, vs.len() as nat).unwrap();
        assert(spec_deserialize(t, b + rest) == Some(
            (ToolboxIdlValueView::Array(pair.0), (size + pair.1) as nat),
        ));
        assert(spec_serialize(t, ToolboxIdlValueView::Array(pair.0), true) == Some(b));
    }
}

/// The round trip of a fixed-length collection.
proof fn lemma_round_trip_array(
    items: ToolboxIdlTypeFullView,
    length: usize,
    v: ToolboxIdlValueView,
    rest: Seq<u8>,
)
    requires
        spec_type_wf(items),
        spec_serialize(
            ToolboxIdlTypeFullView::Array { items: Box::new(items), length },
            v,
            true,
        ) is Some,
    ensures
        spec_round_trips(
            ToolboxIdlTypeFullView::Array { items: Box::new(items), length },
            v,
            rest,
        ),
    decreases items, 2int, 0int,
{
    let t = ToolboxIdlTypeFullView::Array { items: Box::new(items), length };
    let b = spec_serialize(t, v, true).unwrap();
    let u8t = ToolboxIdlTypeFullView::Primitive { primitive: ToolboxIdlTypePrimitive::U8 };
    if items == u8t && !(v is Array) {
        let cb = spec_bytes_of_value(v).unwrap();
        lemma_u8_items(cb, rest, true);
        let vs2 = spec_byte_numbers(cb);
        assert(b == cb);
        assert(spec_deserialize(t, b + rest) == Some(
            (ToolboxIdlValueView::Array(vs2), cb.len() as nat),
        ));
        assert(vs2.len() == length);
        assert(spec_serialize(t, ToolboxIdlValueView::Array(vs2), true) == Some(b));
    } else {
        let vs = v->Array_0;
        lemma_round_trip_items(items, vs, rest);
        let pair = spec_deserialize_items(items, b + rest, vs.len() as nat).unwrap();
        assert(spec_deserialize(t, b + rest) == Some(
            (ToolboxIdlValueView::Array(pair.0), pair.1),
        ));
        assert(spec_serialize(t, ToolboxIdlValueView::Array(pair.0), true) == Some(b));
    }
}

/// The round trip of a string.
proof fn lemma_round_trip_string(
    prefix: ToolboxIdlTypePrefix,
    v: ToolboxIdlValueView,
    rest: Seq<u8>,
)
    requires
        spec_serialize(ToolboxIdlTypeFullView::String { prefix }, v, true) is Some,
    ensures
        spec_round_trips(ToolboxIdlTypeFullView::String { prefix }, v, rest),
{
    let t = ToolboxIdlTypeFullView::String { prefix };
    let b = spec_serialize(t, v, true).unwrap();
    let size = prefix.spec_size();
    let s = v->String_0;
    let cb = encode_utf8(s);
    let head = spec_le_bytes(cb.len() as nat, size);
    lemma_le_bytes_len(cb.len() as nat, size);
    lemma_le_bytes_val(cb.len() as nat, size);
    assert(b =~= head + cb);
    assert(b + rest =~= head + (cb + rest));
    lemma_parts(head, cb + rest);
    assert((b + rest).subrange(size as int, (size + cb.len()) as int) =~= cb);
    encode_utf8_valid_utf8(s);
    encode_utf8_decode_utf8(s);
    assert(spec_deserialize(t, b + rest) == Some(
        (ToolboxIdlValueView::String(s), (size + cb.len()) as nat),
    ));
}

/// The round trip of a padded value.
proof fn lemma_round_trip_padded(
    before: usize,
    min_size: usize,
    after: usize,
    content: ToolboxIdlTypeFullView,
    v: ToolboxIdlValueView,
    rest: Seq<u8>,
)
    requires
        spec_type_wf(content),
        spec_serialize(
            ToolboxIdlTypeFullView::Padded {
                before,
                min_size,
                after,
                content: Box::new(content),
            },
            v,
            true,
        ) is Some,
    ensures
        spec_round_trips(
            ToolboxIdlTypeFullView::Padded {
                before,
                min_size,
                after,
                content: Box::new(content),
            },
            v,
            rest,
        ),
    decreases content, 2int, 0int,
{
    let t = ToolboxIdlTypeFullView::Padded {
        before,
        min_size,
        after,
        content: Box::new(content),
    };
    let b = spec_serialize(t, v, true).unwrap();
    let cb = spec_serialize(content, v, true).unwrap();
    let core = spec_zeros(before as nat) + cb + spec_zeros(after as nat);
    let padded = if core.len() >= min_size {
        core
    } else {
        core + spec_zeros((min_size - core.len()) as nat)
    };
    assert(b == padded);
    let tail_bytes = if core.len() >= min_size {
        spec_zeros(after as nat) + rest
    } else {
        spec_zeros(after as nat) + (spec_zeros((min_size - core.len()) as nat) + rest)
    };
    assert((b + rest).skip(before as int) =~= cb + tail_bytes);
    lemma_round_trip(content, v, tail_bytes);
    let pair = spec_deserialize(content, cb + tail_bytes).unwrap();
    assert(pair.1 == cb.len());
    let written = before + cb.len() + after;
    let total: int = if written >= min_size {
        written as int
    } else {
        min_size as int
    };
    assert(total == b.len());
    assert((b + rest).len() >= total);
    assert(spec_deserialize(t, b + rest) == Some((pair.0, total as nat)));
    assert(spec_serialize(t, pair.0, true) == Some(b));
}

/// The round trip of a sequence of items.
proof fn lemma_round_trip_items(
    titem: ToolboxIdlTypeFullView,
    vs: Seq<ToolboxIdlValueView>,
    rest: Seq<u8>,
)
    requires
        spec_type_wf(titem),
        spec_serialize_items(titem, vs, true) is Some,
    ensures
        ({
            let cb = spec_serialize_items(titem, vs, true).unwrap();
            &&& spec_deserialize_items(titem, cb + rest, vs.len() as nat) is Some
            &&& spec_deserialize_items(titem, cb + rest, vs.len() as nat).unwrap().1
                == cb.len()
            &&& spec_deserialize_items(
                titem,
                cb + rest,
                vs.len() as nat,
            ).unwrap().0.len() == vs.len()
            &&& spec_serialize_items(
                titem,
                spec_deserialize_items(titem, cb + rest, vs.len() as nat).unwrap().0,
                true,
            ) == Some(cb)
        }),
    decreases titem, 1int, vs.len(),
{
    let cb = spec_serialize_items(titem, vs, true).unwrap();
    if vs.len() == 0 {
        assert(cb =~= Seq::<u8>::empty());
        assert(cb + rest =~= rest);
        assert(spec_serialize_items(titem, Seq::<ToolboxIdlValueView>::empty(), true) == Some(
            Seq::<u8>::empty(),
        ));
        assert(Some(Seq::<u8>::empty()) == Some(cb));
    } else {
        let b0 = spec_serialize(titem, vs[0], true).unwrap();
        let cbrest = spec_serialize_items(titem, vs.skip(1), true).unwrap();
        assert(cb =~= b0 + cbrest);
        assert(cb + rest =~= b0 + (cbrest + rest));
        lemma_round_trip(titem, vs[0], cbrest + rest);
        let pair0 = spec_deserialize(titem, b0 + (cbrest + rest)).unwrap();
        lemma_parts(b0, cbrest + rest);
        assert((b0 + (cbrest + rest)).skip(b0.len() as int) =~= cbrest + rest);
        lemma_round_trip_items(titem, vs.skip(1), rest);
        let pair_rest = spec_deserialize_items(
            titem,
            cbrest + rest,
            vs.skip(1).len() as nat,
        ).unwrap();
        let vs2 = seq![pair0.0] + pair_rest.0;
        assert(spec_deserialize_items(titem, cb + rest, vs.len() as nat) == Some(
            (vs2, (b0.len() + pair_rest.1) as nat),
        ));
        assert(vs2[0] == pair0.0);
        assert(vs2.skip(1) =~= pair_rest.0);
        assert(spec_serialize_items(titem, vs2, true) == Some(b0 + cbrest));
        assert(b0 + cbrest =~= cb);
    }
}

/// The round trip of a field list.
proof fn lemma_round_trip_fields(
    fields: ToolboxIdlTypeFullFieldsView,
    v: ToolboxIdlValueView,
    rest: Seq<u8>,
)
    requires
        spec_fields_wf(fields),
        spec_serialize_fields(fields, v, true) is Some,
    ensures
        ({
            let fb = spec_serialize_fields(fields, v, true).unwrap();
            &&& spec_deserialize_fields(fields, fb + rest) is Some
            &&& spec_deserialize_fields(fields, fb + rest).unwrap().1 == fb.len()
            &&& spec_serialize_fields(
                fields,
                spec_deserialize_fields(fields, fb + rest).unwrap().0,
                true,
            ) == Some(fb)
        }),
    decreases fields, 1int, 0int,
{
    let fb = spec_serialize_fields(fields, v, true).unwrap();
    match fields {
        ToolboxIdlTypeFullFieldsView::Nothing => {
            assert(fb =~= Seq::<u8>::empty());
        },
        ToolboxIdlTypeFullFieldsView::Named(fs) => {
            assert(decreases_to!(fields => fields->Named_0));
            let entries = v->Object_0;
            lemma_round_trip_fields_named(fs, entries, rest);
            let pair = spec_deserialize_fields_named(fs, fb + rest).unwrap();
            assert(spec_deserialize_fields(fields, fb + rest) == Some(
                (ToolboxIdlValueView::Object(pair.0), pair.1),
            ));
        },
        ToolboxIdlTypeFullFieldsView::Unnamed(fs) => {
            assert(decreases_to!(fields => fields->Unnamed_0));
            let vs = v->Array_0;
            lemma_round_trip_fields_unnamed(fs, vs, rest);
            let pair = spec_deserialize_fields_unnamed(fs, fb + rest).unwrap();
            assert(spec_deserialize_fields(fields, fb + rest) == Some(
                (ToolboxIdlValueView::Array(pair.0), pair.1),
            ));
            assert(pair.0.len() == fs.len());
        },
    }
}

/// The round trip of named fields: decoding yields an object keyed by
/// exactly the field names, in order, which encodes back identically.
proof fn lemma_round_trip_fields_named(
    fs: Seq<(Seq<char>, ToolboxIdlTypeFullView)>,
    entries: Seq<(Seq<char>, ToolboxIdlValueView)>,
    rest: Seq<u8>,
)
    requires
        spec_named_distinct(fs),
        spec_fields_named_wf(fs),
        spec_serialize_fields_named(fs, entries, true) is Some,
    ensures
        ({
            let fb = spec_serialize_fields_named(fs, entries, true).unwrap();
            &&& spec_deserialize_fields_named(fs, fb + rest) is Some
            &&& spec_deserialize_fields_named(fs, fb + rest).unwrap().1 == fb.len()
            &&& spec_deserialize_fields_named(fs, fb + rest).unwrap().0.len() == fs.len()
            &&& (forall|k: int|
                0 <= k < fs.len() ==> #[trigger] spec_deserialize_fields_named(
                    fs,
                    fb + rest,
                ).unwrap().0[k].0 == fs[k].0)
            &&& spec_serialize_fields_named(
                fs,
                spec_deserialize_fields_named(fs, fb + rest).unwrap().0,
                true,
            ) == Some(fb)
        }),
    decreases fs, 1int, 0int,
{
    let fb = spec_serialize_fields_named(fs, entries, true).unwrap();
    if fs.len() == 0 {
        assert(fb =~= Seq::<u8>::empty());
        assert(fb + rest =~= rest);
    } else {
        assert(decreases_to!(fs => fs[0]));
        assert(decreases_to!(fs[0] => fs[0].1));
        let fv = spec_object_get(entries, fs[0].0).unwrap();
        let b0 = spec_serialize(fs[0].1, fv, true).unwrap();
        let fbrest = spec_serialize_fields_named(fs.skip(1), entries, true).unwrap();
        assert(fb =~= b0 + fbrest);
        assert(fb + rest =~= b0 + (fbrest + rest));
        lemma_fields_named_wf_at(fs, 0);
        lemma_round_trip(fs[0].1, fv, fbrest + rest);
        let pair0 = spec_deserialize(fs[0].1, b0 + (fbrest + rest)).unwrap();
        lemma_parts(b0, fbrest + rest);
        assert((b0 + (fbrest + rest)).skip(b0.len() as int) =~= fbrest + rest);
        assert(forall|a: int, b: int|
            0 <= a < b < fs.skip(1).len() ==> fs.skip(1)[a] == fs[a + 1] && fs.skip(1)[b] == fs[
                b + 1
            ]);
        lemma_round_trip_fields_named(fs.skip(1), entries, rest);
        let pair_rest = spec_deserialize_fields_named(fs.skip(1), fbrest + rest).unwrap();
        let entries2 = seq![(fs[0].0, pair0.0)] + pair_rest.0;
        assert(spec_deserialize_fields_named(fs, fb + rest) == Some(
            (entries2, (b0.len() + pair_rest.1) as nat),
        ));
        // Re-encoding reads the first field from the head entry and the
        // remaining fields past it.
        assert(entries2[0] == (fs[0].0, pair0.0));
        assert(spec_object_get(entries2, fs[0].0) == Some(pair0.0));
        assert(entries2.skip(1) =~= pair_rest.0);
        assert(forall|k: int|
            0 <= k < fs.skip(1).len() ==> #[trigger] fs.skip(1)[k].0 != fs[0].0);
        lemma_named_prepend(fs.skip(1), (fs[0].0, pair0.0), pair_rest.0, true);
        assert(seq![(fs[0].0, pair0.0)] + pair_rest.0 =~= entries2);
        assert(spec_serialize_fields_named(fs.skip(1), entries2, true) == Some(fbrest));
        assert(spec_serialize_fields_named(fs, entries2, true) == Some(b0 + fbrest));
        assert(b0 + fbrest =~= fb);
        assert(forall|k: int|
            1 <= k < fs.len() ==> #[trigger] entries2[k].0 == pair_rest.0[k - 1].0);
    }
}

/// The round trip of positional fields.
proof fn lemma_round_trip_fields_unnamed(
    fs: Seq<ToolboxIdlTypeFullView>,
    vs: Seq<ToolboxIdlValueView>,
    rest: Seq<u8>,
)
    requires
        spec_fields_unnamed_wf(fs),
        spec_serialize_fields_unnamed(fs, vs, true) is Some,
    ensures
        ({
            let fb = spec_serialize_fields_unnamed(fs, vs, true).unwrap();
            &&& spec_deserialize_fields_unnamed(fs, fb + rest) is Some
            &&& spec_deserialize_fields_unnamed(fs, fb + rest).unwrap().1 == fb.len()
            &&& spec_deserialize_fields_unnamed(fs, fb + rest).unwrap().0.len() == fs.len()
            &&& spec_serialize_fields_unnamed(
                fs,
                spec_deserialize_fields_unnamed(fs, fb + rest).unwrap().0,
                true,
            ) == Some(fb)
        }),
    decreases fs, 1int, 0int,
{
    let fb = spec_serialize_fields_unnamed(fs, vs, true).unwrap();
    if fs.len() == 0 {
        assert(fb =~= Seq::<u8>::empty());
        assert(fb + rest =~= rest);
    } else {
        assert(decreases_to!(fs => fs[0]));
        let b0 = spec_serialize(fs[0], vs[0], true).unwrap();
        let fbrest = spec_serialize_fields_unnamed(fs.skip(1), vs.skip(1), true).unwrap();
        assert(fb =~= b0 + fbrest);
        assert(fb + rest =~= b0 + (fbrest + rest));
        lemma_round_trip(fs[0], vs[0], fbrest + rest);
        let pair0 = spec_deserialize(fs[0], b0 + (fbrest + rest)).unwrap();
        lemma_parts(b0, fbrest + rest);
        assert((b0 + (fbrest + rest)).skip(b0.len() as int) =~= fbrest + rest);
        lemma_round_trip_fields_unnamed(fs.skip(1), vs.skip(1), rest);
        let pair_rest = spec_deserialize_fields_unnamed(fs.skip(1), fbrest + rest).unwrap();
        let vs2 = seq![pair0.0] + pair_rest.0;
        assert(spec_deserialize_fields_unnamed(fs, fb + rest) == Some(
            (vs2, (b0.len() + pair_rest.1) as nat),
        ));
        assert(vs2[0] == pair0.0);
        assert(vs2.skip(1) =~= pair_rest.0);
        assert(vs2.len() == fs.len());
        assert(spec_serialize_fields_unnamed(fs, vs2, true) == Some(b0 + fbrest));
        assert(b0 + fbrest =~= fb);
    }
}

/// A found-by-code variant of the encoder's search is an element.
proof fn lemma_variant_coded_element(vs: Seq<ToolboxIdlTypeFullEnumVariantView>, code: int)
    requires
        crate::serialize::spec_variant_coded(vs, code) is Some,
    ensures
        exists|i: int|
            0 <= i < vs.len() && vs[i] == crate::serialize::spec_variant_coded(
                vs,
                code,
            ).unwrap() && vs[i].code as int == code,
    decreases vs.len(),
{
    if vs.len() > 0 && vs[0].code as int != code {
        lemma_variant_coded_element(vs.skip(1), code);
        let i = choose|i: int|
            0 <= i < vs.skip(1).len() && vs.skip(1)[i] == crate::serialize::spec_variant_coded(
                vs.skip(1),
                code,
            ).unwrap() && vs.skip(1)[i].code as int == code;
        assert(vs[i + 1] == crate::serialize::spec_variant_coded(vs, code).unwrap());
    }
}

/// The round trip of an enum value.
#[verifier::rlimit(100)]
proof fn lemma_round_trip_enum(
    prefix: ToolboxIdlTypePrefix,
    variants: Seq<ToolboxIdlTypeFullEnumVariantView>,
    v: ToolboxIdlValueView,
    rest: Seq<u8>,
)
    requires
        spec_variants_distinct(variants),
        spec_variants_wf(variants),
        spec_serialize(
            ToolboxIdlTypeFullView::Enum { prefix, variants },
            v,
            true,
        ) is Some,
    ensures
        spec_round_trips(ToolboxIdlTypeFullView::Enum { prefix, variants }, v, rest),
    decreases variants, 0int, 0int,
{
    let t = ToolboxIdlTypeFullView::Enum { prefix, variants };
    let size = prefix.spec_size();
    let b = spec_serialize(t, v, true).unwrap();
    match v {
        ToolboxIdlValueView::String(name) => {
            lemma_variant_named_element(variants, name);
            let i = choose|i: int|
                0 <= i < variants.len() && variants[i] == spec_variant_named(
                    variants,
                    name,
                ).unwrap() && variants[i].name == name;
            let code = variants[i].code;
            lemma_le_bytes_len(code as nat, size);
            lemma_le_bytes_val(code as nat, size);
            lemma_parts(b, rest);
            assert((b + rest).take(size as int) =~= spec_le_bytes(code as nat, size));
            lemma_find_coded_at(variants, i);
            assert(spec_variant_with_code(variants, code as int) == Some(variants[i]));
            assert((b + rest).skip(size as int) =~= rest);
            assert(spec_fields_is_empty(variants[i].fields));
            assert(spec_deserialize_fields(variants[i].fields, rest) is Some);
            assert(spec_deserialize_fields(variants[i].fields, rest).unwrap().1 == 0) by {
                lemma_empty_fields_decode(variants[i].fields, rest);
            }
            assert(spec_deserialize(t, b + rest) == Some(
                (ToolboxIdlValueView::String(variants[i].name), size),
            ));
            lemma_find_named_at(variants, i);
            assert(spec_serialize(t, ToolboxIdlValueView::String(variants[i].name), true)
                == Some(spec_le_bytes(code as nat, size)));
            assert(spec_le_bytes(code as nat, size) =~= b);
        },
        ToolboxIdlValueView::Number(n) => {
            lemma_variant_coded_element(variants, n);
            let i = choose|i: int|
                0 <= i < variants.len() && variants[i] == crate::serialize::spec_variant_coded(
                    variants,
                    n,
                ).unwrap() && variants[i].code as int == n;
            let code = variants[i].code;
            lemma_le_bytes_len(code as nat, size);
            lemma_le_bytes_val(code as nat, size);
            lemma_parts(b, rest);
            assert((b + rest).take(size as int) =~= spec_le_bytes(code as nat, size));
            lemma_find_coded_at(variants, i);
            assert((b + rest).skip(size as int) =~= rest);
            assert(spec_fields_is_empty(variants[i].fields));
            assert(spec_deserialize_fields(variants[i].fields, rest).unwrap().1 == 0) by {
                lemma_empty_fields_decode(variants[i].fields, rest);
            }
            assert(spec_deserialize(t, b + rest) == Some(
                (ToolboxIdlValueView::String(variants[i].name), size),
            ));
            lemma_find_named_at(variants, i);
            assert(spec_serialize(t, ToolboxIdlValueView::String(variants[i].name), true)
                == Some(spec_le_bytes(code as nat, size)));
            assert(spec_le_bytes(code as nat, size) =~= b);
        },
        ToolboxIdlValueView::Object(entries) => {
            let name = entries[0].0;
            let fv = entries[0].1;
            lemma_variant_named_element(variants, name);
            let i = choose|i: int|
                0 <= i < variants.len() && variants[i] == spec_variant_named(
                    variants,
                    name,
                ).unwrap() && variants[i].name == name;
            let code = variants[i].code;
            lemma_svf_at(variants, i, fv, true);
            let fb = spec_serialize_fields(variants[i].fields, fv, true).unwrap();
            let head = spec_le_bytes(code as nat, size);
            lemma_le_bytes_len(code as nat, size);
            lemma_le_bytes_val(code as nat, size);
            assert(b =~= head + fb);
            assert(b + rest =~= head + (fb + rest));
            lemma_parts(head, fb + rest);
            assert((head + (fb + rest)).take(size as int) =~= head);
            assert((head + (fb + rest)).skip(size as int) =~= fb + rest);
            lemma_find_coded_at(variants, i);
            lemma_variants_wf_at(variants, i);
            lemma_round_trip_fields(variants[i].fields, fv, rest);
            let pair = spec_deserialize_fields(variants[i].fields, fb + rest).unwrap();
            if spec_fields_is_empty(variants[i].fields) {
                lemma_empty_fields_encode(variants[i].fields, fv);
                assert(fb =~= Seq::<u8>::empty());
                assert(spec_deserialize(t, b + rest) == Some(
                    (ToolboxIdlValueView::String(variants[i].name), (size + pair.1) as nat),
                ));
                lemma_find_named_at(variants, i);
                assert(spec_serialize(
                    t,
                    ToolboxIdlValueView::String(variants[i].name),
                    true,
                ) == Some(head));
                assert(head =~= b);
            } else {
                let v2 = ToolboxIdlValueView::Object(seq![(variants[i].name, pair.0)]);
                assert(spec_deserialize(t, b + rest) == Some(
                    (v2, (size + pair.1) as nat),
                ));
                lemma_find_named_at(variants, i);
                assert(seq![(variants[i].name, pair.0)][0] == (variants[i].name, pair.0));
                lemma_svf_at(variants, i, pair.0, true);
                assert(spec_serialize(t, v2, true) == Some(head + fb));
                assert(head + fb =~= b);
            }
        },
        _ => {},
    }
}

/// Empty field lists decode to nothing consumed.
proof fn lemma_empty_fields_decode(fields: ToolboxIdlTypeFullFieldsView, bytes: Seq<u8>)
    requires
        spec_fields_is_empty(fields),
    ensures
        spec_deserialize_fields(fields, bytes) is Some,
        spec_deserialize_fields(fields, bytes).unwrap().1 == 0,
{
}

/// Encoding a value against an empty field list writes nothing.
proof fn lemma_empty_fields_encode(fields: ToolboxIdlTypeFullFieldsView, v: ToolboxIdlValueView)
    requires
        spec_fields_is_empty(fields),
        spec_serialize_fields(fields, v, true) is Some,
    ensures
        spec_serialize_fields(fields, v, true).unwrap() =~= Seq::<u8>::empty(),
{
}

/// The round trip of a primitive leaf other than a public key.
proof fn lemma_round_trip_primitive(
    primitive: ToolboxIdlTypePrimitive,
    v: ToolboxIdlValueView,
    rest: Seq<u8>,
)
    requires
        primitive != ToolboxIdlTypePrimitive::Pubkey,
        spec_serialize(
            ToolboxIdlTypeFullView::Primitive { primitive },
            v,
            true,
        ) is Some,
    ensures
        spec_round_trips(ToolboxIdlTypeFullView::Primitive { primitive }, v, rest),
{
    let t = ToolboxIdlTypeFullView::Primitive { primitive };
    let b = spec_serialize(t, v, true).unwrap();
    match primitive.spec_int_size() {
        Some(width) => {
            let n = spec_value_as_int(v).unwrap();
            let u = if primitive.spec_is_signed() {
                spec_to_unsigned(n, width)
            } else {
                n as nat
            };
            if primitive.spec_is_signed() {
                lemma_pow256_even(width);
                crate::little_endian::lemma_signed_round_trip(n, width);
            }
            assert(u < pow256(width));
            lemma_le_bytes_len(u, width);
            lemma_le_bytes_val(u, width);
            lemma_parts(b, rest);
            assert((b + rest).take(width as int) =~= spec_le_bytes(u, width));
            let n2: int = if primitive.spec_is_signed() {
                spec_to_signed(u, width)
            } else {
                u as int
            };
            assert(n2 == n);
            assert(spec_deserialize(t, b + rest) == Some((spec_int_value(n, width), width)));
            if width <= 4 {
                assert(spec_serialize(t, ToolboxIdlValueView::Number(n), true) == Some(b));
            } else {
                lemma_dec_signed_val(n);
                assert(spec_value_as_int(
                    ToolboxIdlValueView::String(spec_dec_signed(n)),
                ) == Some(n));
                assert(spec_serialize(
                    t,
                    ToolboxIdlValueView::String(spec_dec_signed(n)),
                    true,
                ) == Some(b));
            }
        },
        None => {
            match primitive {
                ToolboxIdlTypePrimitive::Bool => {
                    let flag = v->Bool_0;
                    let byte: u8 = if flag {
                        1
                    } else {
                        0
                    };
                    assert(b =~= seq![byte]);
                    assert((b + rest)[0] == byte);
                    assert((b + rest).len() >= 1);
                    assert(spec_deserialize(t, b + rest) == Some(
                        (ToolboxIdlValueView::Bool(flag), 1nat),
                    ));
                },
                _ => {},
            }
        },
    }
}

/// `256^n` is even for any positive width.
proof fn lemma_pow256_even(n: nat)
    requires
        n >= 1,
    ensures
        pow256(n) % 2 == 0,
{
    let m = pow256((n - 1) as nat);
    assert(pow256(n) == 256 * m);
    assert((256 * m) % 2 == 0) by (nonlinear_arith)
        requires
            m >= 0,
    ;
}

} // verus!
