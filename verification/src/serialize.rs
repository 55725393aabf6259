//! Encoding a dynamic value against a resolved type into the exact
//! on-chain byte layout. The mathematical encoding is the contract;
//! the executable encoder is verified to follow it byte for byte.
//!
//! In prefixed mode strings and vectors carry their length prefix; in
//! raw mode (used for address-derivation seed bytes) they carry their
//! content alone.

use vstd::prelude::*;

use crate::base16::spec_hex_decode;
use crate::decimal::spec_digits_val;
use crate::decimal::spec_is_numeric;
use crate::error::ToolboxIdlError;
use crate::little_endian::pow256;
use crate::little_endian::spec_le_bytes;
use crate::little_endian::spec_to_unsigned;
use crate::outside::base58_decode_of;
use crate::outside::base64_decode_of;
use crate::type_full::ToolboxIdlTypeFullEnumVariantView;
use crate::type_full::ToolboxIdlTypeFullFieldsView;
use crate::type_full::ToolboxIdlTypeFullView;
use crate::type_primitive::ToolboxIdlTypePrimitive;
use crate::value::spec_object_get;
use crate::value::lemma_value_entries_view;
use crate::value::lemma_value_seq_view;
use crate::value::spec_value_entries_view;
use crate::value::spec_value_seq_view;
use crate::value::ToolboxIdlValue;
use crate::value::ToolboxIdlValueView;
use crate::base16::hex_decode;
use crate::decimal::spec_char_is_digit;
use crate::little_endian::spec_wire_width;
use crate::little_endian::wire_half;
use crate::little_endian::wire_max;
use crate::little_endian::write_le_bytes;
use crate::outside::base58_decode;
use crate::outside::base64_decode;
use crate::text::string_eq_str;
use crate::type_full::lemma_type_full_fields_named_view;
use crate::type_full::lemma_type_full_fields_unnamed_view;
use crate::type_full::lemma_type_full_variants_view;
use crate::type_full::spec_type_full_variants_view;
use crate::type_full::ToolboxIdlTypeFull;
use crate::type_full::ToolboxIdlTypeFullEnumVariant;
use crate::type_full::ToolboxIdlTypeFullFields;
use crate::type_prefix::ToolboxIdlTypePrefix;
use vstd::utf8::encode_utf8;

verus! {

/// `n` zero-valued filler bytes.
pub open spec fn spec_zeros(n: nat) -> Seq<u8> {
    Seq::new(n, |i: int| 0u8)
}

/// The integer a value denotes: a number directly, or a decimal string
/// with an optional leading minus sign.
pub open spec fn spec_value_as_int(v: ToolboxIdlValueView) -> Option<int> {
    match v {
        ToolboxIdlValueView::Number(n) => Some(n),
        ToolboxIdlValueView::String(s) => {
            if s.len() >= 1 && s[0] == '-' {
                if spec_is_numeric(s.skip(1)) {
                    Some(-spec_digits_val(s.skip(1)))
                } else {
                    None
                }
            } else if spec_is_numeric(s) {
                Some(spec_digits_val(s))
            } else {
                None
            }
        },
        _ => None,
    }
}

/// The byte string a non-array value denotes for a byte-flavoured
/// type: raw UTF-8 text, or a single-key wrapper naming an explicit
/// encoding.
pub open spec fn spec_bytes_of_value(v: ToolboxIdlValueView) -> Option<Seq<u8>> {
    match v {
        ToolboxIdlValueView::String(s) => Some(encode_utf8(s)),
        ToolboxIdlValueView::Object(entries) => {
            if entries.len() == 1 {
                match entries[0].1 {
                    ToolboxIdlValueView::String(s) => {
                        if entries[0].0 == "utf8"@ {
                            Some(encode_utf8(s))
                        } else if entries[0].0 == "base16"@ {
                            spec_hex_decode(s)
                        } else if entries[0].0 == "base58"@ {
                            base58_decode_of(s)
                        } else if entries[0].0 == "base64"@ {
                            base64_decode_of(s)
                        } else {
                            None
                        }
                    },
                    _ => None,
                }
            } else {
                None
            }
        },
        _ => None,
    }
}

/// Whether a field list carries no content on the wire.
pub open spec fn spec_fields_is_empty(f: ToolboxIdlTypeFullFieldsView) -> bool {
    match f {
        ToolboxIdlTypeFullFieldsView::Nothing => true,
        ToolboxIdlTypeFullFieldsView::Named(fs) => fs.len() == 0,
        ToolboxIdlTypeFullFieldsView::Unnamed(fs) => fs.len() == 0,
    }
}

/// The first variant named `name`, whole.
pub open spec fn spec_variant_named(
    vs: Seq<ToolboxIdlTypeFullEnumVariantView>,
    name: Seq<char>,
) -> Option<ToolboxIdlTypeFullEnumVariantView>
    decreases vs.len(),
{
    if vs.len() == 0 {
        None
    } else if vs[0].name == name {
        Some(vs[0])
    } else {
        spec_variant_named(vs.skip(1), name)
    }
}

/// The first variant whose code is `code`, whole.
pub open spec fn spec_variant_coded(
    vs: Seq<ToolboxIdlTypeFullEnumVariantView>,
    code: int,
) -> Option<ToolboxIdlTypeFullEnumVariantView>
    decreases vs.len(),
{
    if vs.len() == 0 {
        None
    } else if vs[0].code as int == code {
        Some(vs[0])
    } else {
        spec_variant_coded(vs.skip(1), code)
    }
}

/// The encoding of `v` under the type `t`; `None` is failure: a value
/// of the wrong shape, an out-of-range number, an unknown variant or
/// missing field, a length that does not fit its prefix, or a
/// floating-point leaf.
pub open spec fn spec_serialize(t: ToolboxIdlTypeFullView, v: ToolboxIdlValueView, p: bool) -> Option<
    Seq<u8>,
>
    decreases t, 0int, 0int,
{
    match t {
        ToolboxIdlTypeFullView::Typedef { content, .. } => {
            proof {
                assert(decreases_to!(t => t->Typedef_content));
            }
            spec_serialize(*content, v, p)
        },
        ToolboxIdlTypeFullView::Option { prefix, content } => {
            proof {
                assert(decreases_to!(t => t->Option_content));
            }
            if v is Null {
                Some(spec_le_bytes(0, prefix.spec_size()))
            } else {
                match spec_serialize(*content, v, p) {
                    Some(cb) => Some(spec_le_bytes(1, prefix.spec_size()) + cb),
                    None => None,
                }
            }
        },
        ToolboxIdlTypeFullView::Vec { prefix, items } => {
            proof {
                assert(decreases_to!(t => t->Vec_items));
            }
            if *items == (ToolboxIdlTypeFullView::Primitive {
                primitive: ToolboxIdlTypePrimitive::U8,
            }) && !(v is Array) {
                match spec_bytes_of_value(v) {
                    Some(cb) => {
                        if p {
                            if cb.len() < pow256(prefix.spec_size()) && cb.len() <= usize::MAX {
                                Some(spec_le_bytes(cb.len() as nat, prefix.spec_size()) + cb)
                            } else {
                                None
                            }
                        } else {
                            Some(cb)
                        }
                    },
                    None => None,
                }
            } else {
                match v {
                    ToolboxIdlValueView::Array(vs) => {
                        match spec_serialize_items(*items, vs, p) {
                            Some(cb) => {
                                if p {
                                    if vs.len() < pow256(prefix.spec_size()) && vs.len()
                                        <= usize::MAX {
                                        Some(
                                            spec_le_bytes(vs.len() as nat, prefix.spec_size())
                                                + cb,
                                        )
                                    } else {
                                        None
                                    }
                                } else {
                                    Some(cb)
                                }
                            },
                            None => None,
                        }
                    },
                    _ => None,
                }
            }
        },
        ToolboxIdlTypeFullView::Array { items, length } => {
            proof {
                assert(decreases_to!(t => t->Array_items));
            }
            if *items == (ToolboxIdlTypeFullView::Primitive {
                primitive: ToolboxIdlTypePrimitive::U8,
            }) && !(v is Array) {
                match spec_bytes_of_value(v) {
                    Some(cb) => {
                        if cb.len() == length {
                            Some(cb)
                        } else {
                            None
                        }
                    },
                    None => None,
                }
            } else {
                match v {
                    ToolboxIdlValueView::Array(vs) => {
                        if vs.len() == length {
                            spec_serialize_items(*items, vs, p)
                        } else {
                            None
                        }
                    },
                    _ => None,
                }
            }
        },
        ToolboxIdlTypeFullView::String { prefix } => {
            match v {
                ToolboxIdlValueView::String(s) => {
                    let cb = encode_utf8(s);
                    if p {
                        if cb.len() < pow256(prefix.spec_size()) && cb.len() <= usize::MAX {
                            Some(spec_le_bytes(cb.len() as nat, prefix.spec_size()) + cb)
                        } else {
                            None
                        }
                    } else {
                        Some(cb)
                    }
                },
                _ => None,
            }
        },
        ToolboxIdlTypeFullView::Struct { fields } => {
            proof {
                assert(decreases_to!(t => t->Struct_fields));
            }
            spec_serialize_fields(fields, v, p)
        },
        ToolboxIdlTypeFullView::Enum { prefix, variants } => {
            proof {
                assert(decreases_to!(t => t->Enum_variants));
            }
            match v {
                ToolboxIdlValueView::String(name) => {
                    match spec_variant_named(variants, name) {
                        Some(variant) => {
                            if spec_fields_is_empty(variant.fields) && (variant.code as nat)
                                < pow256(prefix.spec_size()) {
                                Some(spec_le_bytes(variant.code as nat, prefix.spec_size()))
                            } else {
                                None
                            }
                        },
                        None => None,
                    }
                },
                ToolboxIdlValueView::Number(n) => {
                    match spec_variant_coded(variants, n) {
                        Some(variant) => {
                            if spec_fields_is_empty(variant.fields) && (variant.code as nat)
                                < pow256(prefix.spec_size()) {
                                Some(spec_le_bytes(variant.code as nat, prefix.spec_size()))
                            } else {
                                None
                            }
                        },
                        None => None,
                    }
                },
                ToolboxIdlValueView::Object(entries) => {
                    if entries.len() == 1 {
                        match spec_variant_named(variants, entries[0].0) {
                            Some(variant) => {
                                if (variant.code as nat) < pow256(prefix.spec_size()) {
                                    match spec_serialize_variant_fields(
                                        variants,
                                        entries[0].0,
                                        entries[0].1,
                                        p,
                                    ) {
                                        Some(fb) => Some(
                                            spec_le_bytes(
                                                variant.code as nat,
                                                prefix.spec_size(),
                                            ) + fb,
                                        ),
                                        None => None,
                                    }
                                } else {
                                    None
                                }
                            },
                            None => None,
                        }
                    } else {
                        None
                    }
                },
                _ => None,
            }
        },
        ToolboxIdlTypeFullView::Padded { before, min_size, after, content } => {
            proof {
                assert(decreases_to!(t => t->Padded_content));
            }
            match spec_serialize(*content, v, p) {
                Some(cb) => {
                    let padded = spec_zeros(before as nat) + cb + spec_zeros(after as nat);
                    if padded.len() >= min_size {
                        Some(padded)
                    } else {
                        Some(padded + spec_zeros((min_size - padded.len()) as nat))
                    }
                },
                None => None,
            }
        },
        ToolboxIdlTypeFullView::Primitive { primitive } => {
            match primitive.spec_int_size() {
                Some(w) => {
                    match spec_value_as_int(v) {
                        Some(n) => {
                            if primitive.spec_is_signed() {
                                if -(pow256(w) / 2) <= n < pow256(w) / 2 {
                                    Some(spec_le_bytes(spec_to_unsigned(n, w), w))
                                } else {
                                    None
                                }
                            } else {
                                if 0 <= n < pow256(w) {
                                    Some(spec_le_bytes(n as nat, w))
                                } else {
                                    None
                                }
                            }
                        },
                        None => None,
                    }
                },
                None => {
                    match primitive {
                        ToolboxIdlTypePrimitive::Bool => {
                            match v {
                                ToolboxIdlValueView::Bool(b) => Some(
                                    seq![if b { 1u8 } else { 0u8 }],
                                ),
                                _ => None,
                            }
                        },
                        ToolboxIdlTypePrimitive::Pubkey => {
                            match v {
                                ToolboxIdlValueView::String(s) => {
                                    match base58_decode_of(s) {
                                        Some(b) => {
                                            if b.len() == 32 {
                                                Some(b)
                                            } else {
                                                None
                                            }
                                        },
                                        None => None,
                                    }
                                },
                                _ => None,
                            }
                        },
                        _ => None,
                    }
                },
            }
        },
    }
}

/// The concatenated encodings of the items of an array value.
pub open spec fn spec_serialize_items(
    titem: ToolboxIdlTypeFullView,
    vs: Seq<ToolboxIdlValueView>,
    p: bool,
) -> Option<Seq<u8>>
    decreases titem, 1int, vs.len(),
{
    if vs.len() == 0 {
        Some(Seq::empty())
    } else {
        match spec_serialize(titem, vs[0], p) {
            Some(b0) => {
                match spec_serialize_items(titem, vs.skip(1), p) {
                    Some(rest) => Some(b0 + rest),
                    None => None,
                }
            },
            None => None,
        }
    }
}

/// The encoding of a field list's content.
pub open spec fn spec_serialize_fields(
    fields: ToolboxIdlTypeFullFieldsView,
    v: ToolboxIdlValueView,
    p: bool,
) -> Option<Seq<u8>>
    decreases fields, 1int, 0int,
{
    match fields {
        ToolboxIdlTypeFullFieldsView::Nothing => {
            match v {
                ToolboxIdlValueView::Null => Some(Seq::empty()),
                ToolboxIdlValueView::Object(es) => {
                    if es.len() == 0 {
                        Some(Seq::empty())
                    } else {
                        None
                    }
                },
                ToolboxIdlValueView::Array(vs) => {
                    if vs.len() == 0 {
                        Some(Seq::empty())
                    } else {
                        None
                    }
                },
                _ => None,
            }
        },
        ToolboxIdlTypeFullFieldsView::Named(fs) => {
            proof {
                assert(decreases_to!(fields => fields->Named_0));
            }
            match v {
                ToolboxIdlValueView::Object(entries) => spec_serialize_fields_named(
                    fs,
                    entries,
                    p,
                ),
                _ => None,
            }
        },
        ToolboxIdlTypeFullFieldsView::Unnamed(fs) => {
            proof {
                assert(decreases_to!(fields => fields->Unnamed_0));
            }
            match v {
                ToolboxIdlValueView::Array(vs) => {
                    if vs.len() == fs.len() {
                        spec_serialize_fields_unnamed(fs, vs, p)
                    } else {
                        None
                    }
                },
                _ => None,
            }
        },
    }
}

/// The concatenated encodings of named fields, each read from the
/// object by its name, in declaration order.
pub open spec fn spec_serialize_fields_named(
    fs: Seq<(Seq<char>, ToolboxIdlTypeFullView)>,
    entries: Seq<(Seq<char>, ToolboxIdlValueView)>,
    p: bool,
) -> Option<Seq<u8>>
    decreases fs, 1int, 0int,
{
    if fs.len() == 0 {
        Some(Seq::empty())
    } else {
        proof {
            assert(decreases_to!(fs => fs[0]));
        }
        match spec_object_get(entries, fs[0].0) {
            Some(fv) => {
                match spec_serialize(fs[0].1, fv, p) {
                    Some(b0) => {
                        match spec_serialize_fields_named(fs.skip(1), entries, p) {
                            Some(rest) => Some(b0 + rest),
                            None => None,
                        }
                    },
                    None => None,
                }
            },
            None => None,
        }
    }
}

/// The concatenated encodings of positional fields against the array's
/// items, in order.
pub open spec fn spec_serialize_fields_unnamed(
    fs: Seq<ToolboxIdlTypeFullView>,
    vs: Seq<ToolboxIdlValueView>,
    p: bool,
) -> Option<Seq<u8>>
    decreases fs, 1int, 0int,
{
    if fs.len() == 0 {
        Some(Seq::empty())
    } else if vs.len() == 0 {
        None
    } else {
        proof {
            assert(decreases_to!(fs => fs[0]));
        }
        match spec_serialize(fs[0], vs[0], p) {
            Some(b0) => {
                match spec_serialize_fields_unnamed(fs.skip(1), vs.skip(1), p) {
                    Some(rest) => Some(b0 + rest),
                    None => None,
                }
            },
            None => None,
        }
    }
}

/// The encoding of the fields of the variant named `name`.
pub open spec fn spec_serialize_variant_fields(
    variants: Seq<ToolboxIdlTypeFullEnumVariantView>,
    name: Seq<char>,
    v: ToolboxIdlValueView,
    p: bool,
) -> Option<Seq<u8>>
    decreases variants, 1int, 0int,
{
    if variants.len() == 0 {
        None
    } else if variants[0].name == name {
        proof {
            assert(decreases_to!(variants => variants[0]));
            assert(decreases_to!(variants[0] => variants[0].fields));
        }
        spec_serialize_fields(variants[0].fields, v, p)
    } else {
        spec_serialize_variant_fields(variants.skip(1), name, v, p)
    }
}

/// `Some(prefix + rest)` when `tail` is `Some(rest)`.
pub open spec fn spec_opt_cat(prefix: Seq<u8>, tail: Option<Seq<u8>>) -> Option<Seq<u8>> {
    match tail {
        Some(rest) => Some(prefix + rest),
        None => None,
    }
}

/// Skipping within the left part of a concatenation.
proof fn lemma_skip_append(a: Seq<u8>, b: Seq<u8>, k: int)
    requires
        0 <= k <= a.len(),
    ensures
        (a + b).skip(k) =~= a.skip(k) + b,
{
}

/// When `all` extends `prev`, a skip of `all` splits into the
/// corresponding skip of `prev` followed by the newly written suffix.
proof fn lemma_extend_skip(all: Seq<u8>, prev: Seq<u8>, k: int)
    requires
        0 <= k <= prev.len() <= all.len(),
        all.subrange(0, prev.len() as int) == prev,
    ensures
        all.skip(k) =~= prev.skip(k) + all.skip(prev.len() as int),
        all.subrange(0, k) =~= prev.subrange(0, k),
{
    assert forall|j: int| 0 <= j < all.len() - k implies all.skip(k)[j] == (prev.skip(k)
        + all.skip(prev.len() as int))[j] by {
        if j < prev.len() - k {
            assert(all.subrange(0, prev.len() as int)[k + j] == all[k + j]);
        }
    };
    assert forall|j: int| 0 <= j < k implies all.subrange(0, k)[j] == prev.subrange(0, k)[j] by {
        assert(all.subrange(0, prev.len() as int)[j] == all[j]);
    };
}

/// Appends `n` zero bytes.
fn push_zeros(data: &mut Vec<u8>, n: usize)
    ensures
        final(data)@ == old(data)@ + spec_zeros(n as nat),
{
    let ghost start = data@;
    let mut i: usize = 0;
    while i < n
        invariant
            0 <= i <= n,
            data@ =~= start + spec_zeros(i as nat),
        decreases n - i,
    {
        data.push(0u8);
        proof {
            assert(data@ =~= start + spec_zeros((i + 1) as nat));
        }
        i += 1;
    }
    proof {
        assert(data@ =~= start + spec_zeros(n as nat));
    }
}

/// The digits value of a wholly numeric string; the outer option is
/// whether the string is numeric, the inner whether the value fits.
pub(crate) fn str_numeric_val(s: &str) -> (r: Option<Option<u128>>)
    ensures
        match r {
            None => !spec_is_numeric(s@),
            Some(None) => spec_is_numeric(s@) && spec_digits_val(s@) > u128::MAX,
            Some(Some(v)) => spec_is_numeric(s@) && v as int == spec_digits_val(s@),
        },
{
    let n = s.unicode_len();
    if n == 0 {
        return None;
    }
    let mut i: usize = 0;
    while i < n
        invariant
            n == s@.len(),
            0 <= i <= n,
            forall|k: int| 0 <= k < i ==> spec_char_is_digit(#[trigger] s@[k]),
        decreases n - i,
    {
        let u = s.get_char(i) as u32;
        if u < 48 || u > 57 {
            return None;
        }
        i += 1;
    }
    match crate::decimal::parse_digits_u128(s) {
        Some(v) => Some(Some(v)),
        None => Some(None),
    }
}

/// The sign and magnitude of the integer a value denotes; `None` when
/// it denotes none, or when the magnitude exceeds `u128`.
fn value_signed_parts(value: &ToolboxIdlValue) -> (r: Option<(bool, u128)>)
    ensures
        match r {
            Some(parts) => spec_value_as_int(value@) == Some(
                if parts.0 {
                    -(parts.1 as int)
                } else {
                    parts.1 as int
                },
            ),
            None => match spec_value_as_int(value@) {
                Some(n) => n > u128::MAX || n < -(u128::MAX as int),
                None => true,
            },
        },
{
    match value {
        ToolboxIdlValue::Number(n) => {
            if *n >= 0 {
                Some((false, *n as u128))
            } else {
                let mag: u128 = ((-(*n + 1)) as u128) + 1;
                Some((true, mag))
            }
        },
        ToolboxIdlValue::String(s) => {
            let n = s.as_str().unicode_len();
            if n >= 1 && s.as_str().get_char(0) == '-' {
                let rest = s.as_str().substring_char(1, n);
                proof {
                    assert(rest@ =~= s@.skip(1));
                }
                match str_numeric_val(rest) {
                    None => None,
                    Some(None) => None,
                    Some(Some(v)) => Some((true, v)),
                }
            } else {
                match str_numeric_val(s.as_str()) {
                    None => None,
                    Some(None) => None,
                    Some(Some(v)) => Some((false, v)),
                }
            }
        },
        _ => None,
    }
}

/// The byte string a non-array value denotes, per
/// [`spec_bytes_of_value`].
fn value_bytes(value: &ToolboxIdlValue) -> (r: Option<Vec<u8>>)
    ensures
        match r {
            Some(b) => spec_bytes_of_value(value@) == Some(b@),
            None => spec_bytes_of_value(value@) is None,
        },
{
    match value {
        ToolboxIdlValue::String(s) => Some(s.as_str().as_bytes_vec()),
        ToolboxIdlValue::Object(entries) => {
            proof {
                lemma_value_entries_view(entries@);
            }
            if entries.len() != 1 {
                return None;
            }
            let key = &entries[0].0;
            match &entries[0].1 {
                ToolboxIdlValue::String(s) => {
                    if string_eq_str(key, "utf8") {
                        Some(s.as_str().as_bytes_vec())
                    } else if string_eq_str(key, "base16") {
                        hex_decode(s.as_str())
                    } else if string_eq_str(key, "base58") {
                        base58_decode(s.as_str())
                    } else if string_eq_str(key, "base64") {
                        base64_decode(s.as_str())
                    } else {
                        None
                    }
                },
                _ => None,
            }
        },
        _ => None,
    }
}

impl ToolboxIdlTypeFull {
    /// Appends the encoding of `value` under this type to `data`.
    /// Succeeds exactly when the mathematical encoding does, and then
    /// appends exactly its bytes.
    #[verifier::rlimit(100)]
    pub fn try_serialize(
        &self,
        value: &ToolboxIdlValue,
        data: &mut Vec<u8>,
        prefixed: bool,
    ) -> (r: Result<(), ToolboxIdlError>)
        ensures
            match r {
                Ok(_) => spec_serialize(self@, value@, prefixed) == Some(
                    final(data)@.skip(old(data)@.len() as int),
                ) && final(data)@.len() >= old(data)@.len() && final(data)@.subrange(
                    0,
                    old(data)@.len() as int,
                ) == old(data)@,
                Err(_) => spec_serialize(self@, value@, prefixed) is None,
            },
        decreases *self, 0int, 0int,
    {
        match self {
            ToolboxIdlTypeFull::Typedef { content, .. } => {
                proof {
                    assert(decreases_to!(*self => self->Typedef_content));
                }
                content.try_serialize(value, data, prefixed)
            },
            ToolboxIdlTypeFull::Option { prefix, content } => {
                proof {
                    assert(decreases_to!(*self => self->Option_content));
                    assert(spec_wire_width(prefix.spec_size()));
                    crate::little_endian::lemma_pow256_le(0nat, prefix.spec_size());
                }
                let size = prefix.size();
                let ghost start = data@;
                if let ToolboxIdlValue::Null = value {
                    write_le_bytes(data, 0, size);
                    proof {
                        assert(data@.skip(start.len() as int) =~= spec_le_bytes(
                            0,
                            prefix.spec_size(),
                        ));
                        assert(data@.subrange(0, start.len() as int) =~= start);
                    }
                    return Ok(());
                }
                write_le_bytes(data, 1, size);
                let ghost mid = data@;
                match content.try_serialize(value, data, prefixed) {
                    Ok(_) => {
                        proof {
                            lemma_extend_skip(data@, mid, start.len() as int);
                            assert(mid.skip(start.len() as int) =~= spec_le_bytes(
                                1,
                                prefix.spec_size(),
                            ));
                            assert(data@.skip(start.len() as int) =~= spec_le_bytes(
                                1,
                                prefix.spec_size(),
                            ) + data@.skip(mid.len() as int));
                            assert(mid.subrange(0, start.len() as int) =~= start);
                            assert(data@.subrange(0, start.len() as int) =~= start);
                        }
                        Ok(())
                    },
                    Err(error) => Err(error),
                }
            },
            ToolboxIdlTypeFull::Vec { prefix, items } => {
                proof {
                    assert(decreases_to!(*self => self->Vec_items));
                }
                serialize_vec(prefix, items, value, data, prefixed)
            },
            ToolboxIdlTypeFull::Array { items, length } => {
                proof {
                    assert(decreases_to!(*self => self->Array_items));
                }
                serialize_array(items, *length, value, data, prefixed)
            },
            ToolboxIdlTypeFull::String { prefix } => {
                proof {
                    assert(spec_wire_width(prefix.spec_size()));
                }
                let size = prefix.size();
                let max = wire_max(size);
                let text = match value {
                    ToolboxIdlValue::String(text) => text,
                    _ => {
                        return Err(
                            ToolboxIdlError::Codec(
                                String::from_str("string value must be text"),
                            ),
                        );
                    },
                };
                let mut content_bytes = text.as_str().as_bytes_vec();
                let ghost cb = content_bytes@;
                let ghost start = data@;
                if prefixed {
                    if (content_bytes.len() as u128) > max {
                        return Err(
                            ToolboxIdlError::Codec(
                                String::from_str("string length exceeds prefix range"),
                            ),
                        );
                    }
                    write_le_bytes(data, content_bytes.len() as u128, size);
                }
                data.append(&mut content_bytes);
                proof {
                    if prefixed {
                        assert(data@.skip(start.len() as int) =~= spec_le_bytes(
                            cb.len() as nat,
                            prefix.spec_size(),
                        ) + cb);
                    } else {
                        assert(data@.skip(start.len() as int) =~= cb);
                    }
                    assert(data@.subrange(0, start.len() as int) =~= start);
                }
                Ok(())
            },
            ToolboxIdlTypeFull::Struct { fields } => {
                proof {
                    assert(decreases_to!(*self => self->Struct_fields));
                }
                fields.try_serialize(value, data, prefixed)
            },
            ToolboxIdlTypeFull::Enum { prefix, variants } => {
                proof {
                    assert(decreases_to!(*self => self->Enum_variants));
                    assert(decreases_to!(self->Enum_variants => self->Enum_variants@));
                }
                serialize_enum(prefix, variants, value, data, prefixed)
            },
            ToolboxIdlTypeFull::Padded { before, min_size, after, content } => {
                proof {
                    assert(decreases_to!(*self => self->Padded_content));
                }
                let ghost start = data@;
                let start_len = data.len();
                push_zeros(data, *before);
                let ghost after_before = data@;
                match content.try_serialize(value, data, prefixed) {
                    Ok(_) => {},
                    Err(error) => {
                        return Err(error);
                    },
                }
                let ghost cb = data@.skip(after_before.len() as int);
                proof {
                    lemma_extend_skip(data@, after_before, start.len() as int);
                    assert(after_before.skip(start.len() as int) =~= spec_zeros(*before as nat));
                    assert(data@.skip(start.len() as int) =~= spec_zeros(*before as nat) + cb);
                    assert(after_before.subrange(0, start.len() as int) =~= start);
                    assert(data@.subrange(0, start.len() as int) =~= start);
                }
                let ghost with_content = data@;
                push_zeros(data, *after);
                let written = data.len() - start_len;
                proof {
                    lemma_skip_append(with_content, spec_zeros(*after as nat), start.len() as int);
                    assert(data@.skip(start.len() as int) =~= (spec_zeros(*before as nat) + cb)
                        + spec_zeros(*after as nat));
                    assert(data@.skip(start.len() as int) =~= spec_zeros(*before as nat) + cb
                        + spec_zeros(*after as nat));
                    assert(data@.subrange(0, start.len() as int) =~= start);
                }
                let ghost with_after = data@;
                if written < *min_size {
                    let pad = *min_size - written;
                    push_zeros(data, pad);
                    proof {
                        lemma_skip_append(with_after, spec_zeros(pad as nat), start.len() as int);
                        assert(data@.skip(start.len() as int) =~= (spec_zeros(*before as nat)
                            + cb + spec_zeros(*after as nat)) + spec_zeros(pad as nat));
                        assert(data@.subrange(0, start.len() as int) =~= start);
                    }
                } else {
                    proof {
                        assert(data@.subrange(0, start.len() as int) =~= start);
                    }
                }
                Ok(())
            },
            ToolboxIdlTypeFull::Primitive { primitive } => {
                serialize_primitive(primitive, value, data)
            },
        }
    }
}

/// Appends an enum value's discriminant and variant fields.
#[verifier::rlimit(100)]
fn serialize_enum(
    prefix: &ToolboxIdlTypePrefix,
    variants: &Vec<ToolboxIdlTypeFullEnumVariant>,
    value: &ToolboxIdlValue,
    data: &mut Vec<u8>,
    prefixed: bool,
) -> (r: Result<(), ToolboxIdlError>)
    ensures
        match r {
            Ok(_) => spec_serialize(
                ToolboxIdlTypeFullView::Enum {
                    prefix: *prefix,
                    variants: spec_type_full_variants_view(variants@),
                },
                value@,
                prefixed,
            ) == Some(final(data)@.skip(old(data)@.len() as int)) && final(data)@.len() >= old(
                data,
            )@.len() && final(data)@.subrange(0, old(data)@.len() as int) == old(data)@,
            Err(_) => spec_serialize(
                ToolboxIdlTypeFullView::Enum {
                    prefix: *prefix,
                    variants: spec_type_full_variants_view(variants@),
                },
                value@,
                prefixed,
            ) is None,
        },
    decreases variants@, 0int, 0int,
{

                let size = prefix.size();
                let max = wire_max(size);
                let ghost variants_view = spec_type_full_variants_view(variants@);
                proof {
                    lemma_type_full_variants_view(variants@);
                    assert(variants_view.skip(0int) =~= variants_view);
                }
                match value {
                    ToolboxIdlValue::String(name) => {
                        let mut i: usize = 0;
                        while i < variants.len()
                            invariant
                                0 <= i <= variants@.len(),
                                variants_view == spec_type_full_variants_view(variants@),
                                size as nat == prefix.spec_size(),
                                size <= 16,
                                max as nat == pow256(prefix.spec_size()) - 1,
                                data@ == old(data)@,
                                variants_view.len() == variants@.len(),
                                forall|j: int|
                                    0 <= j < variants@.len() ==> #[trigger] variants_view[j]
                                        == variants@[j]@,
                                value@ == ToolboxIdlValueView::String(name@),
                                spec_variant_named(variants_view.skip(i as int), name@)
                                    == spec_variant_named(variants_view, name@),
                            decreases variants@.len() - i,
                        {
                            proof {
                                assert(variants_view.skip(i as int)[0] == variants_view[i as int]);
                                assert(variants_view.skip(i as int).skip(1) =~= variants_view.skip(
                                    i + 1,
                                ));
                            }
                            if string_eq_str(&variants[i].name, name.as_str()) {
                                if !variants[i].fields.is_empty() {
                                    return Err(
                                        ToolboxIdlError::Codec(
                                            String::from_str(
                                                "enum variant with fields needs an object value",
                                            ),
                                        ),
                                    );
                                }
                                if (variants[i].code as u128) > max {
                                    return Err(
                                        ToolboxIdlError::Codec(
                                            String::from_str(
                                                "enum code exceeds prefix range",
                                            ),
                                        ),
                                    );
                                }
                                let ghost start = data@;
                                write_le_bytes(data, variants[i].code, size);
                                proof {
                                    assert(data@.skip(start.len() as int) =~= spec_le_bytes(
                                        variants@[i as int].code as nat,
                                        prefix.spec_size(),
                                    ));
                                    assert(data@.subrange(0, start.len() as int) =~= start);
                                }
                                return Ok(());
                            }
                            i += 1;
                        }
                        proof {
                            assert(variants_view.skip(variants_view.len() as int)
                                =~= Seq::<ToolboxIdlTypeFullEnumVariantView>::empty());
                        }
                        Err(ToolboxIdlError::Lookup(String::from_str("unknown enum variant")))
                    },
                    ToolboxIdlValue::Number(code_value) => {
                        let mut i: usize = 0;
                        while i < variants.len()
                            invariant
                                0 <= i <= variants@.len(),
                                variants_view == spec_type_full_variants_view(variants@),
                                size as nat == prefix.spec_size(),
                                size <= 16,
                                max as nat == pow256(prefix.spec_size()) - 1,
                                data@ == old(data)@,
                                variants_view.len() == variants@.len(),
                                forall|j: int|
                                    0 <= j < variants@.len() ==> #[trigger] variants_view[j]
                                        == variants@[j]@,
                                value@ == ToolboxIdlValueView::Number(*code_value as int),
                                spec_variant_coded(
                                    variants_view.skip(i as int),
                                    *code_value as int,
                                ) == spec_variant_coded(variants_view, *code_value as int),
                            decreases variants@.len() - i,
                        {
                            proof {
                                assert(variants_view.skip(i as int)[0] == variants_view[i as int]);
                                assert(variants_view.skip(i as int).skip(1) =~= variants_view.skip(
                                    i + 1,
                                ));
                            }
                            let matches_code = *code_value >= 0 && {
                                let cv = *code_value as u128;
                                variants[i].code == cv
                            };
                            if matches_code {
                                if !variants[i].fields.is_empty() {
                                    return Err(
                                        ToolboxIdlError::Codec(
                                            String::from_str(
                                                "enum variant with fields needs an object value",
                                            ),
                                        ),
                                    );
                                }
                                if (variants[i].code as u128) > max {
                                    return Err(
                                        ToolboxIdlError::Codec(
                                            String::from_str(
                                                "enum code exceeds prefix range",
                                            ),
                                        ),
                                    );
                                }
                                let ghost start = data@;
                                write_le_bytes(data, variants[i].code, size);
                                proof {
                                    assert(data@.skip(start.len() as int) =~= spec_le_bytes(
                                        variants@[i as int].code as nat,
                                        prefix.spec_size(),
                                    ));
                                    assert(data@.subrange(0, start.len() as int) =~= start);
                                }
                                return Ok(());
                            }
                            i += 1;
                        }
                        proof {
                            assert(variants_view.skip(variants_view.len() as int)
                                =~= Seq::<ToolboxIdlTypeFullEnumVariantView>::empty());
                        }
                        Err(ToolboxIdlError::Lookup(String::from_str("unknown enum variant")))
                    },
                    ToolboxIdlValue::Object(entries) => {
                        proof {
                            lemma_value_entries_view(entries@);
                        }
                        if entries.len() != 1 {
                            return Err(
                                ToolboxIdlError::Codec(
                                    String::from_str("enum object needs exactly one key"),
                                ),
                            );
                        }
                        let name = &entries[0].0;
                        let field_value = &entries[0].1;
                        let mut i: usize = 0;
                        while i < variants.len()
                            invariant
                                0 <= i <= variants@.len(),
                                variants_view == spec_type_full_variants_view(variants@),
                                size as nat == prefix.spec_size(),
                                size <= 16,
                                max as nat == pow256(prefix.spec_size()) - 1,
                                data@ == old(data)@,
                                variants_view.len() == variants@.len(),
                                forall|j: int|
                                    0 <= j < variants@.len() ==> #[trigger] variants_view[j]
                                        == variants@[j]@,
                                value@ == ToolboxIdlValueView::Object(
                                    spec_value_entries_view(entries@),
                                ),
                                spec_value_entries_view(entries@).len() == 1,
                                name@ == spec_value_entries_view(entries@)[0].0,
                                field_value@ == spec_value_entries_view(entries@)[0].1,
                                spec_variant_named(variants_view.skip(i as int), name@)
                                    == spec_variant_named(variants_view, name@),
                                spec_serialize_variant_fields(
                                    variants_view.skip(i as int),
                                    name@,
                                    field_value@,
                                    prefixed,
                                ) == spec_serialize_variant_fields(
                                    variants_view,
                                    name@,
                                    field_value@,
                                    prefixed,
                                ),
                            decreases variants@.len() - i,
                        {
                            proof {
                                assert(variants_view.skip(i as int)[0] == variants_view[i as int]);
                                assert(variants_view.skip(i as int).skip(1) =~= variants_view.skip(
                                    i + 1,
                                ));
                            }
                            if string_eq_str(&variants[i].name, name.as_str()) {
                                if (variants[i].code as u128) > max {
                                    return Err(
                                        ToolboxIdlError::Codec(
                                            String::from_str(
                                                "enum code exceeds prefix range",
                                            ),
                                        ),
                                    );
                                }
                                let ghost start = data@;
                                write_le_bytes(data, variants[i].code, size);
                                let ghost mid = data@;
                                proof {
                                    assert(decreases_to!(variants@ => variants@[i as int]));
                                    assert(decreases_to!(variants@[i as int] => variants@[
                                        i as int
                                    ].fields));
                                }
                                match variants[i].fields.try_serialize(
                                    field_value,
                                    data,
                                    prefixed,
                                ) {
                                    Ok(_) => {
                                        proof {
                                            lemma_extend_skip(data@, mid, start.len() as int);
                                            assert(mid.skip(start.len() as int)
                                                =~= spec_le_bytes(
                                                variants@[i as int].code as nat,
                                                prefix.spec_size(),
                                            ));
                                            assert(data@.skip(start.len() as int)
                                                =~= spec_le_bytes(
                                                variants@[i as int].code as nat,
                                                prefix.spec_size(),
                                            ) + data@.skip(mid.len() as int));
                                            assert(mid.subrange(0, start.len() as int)
                                                =~= start);
                                            assert(data@.subrange(0, start.len() as int)
                                                =~= start);
                                        }
                                        return Ok(());
                                    },
                                    Err(error) => {
                                        return Err(error);
                                    },
                                }
                            }
                            i += 1;
                        }
                        proof {
                            assert(variants_view.skip(variants_view.len() as int)
                                =~= Seq::<ToolboxIdlTypeFullEnumVariantView>::empty());
                        }
                        Err(ToolboxIdlError::Lookup(String::from_str("unknown enum variant")))
                    },
                    _ => Err(
                        ToolboxIdlError::Codec(
                            String::from_str("enum value must be a name, code or object"),
                        ),
                    ),
                }
}

/// Appends a primitive value's bytes.
fn serialize_primitive(
    primitive: &ToolboxIdlTypePrimitive,
    value: &ToolboxIdlValue,
    data: &mut Vec<u8>,
) -> (r: Result<(), ToolboxIdlError>)
    ensures
        match r {
            Ok(_) => spec_serialize(
                ToolboxIdlTypeFullView::Primitive { primitive: *primitive },
                value@,
                false,
            ) == Some(final(data)@.skip(old(data)@.len() as int)) && final(data)@.len() >= old(
                data,
            )@.len() && final(data)@.subrange(0, old(data)@.len() as int) == old(data)@,
            Err(_) => spec_serialize(
                ToolboxIdlTypeFullView::Primitive { primitive: *primitive },
                value@,
                false,
            ) is None,
        },
{
    let ghost start = data@;
    match primitive.int_size() {
                    Some(width) => {
                        proof {
                            assert(spec_wire_width(width as nat));
                            crate::little_endian::lemma_pow256_values();
                        }
                        let signed = primitive.is_signed();
                        let parts = match value_signed_parts(value) {
                            Some(parts) => parts,
                            None => {
                                proof {
                                    if spec_value_as_int(value@) is Some {
                                        crate::little_endian::lemma_pow256_le(
                                            width as nat,
                                            16nat,
                                        );
                                    }
                                }
                                return Err(
                                    ToolboxIdlError::Codec(
                                        String::from_str("value is not an integer in range"),
                                    ),
                                );
                            },
                        };
                        let (negative, magnitude) = parts;
                        if signed {
                            let half = wire_half(width);
                            let in_range = if negative {
                                magnitude <= half
                            } else {
                                magnitude < half
                            };
                            if !in_range {
                                return Err(
                                    ToolboxIdlError::Codec(
                                        String::from_str("integer out of range"),
                                    ),
                                );
                            }
                            let unsigned_value: u128 = if negative && magnitude > 0 {
                                wire_max(width) - (magnitude - 1)
                            } else {
                                magnitude
                            };
                            write_le_bytes(data, unsigned_value, width);
                            proof {
                                assert(data@.skip(start.len() as int) =~= spec_le_bytes(
                                    unsigned_value as nat,
                                    width as nat,
                                ));
                                assert(data@.subrange(0, start.len() as int) =~= start);
                            }
                            Ok(())
                        } else {
                            if negative && magnitude > 0 {
                                return Err(
                                    ToolboxIdlError::Codec(
                                        String::from_str("integer out of range"),
                                    ),
                                );
                            }
                            if magnitude > wire_max(width) {
                                return Err(
                                    ToolboxIdlError::Codec(
                                        String::from_str("integer out of range"),
                                    ),
                                );
                            }
                            write_le_bytes(data, magnitude, width);
                            proof {
                                assert(data@.skip(start.len() as int) =~= spec_le_bytes(
                                    magnitude as nat,
                                    width as nat,
                                ));
                                assert(data@.subrange(0, start.len() as int) =~= start);
                            }
                            Ok(())
                        }
                    },
                    None => {
                        match primitive {
                            ToolboxIdlTypePrimitive::Bool => {
                                match value {
                                    ToolboxIdlValue::Bool(b) => {
                                        let byte: u8 = if *b {
                                            1
                                        } else {
                                            0
                                        };
                                        data.push(byte);
                                        proof {
                                            assert(data@.skip(start.len() as int)
                                                =~= seq![byte]);
                                            assert(data@.subrange(0, start.len() as int)
                                                =~= start);
                                        }
                                        Ok(())
                                    },
                                    _ => Err(
                                        ToolboxIdlError::Codec(
                                            String::from_str("bool value expected"),
                                        ),
                                    ),
                                }
                            },
                            ToolboxIdlTypePrimitive::Pubkey => {
                                match value {
                                    ToolboxIdlValue::String(text) => {
                                        match base58_decode(text.as_str()) {
                                            Some(decoded) => {
                                                if decoded.len() != 32 {
                                                    return Err(
                                                        ToolboxIdlError::Codec(
                                                            String::from_str(
                                                                "pubkey must decode to 32 bytes",
                                                            ),
                                                        ),
                                                    );
                                                }
                                                let mut decoded = decoded;
                                                let ghost db = decoded@;
                                                data.append(&mut decoded);
                                                proof {
                                                    assert(data@.skip(start.len() as int)
                                                        =~= db);
                                                    assert(data@.subrange(
                                                        0,
                                                        start.len() as int,
                                                    ) =~= start);
                                                }
                                                Ok(())
                                            },
                                            None => Err(
                                                ToolboxIdlError::Codec(
                                                    String::from_str("pubkey is not base58"),
                                                ),
                                            ),
                                        }
                                    },
                                    _ => Err(
                                        ToolboxIdlError::Codec(
                                            String::from_str("pubkey value must be text"),
                                        ),
                                    ),
                                }
                            },
                            _ => Err(
                                ToolboxIdlError::Codec(
                                    String::from_str("floating point is not supported"),
                                ),
                            ),
                        }
                    },
                }
}

/// Appends a length-prefixed collection's encoding.
fn serialize_vec(
    prefix: &ToolboxIdlTypePrefix,
    items: &ToolboxIdlTypeFull,
    value: &ToolboxIdlValue,
    data: &mut Vec<u8>,
    prefixed: bool,
) -> (r: Result<(), ToolboxIdlError>)
    ensures
        match r {
            Ok(_) => spec_serialize(
                ToolboxIdlTypeFullView::Vec {
                    prefix: *prefix,
                    items: Box::new(items@),
                },
                value@,
                prefixed,
            ) == Some(final(data)@.skip(old(data)@.len() as int)) && final(data)@.len() >= old(
                data,
            )@.len() && final(data)@.subrange(0, old(data)@.len() as int) == old(data)@,
            Err(_) => spec_serialize(
                ToolboxIdlTypeFullView::Vec {
                    prefix: *prefix,
                    items: Box::new(items@),
                },
                value@,
                prefixed,
            ) is None,
        },
    decreases *items, 2int, 0int,
{
    proof {
        assert(spec_wire_width(prefix.spec_size()));
    }

                let size = prefix.size();
                let max = wire_max(size);
                let is_bytes = items.is_primitive(&ToolboxIdlTypePrimitive::U8);
                let is_array_value = match value {
                    ToolboxIdlValue::Array(_) => true,
                    _ => false,
                };
                if is_bytes && !is_array_value {
                    let content_bytes = match value_bytes(value) {
                        Some(b) => b,
                        None => {
                            return Err(
                                ToolboxIdlError::Codec(
                                    String::from_str("unsupported byte content value"),
                                ),
                            );
                        },
                    };
                    let ghost start = data@;
                    if prefixed {
                        if (content_bytes.len() as u128) > max {
                            return Err(
                                ToolboxIdlError::Codec(
                                    String::from_str("byte length exceeds prefix range"),
                                ),
                            );
                        }
                        write_le_bytes(data, content_bytes.len() as u128, size);
                    }
                    let ghost mid = data@;
                    let mut content_bytes = content_bytes;
                    let ghost cb = content_bytes@;
                    data.append(&mut content_bytes);
                    proof {
                        if prefixed {
                            assert(data@.skip(start.len() as int) =~= spec_le_bytes(
                                cb.len() as nat,
                                prefix.spec_size(),
                            ) + cb);
                        } else {
                            assert(data@.skip(start.len() as int) =~= cb);
                        }
                        assert(data@.subrange(0, start.len() as int) =~= start);
                    }
                    return Ok(());
                }
                let item_values = match value {
                    ToolboxIdlValue::Array(item_values) => item_values,
                    _ => {
                        return Err(
                            ToolboxIdlError::Codec(
                                String::from_str("vec value must be an array"),
                            ),
                        );
                    },
                };
                proof {
                    lemma_value_seq_view(item_values@);
                }
                let ghost start = data@;
                if prefixed {
                    if (item_values.len() as u128) > max {
                        return Err(
                            ToolboxIdlError::Codec(
                                String::from_str("vec length exceeds prefix range"),
                            ),
                        );
                    }
                    write_le_bytes(data, item_values.len() as u128, size);
                }
                let ghost mid = data@;
                match serialize_items(items, item_values, data, prefixed) {
                    Ok(_) => {
                        proof {
                            lemma_extend_skip(data@, mid, start.len() as int);
                            if prefixed {
                                assert(mid.skip(start.len() as int) =~= spec_le_bytes(
                                    item_values@.len() as nat,
                                    prefix.spec_size(),
                                ));
                                assert(data@.skip(start.len() as int) =~= spec_le_bytes(
                                    item_values@.len() as nat,
                                    prefix.spec_size(),
                                ) + data@.skip(mid.len() as int));
                            } else {
                                assert(mid.skip(start.len() as int) =~= Seq::<u8>::empty());
                                assert(data@.skip(start.len() as int) =~= data@.skip(
                                    mid.len() as int,
                                ));
                            }
                            assert(mid.subrange(0, start.len() as int) =~= start);
                            assert(data@.subrange(0, start.len() as int) =~= start);
                        }
                        Ok(())
                    },
                    Err(error) => Err(error),
                }
}

/// Appends a fixed-length collection's encoding.
fn serialize_array(
    items: &ToolboxIdlTypeFull,
    length: usize,
    value: &ToolboxIdlValue,
    data: &mut Vec<u8>,
    prefixed: bool,
) -> (r: Result<(), ToolboxIdlError>)
    ensures
        match r {
            Ok(_) => spec_serialize(
                ToolboxIdlTypeFullView::Array {
                    items: Box::new(items@),
                    length: length,
                },
                value@,
                prefixed,
            ) == Some(final(data)@.skip(old(data)@.len() as int)) && final(data)@.len() >= old(
                data,
            )@.len() && final(data)@.subrange(0, old(data)@.len() as int) == old(data)@,
            Err(_) => spec_serialize(
                ToolboxIdlTypeFullView::Array {
                    items: Box::new(items@),
                    length: length,
                },
                value@,
                prefixed,
            ) is None,
        },
    decreases *items, 2int, 0int,
{

                let is_bytes = items.is_primitive(&ToolboxIdlTypePrimitive::U8);
                let is_array_value = match value {
                    ToolboxIdlValue::Array(_) => true,
                    _ => false,
                };
                if is_bytes && !is_array_value {
                    let content_bytes = match value_bytes(value) {
                        Some(b) => b,
                        None => {
                            return Err(
                                ToolboxIdlError::Codec(
                                    String::from_str("unsupported byte content value"),
                                ),
                            );
                        },
                    };
                    if content_bytes.len() != length {
                        return Err(
                            ToolboxIdlError::Codec(
                                String::from_str("byte content length mismatch"),
                            ),
                        );
                    }
                    let ghost start = data@;
                    let mut content_bytes = content_bytes;
                    let ghost cb = content_bytes@;
                    data.append(&mut content_bytes);
                    proof {
                        assert(data@.skip(start.len() as int) =~= cb);
                        assert(data@.subrange(0, start.len() as int) =~= start);
                    }
                    return Ok(());
                }
                let item_values = match value {
                    ToolboxIdlValue::Array(item_values) => item_values,
                    _ => {
                        return Err(
                            ToolboxIdlError::Codec(
                                String::from_str("array value must be an array"),
                            ),
                        );
                    },
                };
                proof {
                    lemma_value_seq_view(item_values@);
                }
                if item_values.len() != length {
                    return Err(
                        ToolboxIdlError::Codec(String::from_str("array length mismatch")),
                    );
                }
                serialize_items(items, item_values, data, prefixed)
}

/// Appends the encodings of the items of an array value.
fn serialize_items(
    items: &ToolboxIdlTypeFull,
    item_values: &Vec<ToolboxIdlValue>,
    data: &mut Vec<u8>,
    prefixed: bool,
) -> (r: Result<(), ToolboxIdlError>)
    ensures
        match r {
            Ok(_) => spec_serialize_items(items@, spec_value_seq_view(item_values@), prefixed)
                == Some(final(data)@.skip(old(data)@.len() as int)) && final(data)@.len()
                >= old(data)@.len() && final(data)@.subrange(0, old(data)@.len() as int) == old(
                data,
            )@,
            Err(_) => spec_serialize_items(
                items@,
                spec_value_seq_view(item_values@),
                prefixed,
            ) is None,
        },
    decreases *items, 1int, 0int,
{
    let ghost values_view = spec_value_seq_view(item_values@);
    let ghost start = data@;
    proof {
        lemma_value_seq_view(item_values@);
        assert(values_view.skip(0int) =~= values_view);
        assert(data@.skip(start.len() as int) =~= Seq::<u8>::empty());
    }
    let mut i: usize = 0;
    while i < item_values.len()
        invariant
            0 <= i <= item_values@.len(),
            values_view == spec_value_seq_view(item_values@),
            values_view.len() == item_values@.len(),
            forall|j: int|
                0 <= j < item_values@.len() ==> #[trigger] values_view[j] == item_values@[j]@,
            data@.len() >= start.len(),
            data@.subrange(0, start.len() as int) == start,
            spec_serialize_items(items@, values_view, prefixed) == spec_opt_cat(
                data@.skip(start.len() as int),
                spec_serialize_items(items@, values_view.skip(i as int), prefixed),
            ),
        decreases item_values@.len() - i,
    {
        proof {
            assert(values_view.skip(i as int)[0] == values_view[i as int]);
            assert(values_view.skip(i as int).skip(1) =~= values_view.skip(i + 1));
        }
        let ghost mid = data@;
        match items.try_serialize(&item_values[i], data, prefixed) {
            Ok(_) => {
                proof {
                    let acc = mid.skip(start.len() as int);
                    let piece = data@.skip(mid.len() as int);
                    lemma_extend_skip(data@, mid, start.len() as int);
                    assert(data@.skip(start.len() as int) =~= acc + piece);
                    assert(mid.subrange(0, start.len() as int) =~= start);
                    assert(data@.subrange(0, start.len() as int) =~= start);
                    if spec_serialize_items(items@, values_view.skip(i + 1), prefixed)
                        is Some {
                        assert(acc + (piece + spec_serialize_items(
                            items@,
                            values_view.skip(i + 1),
                            prefixed,
                        ).unwrap()) =~= (acc + piece) + spec_serialize_items(
                            items@,
                            values_view.skip(i + 1),
                            prefixed,
                        ).unwrap());
                    }
                }
            },
            Err(error) => {
                return Err(error);
            },
        }
        i += 1;
    }
    proof {
        assert(values_view.skip(values_view.len() as int)
            =~= Seq::<ToolboxIdlValueView>::empty());
        assert(data@.skip(start.len() as int) + Seq::<u8>::empty() =~= data@.skip(
            start.len() as int,
        ));
    }
    Ok(())
}

impl ToolboxIdlTypeFullFields {
    /// Appends the encoding of a field list's content to `data`.
    pub fn try_serialize(
        &self,
        value: &ToolboxIdlValue,
        data: &mut Vec<u8>,
        prefixed: bool,
    ) -> (r: Result<(), ToolboxIdlError>)
        ensures
            match r {
                Ok(_) => spec_serialize_fields(self@, value@, prefixed) == Some(
                    final(data)@.skip(old(data)@.len() as int),
                ) && final(data)@.len() >= old(data)@.len() && final(data)@.subrange(
                    0,
                    old(data)@.len() as int,
                ) == old(data)@,
                Err(_) => spec_serialize_fields(self@, value@, prefixed) is None,
            },
        decreases *self, 1int, 0int,
    {
        let ghost start = data@;
        match self {
            ToolboxIdlTypeFullFields::Nothing => {
                let ok = match value {
                    ToolboxIdlValue::Null => true,
                    ToolboxIdlValue::Object(es) => es.len() == 0,
                    ToolboxIdlValue::Array(vs) => vs.len() == 0,
                    _ => false,
                };
                proof {
                    match value {
                        ToolboxIdlValue::Object(es) => {
                            lemma_value_entries_view(es@);
                        },
                        ToolboxIdlValue::Array(vs) => {
                            lemma_value_seq_view(vs@);
                        },
                        _ => {},
                    }
                }
                if ok {
                    proof {
                        assert(data@.skip(start.len() as int) =~= Seq::<u8>::empty());
                        assert(data@.subrange(0, start.len() as int) =~= start);
                    }
                    Ok(())
                } else {
                    Err(ToolboxIdlError::Codec(String::from_str("no fields expected")))
                }
            },
            ToolboxIdlTypeFullFields::Named(fields) => {
                let entries = match value {
                    ToolboxIdlValue::Object(entries) => entries,
                    _ => {
                        return Err(
                            ToolboxIdlError::Codec(
                                String::from_str("named fields need an object value"),
                            ),
                        );
                    },
                };
                let ghost fields_view = self@->Named_0;
                proof {
                    lemma_type_full_fields_named_view(fields@);
                    assert(fields_view.skip(0int) =~= fields_view);
                    assert(data@.skip(start.len() as int) =~= Seq::<u8>::empty());
                }
                let mut i: usize = 0;
                while i < fields.len()
                    invariant
                        0 <= i <= fields@.len(),
                        self is Named,
                        fields == self->Named_0,
                        value is Object,
                        entries == value->Object_0,
                        fields_view == self@->Named_0,
                        fields_view.len() == fields@.len(),
                        forall|j: int|
                            0 <= j < fields@.len() ==> #[trigger] fields_view[j]
                                == (fields@[j].name@, fields@[j].content@),
                        data@.len() >= start.len(),
                        data@.subrange(0, start.len() as int) == start,
                        spec_serialize_fields_named(
                            fields_view,
                            spec_value_entries_view(entries@),
                            prefixed,
                        ) == spec_opt_cat(
                            data@.skip(start.len() as int),
                            spec_serialize_fields_named(
                                fields_view.skip(i as int),
                                spec_value_entries_view(entries@),
                                prefixed,
                            ),
                        ),
                    decreases fields@.len() - i,
                {
                    proof {
                        assert(fields_view.skip(i as int)[0] == fields_view[i as int]);
                        assert(fields_view.skip(i as int).skip(1) =~= fields_view.skip(i + 1));
                    }
                    let field = &fields[i];
                    let field_value = match crate::value::object_get(
                        entries,
                        field.name.as_str(),
                    ) {
                        Some(field_value) => field_value,
                        None => {
                            return Err(
                                ToolboxIdlError::Lookup(
                                    String::from_str("missing object field"),
                                ),
                            );
                        },
                    };
                    let ghost mid = data@;
                    proof {
                        assert(decreases_to!(*self => self->Named_0));
                        assert(decreases_to!(self->Named_0 => self->Named_0@));
                        assert(decreases_to!(self->Named_0@ => self->Named_0@[i as int]));
                        assert(decreases_to!(self->Named_0@[i as int] => self->Named_0@[
                            i as int
                        ].content));
                    }
                    match field.content.try_serialize(field_value, data, prefixed) {
                        Ok(_) => {
                            proof {
                                let acc = mid.skip(start.len() as int);
                                let piece = data@.skip(mid.len() as int);
                                lemma_extend_skip(data@, mid, start.len() as int);
                                assert(data@.skip(start.len() as int) =~= acc + piece);
                                assert(mid.subrange(0, start.len() as int) =~= start);
                                assert(data@.subrange(0, start.len() as int) =~= start);
                                if spec_serialize_fields_named(
                                    fields_view.skip(i + 1),
                                    spec_value_entries_view(entries@),
                                    prefixed,
                                ) is Some {
                                    assert(acc + (piece + spec_serialize_fields_named(
                                        fields_view.skip(i + 1),
                                        spec_value_entries_view(entries@),
                                        prefixed,
                                    ).unwrap()) =~= (acc + piece)
                                        + spec_serialize_fields_named(
                                        fields_view.skip(i + 1),
                                        spec_value_entries_view(entries@),
                                        prefixed,
                                    ).unwrap());
                                }
                            }
                        },
                        Err(error) => {
                            return Err(error);
                        },
                    }
                    i += 1;
                }
                proof {
                    assert(fields_view.skip(fields_view.len() as int)
                        =~= Seq::<(Seq<char>, ToolboxIdlTypeFullView)>::empty());
                    assert(data@.skip(start.len() as int) + Seq::<u8>::empty() =~= data@.skip(
                        start.len() as int,
                    ));
                }
                Ok(())
            },
            ToolboxIdlTypeFullFields::Unnamed(fields) => {
                let item_values = match value {
                    ToolboxIdlValue::Array(item_values) => item_values,
                    _ => {
                        return Err(
                            ToolboxIdlError::Codec(
                                String::from_str("positional fields need an array value"),
                            ),
                        );
                    },
                };
                let ghost fields_view = self@->Unnamed_0;
                let ghost values_view = spec_value_seq_view(item_values@);
                proof {
                    lemma_type_full_fields_unnamed_view(fields@);
                    lemma_value_seq_view(item_values@);
                }
                if item_values.len() != fields.len() {
                    return Err(
                        ToolboxIdlError::Codec(String::from_str("field count mismatch")),
                    );
                }
                proof {
                    assert(fields_view.skip(0int) =~= fields_view);
                    assert(values_view.skip(0int) =~= values_view);
                    assert(data@.skip(start.len() as int) =~= Seq::<u8>::empty());
                }
                let mut i: usize = 0;
                while i < fields.len()
                    invariant
                        0 <= i <= fields@.len(),
                        self is Unnamed,
                        fields == self->Unnamed_0,
                        value is Array,
                        item_values == value->Array_0,
                        item_values@.len() == fields@.len(),
                        fields_view == self@->Unnamed_0,
                        fields_view.len() == fields@.len(),
                        values_view == spec_value_seq_view(item_values@),
                        values_view.len() == item_values@.len(),
                        forall|j: int|
                            0 <= j < fields@.len() ==> #[trigger] fields_view[j]
                                == fields@[j].content@,
                        forall|j: int|
                            0 <= j < item_values@.len() ==> #[trigger] values_view[j]
                                == item_values@[j]@,
                        data@.len() >= start.len(),
                        data@.subrange(0, start.len() as int) == start,
                        spec_serialize_fields_unnamed(fields_view, values_view, prefixed)
                            == spec_opt_cat(
                            data@.skip(start.len() as int),
                            spec_serialize_fields_unnamed(
                                fields_view.skip(i as int),
                                values_view.skip(i as int),
                                prefixed,
                            ),
                        ),
                    decreases fields@.len() - i,
                {
                    proof {
                        assert(fields_view.skip(i as int)[0] == fields_view[i as int]);
                        assert(fields_view.skip(i as int).skip(1) =~= fields_view.skip(i + 1));
                        assert(values_view.skip(i as int)[0] == values_view[i as int]);
                        assert(values_view.skip(i as int).skip(1) =~= values_view.skip(i + 1));
                    }
                    let field = &fields[i];
                    let ghost mid = data@;
                    proof {
                        assert(decreases_to!(*self => self->Unnamed_0));
                        assert(decreases_to!(self->Unnamed_0 => self->Unnamed_0@));
                        assert(decreases_to!(self->Unnamed_0@ => self->Unnamed_0@[i as int]));
                        assert(decreases_to!(self->Unnamed_0@[i as int] => self->Unnamed_0@[
                            i as int
                        ].content));
                    }
                    match field.content.try_serialize(&item_values[i], data, prefixed) {
                        Ok(_) => {
                            proof {
                                let acc = mid.skip(start.len() as int);
                                let piece = data@.skip(mid.len() as int);
                                lemma_extend_skip(data@, mid, start.len() as int);
                                assert(data@.skip(start.len() as int) =~= acc + piece);
                                assert(mid.subrange(0, start.len() as int) =~= start);
                                assert(data@.subrange(0, start.len() as int) =~= start);
                                if spec_serialize_fields_unnamed(
                                    fields_view.skip(i + 1),
                                    values_view.skip(i + 1),
                                    prefixed,
                                ) is Some {
                                    assert(acc + (piece + spec_serialize_fields_unnamed(
                                        fields_view.skip(i + 1),
                                        values_view.skip(i + 1),
                                        prefixed,
                                    ).unwrap()) =~= (acc + piece)
                                        + spec_serialize_fields_unnamed(
                                        fields_view.skip(i + 1),
                                        values_view.skip(i + 1),
                                        prefixed,
                                    ).unwrap());
                                }
                            }
                        },
                        Err(error) => {
                            return Err(error);
                        },
                    }
                    i += 1;
                }
                proof {
                    assert(fields_view.skip(fields_view.len() as int)
                        =~= Seq::<ToolboxIdlTypeFullView>::empty());
                    assert(values_view.skip(values_view.len() as int)
                        =~= Seq::<ToolboxIdlValueView>::empty());
                    assert(data@.skip(start.len() as int) + Seq::<u8>::empty() =~= data@.skip(
                        start.len() as int,
                    ));
                }
                Ok(())
            },
        }
    }
}

} // verus!
