use solana_toolbox_idl::type_full::ToolboxIdlTypeFull;
use solana_toolbox_idl::type_full::ToolboxIdlTypeFullEnumVariant;
use solana_toolbox_idl::type_full::ToolboxIdlTypeFullFieldNamed;
use solana_toolbox_idl::type_full::ToolboxIdlTypeFullFields;
use solana_toolbox_idl::type_prefix::ToolboxIdlTypePrefix;
use solana_toolbox_idl::type_primitive::ToolboxIdlTypePrimitive;
use solana_toolbox_idl::value::ToolboxIdlValue;

fn prim(primitive: ToolboxIdlTypePrimitive) -> ToolboxIdlTypeFull {
    ToolboxIdlTypeFull::Primitive { primitive }
}

fn num(n: i128) -> ToolboxIdlValue {
    ToolboxIdlValue::Number(n)
}

fn text(s: &str) -> ToolboxIdlValue {
    ToolboxIdlValue::String(s.to_string())
}

fn obj(entries: Vec<(&str, ToolboxIdlValue)>) -> ToolboxIdlValue {
    ToolboxIdlValue::Object(
        entries.into_iter().map(|(k, v)| (k.to_string(), v)).collect(),
    )
}

fn named_struct(fields: Vec<(&str, ToolboxIdlTypeFull)>) -> ToolboxIdlTypeFull {
    ToolboxIdlTypeFull::Struct {
        fields: ToolboxIdlTypeFullFields::Named(
            fields
                .into_iter()
                .map(|(name, content)| ToolboxIdlTypeFullFieldNamed {
                    name: name.to_string(),
                    content,
                })
                .collect(),
        ),
    }
}

fn encode(t: &ToolboxIdlTypeFull, v: &ToolboxIdlValue) -> Vec<u8> {
    let mut data = vec![];
    t.try_serialize(v, &mut data, true).unwrap();
    data
}

#[test]
fn struct_with_string_encodes_and_decodes() {
    // A struct `{u8: u8, string: string}` with a u32 length prefix on the
    // string: `{"u8": 8, "string": "hi"}` becomes `[8, 2,0,0,0, 'h','i']`.
    let t = named_struct(vec![
        ("u8", prim(ToolboxIdlTypePrimitive::U8)),
        (
            "string",
            ToolboxIdlTypeFull::String { prefix: ToolboxIdlTypePrefix::U32 },
        ),
    ]);
    let v = obj(vec![("u8", num(8)), ("string", text("hi"))]);
    let data = encode(&t, &v);
    assert_eq!(data, vec![8u8, 2, 0, 0, 0, b'h', b'i']);
    let (decoded, consumed) = t.try_deserialize(&data, 0).unwrap();
    assert_eq!(consumed, data.len());
    assert_eq!(decoded, v);
}

#[test]
fn enum_with_tuple_variant_encodes() {
    // An enum with `Empty` (code 0, no fields) and `Pair(u8, u8)` (code 1),
    // with a one-byte discriminant: `{"Pair": [1, 2]}` becomes `[1, 1, 2]`.
    let t = ToolboxIdlTypeFull::Enum {
        prefix: ToolboxIdlTypePrefix::U8,
        variants: vec![
            ToolboxIdlTypeFullEnumVariant {
                name: "Empty".to_string(),
                code: 0,
                fields: ToolboxIdlTypeFullFields::Nothing,
            },
            ToolboxIdlTypeFullEnumVariant {
                name: "Pair".to_string(),
                code: 1,
                fields: ToolboxIdlTypeFullFields::Unnamed(vec![
                    solana_toolbox_idl::type_full::ToolboxIdlTypeFullFieldUnnamed {
                        position: 0,
                        content: prim(ToolboxIdlTypePrimitive::U8),
                    },
                    solana_toolbox_idl::type_full::ToolboxIdlTypeFullFieldUnnamed {
                        position: 1,
                        content: prim(ToolboxIdlTypePrimitive::U8),
                    },
                ]),
            },
        ],
    };
    let v = obj(vec![("Pair", ToolboxIdlValue::Array(vec![num(1), num(2)]))]);
    assert_eq!(encode(&t, &v), vec![1u8, 1, 2]);
    assert_eq!(encode(&t, &text("Empty")), vec![0u8]);
    let (decoded, _) = t.try_deserialize(&vec![0u8], 0).unwrap();
    assert_eq!(decoded, text("Empty"));
    let (decoded, _) = t.try_deserialize(&vec![1u8, 1, 2], 0).unwrap();
    assert_eq!(decoded, v);
}

#[test]
fn integers_encode_little_endian_and_round_trip() {
    let t = named_struct(vec![
        ("u16", prim(ToolboxIdlTypePrimitive::U16)),
        ("u64", prim(ToolboxIdlTypePrimitive::U64)),
        ("i32", prim(ToolboxIdlTypePrimitive::I32)),
        ("i128", prim(ToolboxIdlTypePrimitive::I128)),
    ]);
    let v = obj(vec![
        ("u16", num(16)),
        ("u64", text("64")),
        ("i32", num(-32)),
        ("i128", text("-128")),
    ]);
    let data = encode(&t, &v);
    let mut expected = vec![];
    expected.extend_from_slice(&16u16.to_le_bytes());
    expected.extend_from_slice(&64u64.to_le_bytes());
    expected.extend_from_slice(&(-32i32).to_le_bytes());
    expected.extend_from_slice(&(-128i128).to_le_bytes());
    assert_eq!(data, expected);
    // Native numbers for a 64-bit width encode identically to strings.
    let v2 = obj(vec![
        ("u16", num(16)),
        ("u64", num(64)),
        ("i32", num(-32)),
        ("i128", num(-128)),
    ]);
    assert_eq!(encode(&t, &v2), expected);
    // Decoding canonicalizes: small widths to numbers, wide to strings.
    let (decoded, _) = t.try_deserialize(&data, 0).unwrap();
    assert_eq!(decoded, v);
}

#[test]
fn integer_extremes_round_trip() {
    let t = named_struct(vec![
        ("u128", prim(ToolboxIdlTypePrimitive::U128)),
        ("i128", prim(ToolboxIdlTypePrimitive::I128)),
        ("i64", prim(ToolboxIdlTypePrimitive::I64)),
    ]);
    let v = obj(vec![
        ("u128", text("340282366920938463463374607431768211455")),
        ("i128", text("-170141183460469231731687303715884105728")),
        ("i64", text("-9223372036854775808")),
    ]);
    let data = encode(&t, &v);
    let mut expected = vec![];
    expected.extend_from_slice(&u128::MAX.to_le_bytes());
    expected.extend_from_slice(&i128::MIN.to_le_bytes());
    expected.extend_from_slice(&i64::MIN.to_le_bytes());
    assert_eq!(data, expected);
    let (decoded, _) = t.try_deserialize(&data, 0).unwrap();
    assert_eq!(decoded, v);
}

#[test]
fn integer_out_of_range_is_rejected() {
    let t = prim(ToolboxIdlTypePrimitive::U8);
    let mut data = vec![];
    assert!(t.try_serialize(&num(256), &mut data, true).is_err());
    assert!(t.try_serialize(&num(-1), &mut data, true).is_err());
    assert!(t.try_serialize(&text("zzz"), &mut data, true).is_err());
}

#[test]
fn bytes_accept_text_and_explicit_encodings() {
    // "bytes"-flavoured fields accept raw text, explicit byte arrays, and
    // named-encoding wrappers, all normalizing to the same bytes.
    let phrase = b"CoordinatorJoinRun";
    let vec_u8 = ToolboxIdlTypeFull::Vec {
        prefix: ToolboxIdlTypePrefix::U32,
        items: Box::new(prim(ToolboxIdlTypePrimitive::U8)),
    };
    let arr_u8 = ToolboxIdlTypeFull::Array {
        items: Box::new(prim(ToolboxIdlTypePrimitive::U8)),
        length: 18,
    };
    let mut prefixed = 18u32.to_le_bytes().to_vec();
    prefixed.extend_from_slice(phrase);

    assert_eq!(encode(&vec_u8, &text("CoordinatorJoinRun")), prefixed);
    assert_eq!(
        encode(&vec_u8, &obj(vec![("utf8", text("CoordinatorJoinRun"))])),
        prefixed
    );
    assert_eq!(
        encode(
            &vec_u8,
            &obj(vec![(
                "base16",
                text("436F6F7264696E61746F724A6F696E52756E")
            )])
        ),
        prefixed
    );
    assert_eq!(
        encode(
            &vec_u8,
            &obj(vec![("base58", text("3oEADzTpGyQHQioFsuM8mzvXf"))])
        ),
        prefixed
    );
    assert_eq!(
        encode(
            &vec_u8,
            &obj(vec![("base64", text("Q29vcmRpbmF0b3JKb2luUnVu"))])
        ),
        prefixed
    );
    let as_numbers =
        ToolboxIdlValue::Array(phrase.iter().map(|b| num(*b as i128)).collect());
    assert_eq!(encode(&vec_u8, &as_numbers), prefixed);
    // Fixed arrays take the raw bytes with no prefix and check the length.
    assert_eq!(encode(&arr_u8, &text("CoordinatorJoinRun")), phrase.to_vec());
    let mut data = vec![];
    assert!(arr_u8
        .try_serialize(&text("TooShort"), &mut data, true)
        .is_err());
}

#[test]
fn pubkey_round_trips_through_base58() {
    let t = prim(ToolboxIdlTypePrimitive::Pubkey);
    let address = "UCNcQRtrbGmvuLKA3Jv719Cc6DS4r661ZRpyZduxu2j";
    let data = encode(&t, &text(address));
    assert_eq!(data.len(), 32);
    assert_eq!(data, bs58::decode(address).into_vec().unwrap());
    let (decoded, consumed) = t.try_deserialize(&data, 0).unwrap();
    assert_eq!(consumed, 32);
    assert_eq!(decoded, text(address));
}

#[test]
fn option_and_vec_and_bool() {
    let t = ToolboxIdlTypeFull::Option {
        prefix: ToolboxIdlTypePrefix::U8,
        content: Box::new(prim(ToolboxIdlTypePrimitive::U16)),
    };
    assert_eq!(encode(&t, &ToolboxIdlValue::Null), vec![0u8]);
    assert_eq!(encode(&t, &num(7)), vec![1u8, 7, 0]);
    let (decoded, _) = t.try_deserialize(&vec![1u8, 7, 0], 0).unwrap();
    assert_eq!(decoded, num(7));
    let bool_t = prim(ToolboxIdlTypePrimitive::Bool);
    assert_eq!(encode(&bool_t, &ToolboxIdlValue::Bool(true)), vec![1u8]);
    assert!(bool_t.try_deserialize(&vec![9u8], 0).is_err());
}

#[test]
fn padded_pads_to_minimum_size() {
    let t = ToolboxIdlTypeFull::Padded {
        before: 1,
        min_size: 8,
        after: 2,
        content: Box::new(prim(ToolboxIdlTypePrimitive::U16)),
    };
    let data = encode(&t, &num(0x0201));
    assert_eq!(data, vec![0u8, 1, 2, 0, 0, 0, 0, 0]);
    let (decoded, consumed) = t.try_deserialize(&data, 0).unwrap();
    assert_eq!(consumed, 8);
    assert_eq!(decoded, num(0x0201));
}

#[test]
fn decode_with_insufficient_bytes_fails() {
    let t = ToolboxIdlTypeFull::Array {
        items: Box::new(prim(ToolboxIdlTypePrimitive::U8)),
        length: 4,
    };
    assert!(t.try_deserialize(&vec![1u8, 2, 3], 0).is_err());
    let vec_t = ToolboxIdlTypeFull::Vec {
        prefix: ToolboxIdlTypePrefix::U32,
        items: Box::new(prim(ToolboxIdlTypePrimitive::U8)),
    };
    // Length prefix promises more bytes than are available.
    assert!(vec_t.try_deserialize(&vec![5u8, 0, 0, 0, 1, 2], 0).is_err());
}

#[test]
fn floats_are_not_supported_by_the_codec() {
    let t = prim(ToolboxIdlTypePrimitive::F32);
    let mut data = vec![];
    assert!(t.try_serialize(&num(1), &mut data, true).is_err());
    assert!(t.try_deserialize(&vec![0u8, 0, 0, 0], 0).is_err());
}
