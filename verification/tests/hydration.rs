use solana_toolbox_idl::error::ToolboxIdlError;
use solana_toolbox_idl::value::ToolboxIdlValue;
use solana_toolbox_idl::lookup::ToolboxIdlLookup;
use solana_toolbox_idl::type_flat::ToolboxIdlTypeFlat;
use solana_toolbox_idl::type_flat::ToolboxIdlTypeFlatFieldNamed;
use solana_toolbox_idl::type_flat::ToolboxIdlTypeFlatFields;
use solana_toolbox_idl::type_full::ToolboxIdlTypeFull;
use solana_toolbox_idl::type_full::ToolboxIdlTypeFullFields;
use solana_toolbox_idl::type_full::ToolboxIdlTypeFullOrConstLiteral;
use solana_toolbox_idl::type_prefix::ToolboxIdlTypePrefix;
use solana_toolbox_idl::type_primitive::ToolboxIdlTypePrimitive;
use solana_toolbox_idl::typedef::ToolboxIdlTypedef;

fn flat_prim(primitive: ToolboxIdlTypePrimitive) -> ToolboxIdlTypeFlat {
    ToolboxIdlTypeFlat::Primitive { primitive }
}

fn no_generics() -> ToolboxIdlLookup<ToolboxIdlTypeFullOrConstLiteral> {
    ToolboxIdlLookup::new()
}

fn registry_with(typedefs: Vec<ToolboxIdlTypedef>) -> ToolboxIdlLookup<ToolboxIdlTypedef> {
    let mut registry = ToolboxIdlLookup::new();
    for typedef in typedefs {
        registry.insert(typedef.name.clone(), typedef);
    }
    registry
}

fn text(s: &str) -> ToolboxIdlValue {
    ToolboxIdlValue::String(s.to_string())
}

fn simple_typedef(name: &str, type_flat: ToolboxIdlTypeFlat) -> ToolboxIdlTypedef {
    ToolboxIdlTypedef {
        name: name.to_string(),
        generics: vec![],
        repr: None,
        serialization: None,
        type_flat,
    }
}

#[test]
fn hydrate_primitive_passes_through() {
    let full = flat_prim(ToolboxIdlTypePrimitive::U8)
        .try_hydrate(&no_generics(), &registry_with(vec![]))
        .unwrap();
    assert_eq!(
        full,
        ToolboxIdlTypeFull::Primitive { primitive: ToolboxIdlTypePrimitive::U8 }
    );
}

#[test]
fn hydrate_defined_wraps_in_typedef() {
    let registry = registry_with(vec![simple_typedef(
        "MyAlias",
        flat_prim(ToolboxIdlTypePrimitive::U16),
    )]);
    let flat = ToolboxIdlTypeFlat::Defined {
        name: "MyAlias".to_string(),
        generics: vec![],
    };
    let full = flat.try_hydrate(&no_generics(), &registry).unwrap();
    match full {
        ToolboxIdlTypeFull::Typedef { name, content, .. } => {
            assert_eq!(name, "MyAlias");
            assert_eq!(
                *content,
                ToolboxIdlTypeFull::Primitive { primitive: ToolboxIdlTypePrimitive::U16 }
            );
        }
        other => panic!("expected a typedef wrapper, got {:?}", other),
    }
}

#[test]
fn hydrate_missing_typedef_is_a_lookup_error() {
    // With the binding present hydration succeeds; with it absent, the
    // failure is a lookup error naming the missing symbol's kind.
    let flat = ToolboxIdlTypeFlat::Defined {
        name: "Missing".to_string(),
        generics: vec![],
    };
    let error = flat
        .try_hydrate(&no_generics(), &registry_with(vec![]))
        .unwrap_err();
    assert!(matches!(error, ToolboxIdlError::Lookup(_)));
}

#[test]
fn hydrate_unbound_generic_is_a_lookup_error() {
    let flat = ToolboxIdlTypeFlat::Generic { symbol: "T".to_string() };
    let error = flat
        .try_hydrate(&no_generics(), &registry_with(vec![]))
        .unwrap_err();
    assert!(matches!(error, ToolboxIdlError::Lookup(_)));
    // Binding the symbol makes the same hydration succeed.
    let mut generics = ToolboxIdlLookup::new();
    generics.insert(
        "T".to_string(),
        ToolboxIdlTypeFullOrConstLiteral::ToolboxIdlTypeFull(ToolboxIdlTypeFull::Primitive {
            primitive: ToolboxIdlTypePrimitive::U8,
        }),
    );
    let full = flat.try_hydrate(&generics, &registry_with(vec![])).unwrap();
    assert_eq!(
        full,
        ToolboxIdlTypeFull::Primitive { primitive: ToolboxIdlTypePrimitive::U8 }
    );
}

#[test]
fn hydrate_generic_typedef_binds_arguments_in_order() {
    // MyPair<A, B> = struct { left: A, right: B }
    let registry = registry_with(vec![ToolboxIdlTypedef {
        name: "MyPair".to_string(),
        generics: vec!["A".to_string(), "B".to_string()],
        repr: None,
        serialization: None,
        type_flat: ToolboxIdlTypeFlat::Struct {
            fields: ToolboxIdlTypeFlatFields::Named(vec![
                ToolboxIdlTypeFlatFieldNamed {
                    name: "left".to_string(),
                    content: ToolboxIdlTypeFlat::Generic { symbol: "A".to_string() },
                },
                ToolboxIdlTypeFlatFieldNamed {
                    name: "right".to_string(),
                    content: ToolboxIdlTypeFlat::Generic { symbol: "B".to_string() },
                },
            ]),
        },
    }]);
    let flat = ToolboxIdlTypeFlat::Defined {
        name: "MyPair".to_string(),
        generics: vec![
            flat_prim(ToolboxIdlTypePrimitive::U8),
            flat_prim(ToolboxIdlTypePrimitive::U64),
        ],
    };
    let full = flat.try_hydrate(&no_generics(), &registry).unwrap();
    match full {
        ToolboxIdlTypeFull::Typedef { content, .. } => match *content {
            ToolboxIdlTypeFull::Struct {
                fields: ToolboxIdlTypeFullFields::Named(fields),
            } => {
                assert_eq!(fields.len(), 2);
                assert_eq!(fields[0].name, "left");
                assert_eq!(
                    fields[0].content,
                    ToolboxIdlTypeFull::Primitive { primitive: ToolboxIdlTypePrimitive::U8 }
                );
                assert_eq!(fields[1].name, "right");
                assert_eq!(
                    fields[1].content,
                    ToolboxIdlTypeFull::Primitive { primitive: ToolboxIdlTypePrimitive::U64 }
                );
            }
            other => panic!("expected a struct, got {:?}", other),
        },
        other => panic!("expected a typedef wrapper, got {:?}", other),
    }
}

#[test]
fn hydrate_insufficient_generics_is_an_arity_error() {
    let registry = registry_with(vec![ToolboxIdlTypedef {
        name: "MyBox".to_string(),
        generics: vec!["T".to_string()],
        repr: None,
        serialization: None,
        type_flat: ToolboxIdlTypeFlat::Generic { symbol: "T".to_string() },
    }]);
    let flat = ToolboxIdlTypeFlat::Defined {
        name: "MyBox".to_string(),
        generics: vec![],
    };
    let error = flat.try_hydrate(&no_generics(), &registry).unwrap_err();
    assert!(matches!(error, ToolboxIdlError::Arity(_)));
}

#[test]
fn hydrate_array_length_from_const_generic() {
    let flat = ToolboxIdlTypeFlat::Array {
        items: Box::new(flat_prim(ToolboxIdlTypePrimitive::U8)),
        length: Box::new(ToolboxIdlTypeFlat::Const { literal: 4 }),
    };
    let full = flat
        .try_hydrate(&no_generics(), &registry_with(vec![]))
        .unwrap();
    assert_eq!(
        full,
        ToolboxIdlTypeFull::Array {
            items: Box::new(ToolboxIdlTypeFull::Primitive {
                primitive: ToolboxIdlTypePrimitive::U8
            }),
            length: 4,
        }
    );
}

#[test]
fn hydrate_array_length_must_be_literal() {
    let flat = ToolboxIdlTypeFlat::Array {
        items: Box::new(flat_prim(ToolboxIdlTypePrimitive::U8)),
        length: Box::new(flat_prim(ToolboxIdlTypePrimitive::U8)),
    };
    let error = flat
        .try_hydrate(&no_generics(), &registry_with(vec![]))
        .unwrap_err();
    assert!(matches!(error, ToolboxIdlError::TypeMismatch(_)));
}

#[test]
fn hydrate_self_referential_typedef_fails_instead_of_looping() {
    let registry = registry_with(vec![simple_typedef(
        "Loop",
        ToolboxIdlTypeFlat::Defined { name: "Loop".to_string(), generics: vec![] },
    )]);
    let flat = ToolboxIdlTypeFlat::Defined { name: "Loop".to_string(), generics: vec![] };
    assert!(flat.try_hydrate(&no_generics(), &registry).is_err());
}

#[test]
fn hydrate_vec_and_string_keep_prefixes() {
    let flat = ToolboxIdlTypeFlat::Vec {
        prefix: ToolboxIdlTypePrefix::U16,
        items: Box::new(ToolboxIdlTypeFlat::String { prefix: ToolboxIdlTypePrefix::U64 }),
    };
    let full = flat
        .try_hydrate(&no_generics(), &registry_with(vec![]))
        .unwrap();
    assert_eq!(
        full,
        ToolboxIdlTypeFull::Vec {
            prefix: ToolboxIdlTypePrefix::U16,
            items: Box::new(ToolboxIdlTypeFull::String {
                prefix: ToolboxIdlTypePrefix::U64
            }),
        }
    );
}

#[test]
fn fixed_layout_typedef_has_fixed_encoded_size() {
    // A typedef in fixed-memory-layout mode hydrates to a type whose
    // encoding always occupies the declared in-memory size: here
    // `{a: u8, b: u32, c: u16}` laid out as C would, 12 bytes total.
    let registry = registry_with(vec![ToolboxIdlTypedef {
        name: "MyPod".to_string(),
        generics: vec![],
        repr: Some("c".to_string()),
        serialization: Some("bytemuck".to_string()),
        type_flat: ToolboxIdlTypeFlat::Struct {
            fields: ToolboxIdlTypeFlatFields::Named(vec![
                ToolboxIdlTypeFlatFieldNamed {
                    name: "a".to_string(),
                    content: flat_prim(ToolboxIdlTypePrimitive::U8),
                },
                ToolboxIdlTypeFlatFieldNamed {
                    name: "b".to_string(),
                    content: flat_prim(ToolboxIdlTypePrimitive::U32),
                },
                ToolboxIdlTypeFlatFieldNamed {
                    name: "c".to_string(),
                    content: flat_prim(ToolboxIdlTypePrimitive::U16),
                },
            ]),
        },
    }]);
    let flat = ToolboxIdlTypeFlat::Defined { name: "MyPod".to_string(), generics: vec![] };
    let full = flat.try_hydrate(&no_generics(), &registry).unwrap();
    let value = ToolboxIdlValue::Object(vec![
        ("a".to_string(), ToolboxIdlValue::Number(1)),
        ("b".to_string(), ToolboxIdlValue::Number(2)),
        ("c".to_string(), ToolboxIdlValue::Number(3)),
    ]);
    let mut data = vec![];
    full.try_serialize(&value, &mut data, true).unwrap();
    assert_eq!(data, vec![1u8, 0, 0, 0, 2, 0, 0, 0, 3, 0, 0, 0]);
    let (decoded, consumed) = full.try_deserialize(&data, 0).unwrap();
    assert_eq!(consumed, 12);
    assert_eq!(decoded, value);
}

#[test]
fn fixed_layout_rejects_variable_length_fields() {
    let registry = registry_with(vec![ToolboxIdlTypedef {
        name: "BadPod".to_string(),
        generics: vec![],
        repr: Some("c".to_string()),
        serialization: Some("bytemuck".to_string()),
        type_flat: ToolboxIdlTypeFlat::String { prefix: ToolboxIdlTypePrefix::U32 },
    }]);
    let flat = ToolboxIdlTypeFlat::Defined { name: "BadPod".to_string(), generics: vec![] };
    assert!(flat.try_hydrate(&no_generics(), &registry).is_err());
}

#[test]
fn parse_type_declarations_from_document_values() {
    // "u16" parses to a primitive.
    let t = ToolboxIdlTypeFlat::try_parse(&text("u16")).unwrap();
    assert_eq!(t, flat_prim(ToolboxIdlTypePrimitive::U16));
    // "bytes" is a byte vector, "string" a u32-prefixed string.
    assert_eq!(
        ToolboxIdlTypeFlat::try_parse(&text("bytes")).unwrap(),
        ToolboxIdlTypeFlat::Vec {
            prefix: ToolboxIdlTypePrefix::U32,
            items: Box::new(flat_prim(ToolboxIdlTypePrimitive::U8)),
        }
    );
    // ["u8", 2] is a fixed array with a const length.
    let arr = ToolboxIdlTypeFlat::try_parse(&ToolboxIdlValue::Array(vec![
        text("u8"),
        ToolboxIdlValue::Number(2),
    ]))
    .unwrap();
    assert_eq!(
        arr,
        ToolboxIdlTypeFlat::Array {
            items: Box::new(flat_prim(ToolboxIdlTypePrimitive::U8)),
            length: Box::new(ToolboxIdlTypeFlat::Const { literal: 2 }),
        }
    );
    // An unknown name is a typedef reference.
    assert_eq!(
        ToolboxIdlTypeFlat::try_parse(&text("MyAccount")).unwrap(),
        ToolboxIdlTypeFlat::Defined { name: "MyAccount".to_string(), generics: vec![] }
    );
    // {"vec": "u8"} wraps, {"generic": "T"} references a symbol.
    let vec_u8 = ToolboxIdlValue::Object(vec![("vec".to_string(), text("u8"))]);
    assert_eq!(
        ToolboxIdlTypeFlat::try_parse(&vec_u8).unwrap(),
        ToolboxIdlTypeFlat::Vec {
            prefix: ToolboxIdlTypePrefix::U32,
            items: Box::new(flat_prim(ToolboxIdlTypePrimitive::U8)),
        }
    );
}

#[test]
fn parse_struct_and_enum_declarations_then_encode() {
    // {"fields": [{"name": "u8", "type": "u8"}, {"name": "string", "type": "string"}]}
    let declaration = ToolboxIdlValue::Object(vec![(
        "fields".to_string(),
        ToolboxIdlValue::Array(vec![
            ToolboxIdlValue::Object(vec![
                ("name".to_string(), text("u8")),
                ("type".to_string(), text("u8")),
            ]),
            ToolboxIdlValue::Object(vec![
                ("name".to_string(), text("string")),
                ("type".to_string(), text("string")),
            ]),
        ]),
    )]);
    let flat = ToolboxIdlTypeFlat::try_parse(&declaration).unwrap();
    let full = flat
        .try_hydrate(&no_generics(), &registry_with(vec![]))
        .unwrap();
    let state = ToolboxIdlValue::Object(vec![
        ("u8".to_string(), ToolboxIdlValue::Number(8)),
        ("string".to_string(), text("hi")),
    ]);
    let mut data = vec![];
    full.try_serialize(&state, &mut data, true).unwrap();
    assert_eq!(data, vec![8u8, 2, 0, 0, 0, b'h', b'i']);
    // {"variants128": [{"name": "Named", "fields": [...]}, {"name": "Big", "code": "99"}]}
    let enum_declaration = ToolboxIdlValue::Object(vec![(
        "variants128".to_string(),
        ToolboxIdlValue::Array(vec![
            ToolboxIdlValue::Object(vec![(
                "name".to_string(),
                text("Named"),
            )]),
            ToolboxIdlValue::Object(vec![
                ("name".to_string(), text("Big")),
                ("code".to_string(), text("99")),
            ]),
        ]),
    )]);
    let enum_flat = ToolboxIdlTypeFlat::try_parse(&enum_declaration).unwrap();
    let enum_full = enum_flat
        .try_hydrate(&no_generics(), &registry_with(vec![]))
        .unwrap();
    let mut data = vec![];
    enum_full
        .try_serialize(&text("Big"), &mut data, true)
        .unwrap();
    assert_eq!(data, 99u128.to_le_bytes().to_vec());
}

#[test]
fn hydration_errors_carry_context_frames() {
    // A failure deep inside a typedef body surfaces with one context
    // frame per processing step on the way down.
    let registry = registry_with(vec![ToolboxIdlTypedef {
        name: "Wrapper".to_string(),
        generics: vec![],
        repr: None,
        serialization: None,
        type_flat: ToolboxIdlTypeFlat::Struct {
            fields: ToolboxIdlTypeFlatFields::Named(vec![ToolboxIdlTypeFlatFieldNamed {
                name: "inner".to_string(),
                content: ToolboxIdlTypeFlat::Generic { symbol: "T".to_string() },
            }]),
        },
    }]);
    let flat = ToolboxIdlTypeFlat::Defined { name: "Wrapper".to_string(), generics: vec![] };
    let error = flat.try_hydrate(&no_generics(), &registry).unwrap_err();
    let message = error.message();
    assert!(message.contains("typedef content"));
    assert!(message.contains("named field"));
    assert!(message.contains("unbound generic"));
}
