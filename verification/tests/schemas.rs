use solana_toolbox_idl::path::ToolboxIdlPath;
use solana_toolbox_idl::type_full::ToolboxIdlTypeFull;
use solana_toolbox_idl::type_full::ToolboxIdlTypeFullEnumVariant;
use solana_toolbox_idl::type_full::ToolboxIdlTypeFullFieldNamed;
use solana_toolbox_idl::type_full::ToolboxIdlTypeFullFields;
use solana_toolbox_idl::type_prefix::ToolboxIdlTypePrefix;
use solana_toolbox_idl::type_primitive::ToolboxIdlTypePrimitive;
use solana_toolbox_idl::value::ToolboxIdlValue;

fn prim(primitive: ToolboxIdlTypePrimitive) -> ToolboxIdlTypeFull {
    ToolboxIdlTypeFull::Primitive { primitive }
}

fn text(s: &str) -> ToolboxIdlValue {
    ToolboxIdlValue::String(s.to_string())
}

fn obj(entries: Vec<(&str, ToolboxIdlValue)>) -> ToolboxIdlValue {
    ToolboxIdlValue::Object(
        entries.into_iter().map(|(k, v)| (k.to_string(), v)).collect(),
    )
}

#[test]
fn schema_of_numeric_primitive() {
    let schema = prim(ToolboxIdlTypePrimitive::U64).schema(None);
    assert_eq!(
        schema,
        obj(vec![("description", text("u64")), ("type", text("number"))])
    );
}

#[test]
fn schema_of_pubkey_and_bool_and_string() {
    assert_eq!(
        prim(ToolboxIdlTypePrimitive::Pubkey).schema(None),
        obj(vec![
            ("description", text("Pubkey (base58)")),
            ("type", text("string")),
        ])
    );
    assert_eq!(
        prim(ToolboxIdlTypePrimitive::Bool).schema(None),
        obj(vec![("type", text("boolean"))])
    );
    assert_eq!(
        ToolboxIdlTypeFull::String { prefix: ToolboxIdlTypePrefix::U32 }.schema(None),
        obj(vec![("type", text("string"))])
    );
}

#[test]
fn schema_of_option_is_any_of_with_null() {
    let t = ToolboxIdlTypeFull::Option {
        prefix: ToolboxIdlTypePrefix::U8,
        content: Box::new(prim(ToolboxIdlTypePrimitive::U8)),
    };
    assert_eq!(
        t.schema(None),
        obj(vec![(
            "anyOf",
            ToolboxIdlValue::Array(vec![
                obj(vec![("description", text("u8")), ("type", text("number"))]),
                obj(vec![("type", text("null"))]),
            ])
        )])
    );
}

#[test]
fn schema_of_struct_closes_properties() {
    let t = ToolboxIdlTypeFull::Struct {
        fields: ToolboxIdlTypeFullFields::Named(vec![ToolboxIdlTypeFullFieldNamed {
            name: "amount".to_string(),
            content: prim(ToolboxIdlTypePrimitive::U32),
        }]),
    };
    assert_eq!(
        t.schema(Some("MyAccount".to_string())),
        obj(vec![
            ("description", text("MyAccount")),
            ("type", text("object")),
            (
                "properties",
                obj(vec![(
                    "amount",
                    obj(vec![("description", text("u32")), ("type", text("number"))]),
                )]),
            ),
            ("required", ToolboxIdlValue::Array(vec![text("amount")])),
            ("additionalProperties", ToolboxIdlValue::Bool(false)),
        ])
    );
}

#[test]
fn schema_of_fieldless_enum_is_a_string_enumeration() {
    let t = ToolboxIdlTypeFull::Enum {
        prefix: ToolboxIdlTypePrefix::U8,
        variants: vec![
            ToolboxIdlTypeFullEnumVariant {
                name: "On".to_string(),
                code: 0,
                fields: ToolboxIdlTypeFullFields::Nothing,
            },
            ToolboxIdlTypeFullEnumVariant {
                name: "Off".to_string(),
                code: 1,
                fields: ToolboxIdlTypeFullFields::Nothing,
            },
        ],
    };
    assert_eq!(
        t.schema(None),
        obj(vec![(
            "enum",
            ToolboxIdlValue::Array(vec![text("On"), text("Off")])
        )])
    );
}

#[test]
fn schema_is_idempotent() {
    let t = ToolboxIdlTypeFull::Typedef {
        name: "Wrapper".to_string(),
        repr: None,
        content: Box::new(ToolboxIdlTypeFull::Vec {
            prefix: ToolboxIdlTypePrefix::U32,
            items: Box::new(prim(ToolboxIdlTypePrimitive::U8)),
        }),
    };
    let first = t.schema(None);
    let second = t.schema(None);
    assert_eq!(first, second);
}

#[test]
fn type_path_walks_into_structs_and_rejects_leaves() {
    let t = ToolboxIdlTypeFull::Struct {
        fields: ToolboxIdlTypeFullFields::Named(vec![ToolboxIdlTypeFullFieldNamed {
            name: "items".to_string(),
            content: ToolboxIdlTypeFull::Array {
                items: Box::new(prim(ToolboxIdlTypePrimitive::U16)),
                length: 4,
            },
        }]),
    };
    let into_items = ToolboxIdlPath::try_parse("items.0").unwrap();
    assert_eq!(
        into_items.try_get_type_full(&t).unwrap(),
        &prim(ToolboxIdlTypePrimitive::U16)
    );
    // A leaf rejects any further traversal.
    let too_deep = ToolboxIdlPath::try_parse("items.0.anything").unwrap();
    assert!(too_deep.try_get_type_full(&t).is_err());
    // A key segment cannot address an array.
    let by_key = ToolboxIdlPath::try_parse("items.first").unwrap();
    assert!(by_key.try_get_type_full(&t).is_err());
    // An index past the array's fixed length is a bounds error.
    let out_of_bounds = ToolboxIdlPath::try_parse("items.5").unwrap();
    assert!(out_of_bounds.try_get_type_full(&t).is_err());
    let last = ToolboxIdlPath::try_parse("items.3").unwrap();
    assert_eq!(
        last.try_get_type_full(&t).unwrap(),
        &prim(ToolboxIdlTypePrimitive::U16)
    );
}
