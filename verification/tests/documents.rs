use solana_toolbox_idl::account::ToolboxIdlInstructionAccount;
use solana_toolbox_idl::blob::ToolboxIdlInstructionBlob;
use solana_toolbox_idl::error::ToolboxIdlError;
use solana_toolbox_idl::format::ToolboxIdlFormat;
use solana_toolbox_idl::lookup::ToolboxIdlLookup;
use solana_toolbox_idl::pubkey::find_anchor_address;
use solana_toolbox_idl::pubkey::ToolboxIdlPubkey;
use solana_toolbox_idl::type_flat::ToolboxIdlTypeFlat;
use solana_toolbox_idl::type_full::ToolboxIdlTypeFull;
use solana_toolbox_idl::type_full::ToolboxIdlTypeFullFieldNamed;
use solana_toolbox_idl::type_full::ToolboxIdlTypeFullFields;
use solana_toolbox_idl::type_prefix::ToolboxIdlTypePrefix;
use solana_toolbox_idl::type_primitive::ToolboxIdlTypePrimitive;
use solana_toolbox_idl::value::ToolboxIdlValue;

fn text(s: &str) -> ToolboxIdlValue {
    ToolboxIdlValue::String(s.to_string())
}

fn obj(entries: Vec<(&str, ToolboxIdlValue)>) -> ToolboxIdlValue {
    ToolboxIdlValue::Object(
        entries.into_iter().map(|(k, v)| (k.to_string(), v)).collect(),
    )
}

fn args_fields() -> ToolboxIdlTypeFullFields {
    ToolboxIdlTypeFullFields::Named(vec![ToolboxIdlTypeFullFieldNamed {
        name: "amount".to_string(),
        content: ToolboxIdlTypeFull::Primitive { primitive: ToolboxIdlTypePrimitive::U64 },
    }])
}

fn no_typedefs() -> ToolboxIdlLookup<solana_toolbox_idl::typedef::ToolboxIdlTypedef> {
    ToolboxIdlLookup::new()
}

#[test]
fn blob_parse_const_shorthand_and_typed() {
    // A bare string is a constant string seed.
    let blob =
        ToolboxIdlInstructionBlob::try_parse(&text("seed"), &args_fields(), &no_typedefs())
            .unwrap();
    match &blob {
        ToolboxIdlInstructionBlob::Const { value, type_full, .. } => {
            assert_eq!(value, &text("seed"));
            assert_eq!(
                type_full,
                &ToolboxIdlTypeFull::String { prefix: ToolboxIdlTypePrefix::U32 }
            );
        }
        other => panic!("expected a constant seed, got {:?}", other),
    }
    // An explicit value with a type parses and hydrates that type.
    let typed = obj(vec![("value", ToolboxIdlValue::Number(7)), ("type", text("u16"))]);
    let blob = ToolboxIdlInstructionBlob::try_parse(&typed, &args_fields(), &no_typedefs())
        .unwrap();
    match &blob {
        ToolboxIdlInstructionBlob::Const { type_full, .. } => {
            assert_eq!(
                type_full,
                &ToolboxIdlTypeFull::Primitive { primitive: ToolboxIdlTypePrimitive::U16 }
            );
        }
        other => panic!("expected a constant seed, got {:?}", other),
    }
}

#[test]
fn blob_parse_arg_takes_type_from_instruction_args() {
    let declared = obj(vec![("kind", text("arg")), ("path", text("amount"))]);
    let blob =
        ToolboxIdlInstructionBlob::try_parse(&declared, &args_fields(), &no_typedefs())
            .unwrap();
    match &blob {
        ToolboxIdlInstructionBlob::Arg { type_flat, type_full, .. } => {
            assert!(type_flat.is_none());
            assert_eq!(
                type_full,
                &ToolboxIdlTypeFull::Primitive { primitive: ToolboxIdlTypePrimitive::U64 }
            );
        }
        other => panic!("expected an argument seed, got {:?}", other),
    }
    // A path that resolves no argument field fails.
    let missing = obj(vec![("kind", text("arg")), ("path", text("unknown"))]);
    assert!(
        ToolboxIdlInstructionBlob::try_parse(&missing, &args_fields(), &no_typedefs())
            .is_err()
    );
}

#[test]
fn blob_parse_account_with_override_type() {
    let declared = obj(vec![
        ("kind", text("account")),
        ("account", text("MyAccount")),
        ("path", text("first.u16")),
        ("type", text("u8")),
    ]);
    let blob =
        ToolboxIdlInstructionBlob::try_parse(&declared, &args_fields(), &no_typedefs())
            .unwrap();
    match &blob {
        ToolboxIdlInstructionBlob::Account { account, path, typing } => {
            assert_eq!(account.as_deref(), Some("MyAccount"));
            assert_eq!(path.value(), "first.u16");
            assert_eq!(
                typing.as_ref().unwrap().1,
                ToolboxIdlTypeFull::Primitive { primitive: ToolboxIdlTypePrimitive::U8 }
            );
        }
        other => panic!("expected an account seed, got {:?}", other),
    }
}

#[test]
fn account_parse_accepts_both_flag_spellings() {
    let old_style = obj(vec![
        ("name", text("myAccount")),
        ("isMut", ToolboxIdlValue::Bool(true)),
        ("isSigner", ToolboxIdlValue::Bool(true)),
    ]);
    let account =
        ToolboxIdlInstructionAccount::try_parse(&old_style, &args_fields(), &no_typedefs())
            .unwrap();
    assert_eq!(account.name, "my_account");
    assert!(account.writable);
    assert!(account.signer);
    assert!(!account.optional);

    let new_style = obj(vec![
        ("name", text("my_account")),
        ("writable", ToolboxIdlValue::Bool(true)),
        ("optional", ToolboxIdlValue::Bool(true)),
    ]);
    let account =
        ToolboxIdlInstructionAccount::try_parse(&new_style, &args_fields(), &no_typedefs())
            .unwrap();
    assert_eq!(account.name, "my_account");
    assert!(account.writable);
    assert!(!account.signer);
    assert!(account.optional);
}

#[test]
fn account_parse_reads_address_and_pda() {
    let address = "UCNcQRtrbGmvuLKA3Jv719Cc6DS4r661ZRpyZduxu2j";
    let declared = obj(vec![
        ("name", text("vault")),
        ("address", text(address)),
    ]);
    let account =
        ToolboxIdlInstructionAccount::try_parse(&declared, &args_fields(), &no_typedefs())
            .unwrap();
    assert_eq!(
        account.address.unwrap().bytes,
        bs58::decode(address).into_vec().unwrap()
    );

    let with_pda = obj(vec![
        ("name", text("vault")),
        (
            "pda",
            obj(vec![(
                "seeds",
                ToolboxIdlValue::Array(vec![
                    text("seed"),
                    obj(vec![("kind", text("account")), ("path", text("owner"))]),
                ]),
            )]),
        ),
    ]);
    let account =
        ToolboxIdlInstructionAccount::try_parse(&with_pda, &args_fields(), &no_typedefs())
            .unwrap();
    let pda = account.pda.unwrap();
    assert_eq!(pda.seeds.len(), 2);
    assert!(pda.program.is_none());
    // A malformed seed fails, naming its position in the breadcrumbs.
    let bad_pda = obj(vec![
        ("name", text("vault")),
        (
            "pda",
            obj(vec![(
                "seeds",
                ToolboxIdlValue::Array(vec![ToolboxIdlValue::Bool(true)]),
            )]),
        ),
    ]);
    let error =
        ToolboxIdlInstructionAccount::try_parse(&bad_pda, &args_fields(), &no_typedefs())
            .unwrap_err();
    assert!(matches!(error, ToolboxIdlError::Parse(_)));
    assert!(error.message().contains("seed 0"));
}

#[test]
fn account_export_renders_each_dialect() {
    let declared = obj(vec![
        ("name", text("my_account")),
        ("writable", ToolboxIdlValue::Bool(true)),
        ("signer", ToolboxIdlValue::Bool(true)),
    ]);
    let account =
        ToolboxIdlInstructionAccount::try_parse(&declared, &args_fields(), &no_typedefs())
            .unwrap();
    assert_eq!(
        account.export(&ToolboxIdlFormat::anchor_26()),
        obj(vec![
            ("name", text("myAccount")),
            ("isSigner", ToolboxIdlValue::Bool(true)),
            ("isMut", ToolboxIdlValue::Bool(true)),
        ])
    );
    assert_eq!(
        account.export(&ToolboxIdlFormat::anchor_30()),
        obj(vec![
            ("name", text("my_account")),
            ("signer", ToolboxIdlValue::Bool(true)),
            ("writable", ToolboxIdlValue::Bool(true)),
        ])
    );
}

#[test]
fn blob_export_round_trips_through_parse() {
    // A constant byte-string seed collapses to its bare value in the
    // human dialect, and keeps its wrapper otherwise.
    let declared = obj(vec![("value", text("seed")), ("type", text("string"))]);
    let blob =
        ToolboxIdlInstructionBlob::try_parse(&declared, &args_fields(), &no_typedefs())
            .unwrap();
    assert_eq!(blob.export(&ToolboxIdlFormat::human()), text("seed"));
    assert_eq!(
        blob.export(&ToolboxIdlFormat::anchor_30()),
        obj(vec![
            ("kind", text("const")),
            ("type", text("string")),
            ("value", text("seed")),
        ])
    );
    // An account seed keeps or drops its kind marker by dialect.
    let account_seed = obj(vec![("kind", text("account")), ("path", text("owner"))]);
    let blob =
        ToolboxIdlInstructionBlob::try_parse(&account_seed, &args_fields(), &no_typedefs())
            .unwrap();
    assert_eq!(
        blob.export(&ToolboxIdlFormat::human()),
        obj(vec![("path", text("owner"))])
    );
    assert_eq!(
        blob.export(&ToolboxIdlFormat::anchor_30()),
        obj(vec![("kind", text("account")), ("path", text("owner"))])
    );
    // Re-parsing an export yields an equal blob.
    let exported = blob.export(&ToolboxIdlFormat::anchor_30());
    let reparsed =
        ToolboxIdlInstructionBlob::try_parse(&exported, &args_fields(), &no_typedefs())
            .unwrap();
    assert_eq!(reparsed, blob);
}

#[test]
fn type_export_round_trips_through_parse() {
    let declared = obj(vec![(
        "fields",
        ToolboxIdlValue::Array(vec![
            obj(vec![("name", text("amount")), ("type", text("u64"))]),
            obj(vec![("name", text("tag")), ("type", text("string"))]),
        ]),
    )]);
    let flat = ToolboxIdlTypeFlat::try_parse(&declared).unwrap();
    let exported = flat.export();
    let reparsed = ToolboxIdlTypeFlat::try_parse(&exported).unwrap();
    assert_eq!(reparsed, flat);
    // The canonical export of a byte vector is the "bytes" shorthand.
    let bytes = ToolboxIdlTypeFlat::try_parse(&text("bytes")).unwrap();
    assert_eq!(bytes.export(), text("bytes"));
}

#[test]
fn anchor_address_matches_direct_derivation() {
    let program_id = solana_pubkey::Pubkey::new_from_array([21u8; 32]);
    let derived = find_anchor_address(&ToolboxIdlPubkey {
        bytes: program_id.to_bytes().to_vec(),
    })
    .unwrap();
    let base = solana_pubkey::Pubkey::find_program_address(&[], &program_id).0;
    let expected =
        solana_pubkey::Pubkey::create_with_seed(&base, "anchor:idl", &program_id).unwrap();
    assert_eq!(derived.bytes, expected.to_bytes().to_vec());
}

#[test]
fn malformed_addresses_are_rejected_everywhere() {
    // A stored address that is not 32 bytes fails blob computation and
    // account resolution instead of flowing into seeds.
    let mut addresses = ToolboxIdlLookup::new();
    addresses.insert("owner".to_string(), ToolboxIdlPubkey { bytes: vec![1, 2, 3] });
    let blob = ToolboxIdlInstructionBlob::Account {
        account: None,
        path: solana_toolbox_idl::path::ToolboxIdlPath::try_parse("owner").unwrap(),
        typing: None,
    };
    assert!(blob
        .try_compute(
            &ToolboxIdlValue::Null,
            &addresses,
            &ToolboxIdlLookup::new(),
            &ToolboxIdlLookup::new(),
        )
        .is_err());
    let account = ToolboxIdlInstructionAccount {
        name: "owner".to_string(),
        docs: None,
        writable: false,
        signer: false,
        optional: false,
        address: None,
        pda: None,
    };
    let program_id = ToolboxIdlPubkey { bytes: vec![9u8; 32] };
    assert!(account
        .try_find(
            &program_id,
            &ToolboxIdlValue::Null,
            &addresses,
            &ToolboxIdlLookup::new(),
            &ToolboxIdlTypeFullFields::Nothing,
            &ToolboxIdlLookup::new(),
        )
        .is_err());
}
