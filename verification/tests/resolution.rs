use solana_toolbox_idl::account::ToolboxIdlInstructionAccount;
use solana_toolbox_idl::account::ToolboxIdlInstructionAccountPda;
use solana_toolbox_idl::blob::ToolboxIdlInstructionBlob;
use solana_toolbox_idl::lookup::ToolboxIdlLookup;
use solana_toolbox_idl::path::ToolboxIdlPath;
use solana_toolbox_idl::pubkey::ToolboxIdlPubkey;
use solana_toolbox_idl::type_flat::ToolboxIdlTypeFlat;
use solana_toolbox_idl::type_full::ToolboxIdlTypeFull;
use solana_toolbox_idl::type_full::ToolboxIdlTypeFullFieldNamed;
use solana_toolbox_idl::type_full::ToolboxIdlTypeFullFields;
use solana_toolbox_idl::type_prefix::ToolboxIdlTypePrefix;
use solana_toolbox_idl::type_primitive::ToolboxIdlTypePrimitive;
use solana_toolbox_idl::value::ToolboxIdlValue;

fn pubkey_of(pk: &solana_pubkey::Pubkey) -> ToolboxIdlPubkey {
    ToolboxIdlPubkey { bytes: pk.to_bytes().to_vec() }
}

fn const_string_seed(text: &str) -> ToolboxIdlInstructionBlob {
    ToolboxIdlInstructionBlob::Const {
        value: ToolboxIdlValue::String(text.to_string()),
        type_flat: ToolboxIdlTypeFlat::String { prefix: ToolboxIdlTypePrefix::U32 },
        type_full: ToolboxIdlTypeFull::String { prefix: ToolboxIdlTypePrefix::U32 },
    }
}

fn account_address_seed(path: &str) -> ToolboxIdlInstructionBlob {
    ToolboxIdlInstructionBlob::Account {
        account: None,
        path: ToolboxIdlPath::try_parse(path).unwrap(),
        typing: None,
    }
}

fn pda_account(name: &str, seeds: Vec<ToolboxIdlInstructionBlob>) -> ToolboxIdlInstructionAccount {
    ToolboxIdlInstructionAccount {
        name: name.to_string(),
        docs: None,
        writable: false,
        signer: false,
        optional: false,
        address: None,
        pda: Some(ToolboxIdlInstructionAccountPda { seeds, program: None }),
    }
}

#[test]
fn pda_derivation_matches_direct_bump_search() {
    // Seeds `[Const("seed"), Account(path = "owner")]` with no explicit
    // program blob must derive exactly what hashing
    // `b"seed" ++ owner_bytes` against the program id yields.
    let program_id = solana_pubkey::Pubkey::new_from_array([7u8; 32]);
    let owner = solana_pubkey::Pubkey::new_from_array([9u8; 32]);
    let account = pda_account(
        "vault",
        vec![const_string_seed("seed"), account_address_seed("owner")],
    );
    let mut addresses = ToolboxIdlLookup::new();
    addresses.insert("owner".to_string(), pubkey_of(&owner));
    let resolved = account
        .try_find(
            &pubkey_of(&program_id),
            &ToolboxIdlValue::Null,
            &addresses,
            &ToolboxIdlLookup::new(),
            &ToolboxIdlTypeFullFields::Nothing,
            &ToolboxIdlLookup::new(),
        )
        .unwrap();
    let expected =
        solana_pubkey::Pubkey::find_program_address(&[b"seed", owner.as_array()], &program_id).0;
    assert_eq!(resolved.bytes, expected.to_bytes().to_vec());
}

#[test]
fn pda_derivation_is_deterministic() {
    let program_id = solana_pubkey::Pubkey::new_from_array([1u8; 32]);
    let owner = solana_pubkey::Pubkey::new_from_array([2u8; 32]);
    let account = pda_account(
        "vault",
        vec![const_string_seed("state"), account_address_seed("owner")],
    );
    let mut addresses = ToolboxIdlLookup::new();
    addresses.insert("owner".to_string(), pubkey_of(&owner));
    let first = account
        .try_find(
            &pubkey_of(&program_id),
            &ToolboxIdlValue::Null,
            &addresses,
            &ToolboxIdlLookup::new(),
            &ToolboxIdlTypeFullFields::Nothing,
            &ToolboxIdlLookup::new(),
        )
        .unwrap();
    let second = account
        .try_find(
            &pubkey_of(&program_id),
            &ToolboxIdlValue::Null,
            &addresses,
            &ToolboxIdlLookup::new(),
            &ToolboxIdlTypeFullFields::Nothing,
            &ToolboxIdlLookup::new(),
        )
        .unwrap();
    assert_eq!(first, second);
}

#[test]
fn known_address_wins_over_pda() {
    let program_id = solana_pubkey::Pubkey::new_from_array([3u8; 32]);
    let supplied = solana_pubkey::Pubkey::new_from_array([4u8; 32]);
    let account = pda_account("vault", vec![const_string_seed("seed")]);
    let mut addresses = ToolboxIdlLookup::new();
    addresses.insert("vault".to_string(), pubkey_of(&supplied));
    let resolved = account
        .try_find(
            &pubkey_of(&program_id),
            &ToolboxIdlValue::Null,
            &addresses,
            &ToolboxIdlLookup::new(),
            &ToolboxIdlTypeFullFields::Nothing,
            &ToolboxIdlLookup::new(),
        )
        .unwrap();
    assert_eq!(resolved.bytes, supplied.to_bytes().to_vec());
}

#[test]
fn unresolvable_account_reports_an_error() {
    let program_id = solana_pubkey::Pubkey::new_from_array([5u8; 32]);
    let account = ToolboxIdlInstructionAccount {
        name: "floating".to_string(),
        docs: None,
        writable: false,
        signer: false,
        optional: false,
        address: None,
        pda: None,
    };
    assert!(account
        .try_find(
            &pubkey_of(&program_id),
            &ToolboxIdlValue::Null,
            &ToolboxIdlLookup::new(),
            &ToolboxIdlLookup::new(),
            &ToolboxIdlTypeFullFields::Nothing,
            &ToolboxIdlLookup::new(),
        )
        .is_err());
}

#[test]
fn seed_blobs_read_account_state_fields() {
    // A seed can read a field out of an account's fetched state; the
    // bytes are the raw (unprefixed) encoding of that field.
    let program_id = solana_pubkey::Pubkey::new_from_array([6u8; 32]);
    let owner = solana_pubkey::Pubkey::new_from_array([8u8; 32]);
    let state_type = ToolboxIdlTypeFull::Struct {
        fields: ToolboxIdlTypeFullFields::Named(vec![
            ToolboxIdlTypeFullFieldNamed {
                name: "u64".to_string(),
                content: ToolboxIdlTypeFull::Primitive {
                    primitive: ToolboxIdlTypePrimitive::U64,
                },
            },
            ToolboxIdlTypeFullFieldNamed {
                name: "string".to_string(),
                content: ToolboxIdlTypeFull::String { prefix: ToolboxIdlTypePrefix::U32 },
            },
        ]),
    };
    let account = pda_account(
        "vault",
        vec![
            account_address_seed("first"),
            account_address_seed("first.u64"),
            account_address_seed("first.string"),
        ],
    );
    let mut addresses = ToolboxIdlLookup::new();
    addresses.insert("first".to_string(), pubkey_of(&owner));
    let mut states = ToolboxIdlLookup::new();
    states.insert(
        "first".to_string(),
        ToolboxIdlValue::Object(vec![
            ("u64".to_string(), ToolboxIdlValue::Number(80)),
            ("string".to_string(), ToolboxIdlValue::String("hello".to_string())),
        ]),
    );
    let mut content_types = ToolboxIdlLookup::new();
    content_types.insert("first".to_string(), state_type);
    let resolved = account
        .try_find(
            &pubkey_of(&program_id),
            &ToolboxIdlValue::Null,
            &addresses,
            &states,
            &ToolboxIdlTypeFullFields::Nothing,
            &content_types,
        )
        .unwrap();
    let expected = solana_pubkey::Pubkey::find_program_address(
        &[owner.as_array(), &80u64.to_le_bytes(), b"hello"],
        &program_id,
    )
    .0;
    assert_eq!(resolved.bytes, expected.to_bytes().to_vec());
}

#[test]
fn single_pass_resolution_sees_earlier_accounts() {
    // "first" resolves from the caller-supplied addresses; "vault"
    // derives from it in the same pass.
    let program_id = solana_pubkey::Pubkey::new_from_array([11u8; 32]);
    let first = solana_pubkey::Pubkey::new_from_array([12u8; 32]);
    let accounts = vec![
        ToolboxIdlInstructionAccount {
            name: "first".to_string(),
            docs: None,
            writable: false,
            signer: false,
            optional: false,
            address: None,
            pda: None,
        },
        pda_account(
            "vault",
            vec![const_string_seed("seed"), account_address_seed("first")],
        ),
    ];
    let mut addresses = ToolboxIdlLookup::new();
    addresses.insert("first".to_string(), pubkey_of(&first));
    let resolved = solana_toolbox_idl::account_find::try_find_addresses(
        &accounts,
        &pubkey_of(&program_id),
        &ToolboxIdlValue::Null,
        &addresses,
        &ToolboxIdlLookup::new(),
        &ToolboxIdlTypeFullFields::Nothing,
        &ToolboxIdlLookup::new(),
    );
    let expected =
        solana_pubkey::Pubkey::find_program_address(&[b"seed", first.as_array()], &program_id).0;
    assert_eq!(
        resolved.get("vault").unwrap().bytes,
        expected.to_bytes().to_vec()
    );
    assert_eq!(resolved.get("first").unwrap().bytes, first.to_bytes().to_vec());
}
