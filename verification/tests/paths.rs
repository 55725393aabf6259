use solana_toolbox_idl::path::ToolboxIdlPath;
use solana_toolbox_idl::path::ToolboxIdlPathPart;
use solana_toolbox_idl::value::ToolboxIdlValue;

#[test]
fn path_parse_simple_keys() {
    let path = ToolboxIdlPath::try_parse("first.inner.u8").unwrap();
    assert_eq!(path.parts.len(), 3);
    assert_eq!(path.parts[0], ToolboxIdlPathPart::Key("first".to_string()));
    assert_eq!(path.parts[1], ToolboxIdlPathPart::Key("inner".to_string()));
    assert_eq!(path.parts[2], ToolboxIdlPathPart::Key("u8".to_string()));
}

#[test]
fn path_parse_indexes_and_keys() {
    let path = ToolboxIdlPath::try_parse("items.2.name").unwrap();
    assert_eq!(path.parts[0], ToolboxIdlPathPart::Key("items".to_string()));
    assert_eq!(path.parts[1], ToolboxIdlPathPart::Index(2));
    assert_eq!(path.parts[2], ToolboxIdlPathPart::Key("name".to_string()));
}

#[test]
fn path_parse_drops_leading_empty() {
    let path = ToolboxIdlPath::try_parse(".first").unwrap();
    assert_eq!(path.parts.len(), 1);
    assert_eq!(path.parts[0], ToolboxIdlPathPart::Key("first".to_string()));
    let empty = ToolboxIdlPath::try_parse("").unwrap();
    assert!(empty.is_empty());
}

#[test]
fn path_parse_keeps_interior_empty() {
    let path = ToolboxIdlPath::try_parse("a..b").unwrap();
    assert_eq!(path.parts.len(), 3);
    assert_eq!(path.parts[1], ToolboxIdlPathPart::Empty);
}

#[test]
fn path_parse_numeric_overflow_fails() {
    assert!(ToolboxIdlPath::try_parse("99999999999999999999999999999999999999999").is_err());
}

#[test]
fn path_value_round_trip() {
    let path = ToolboxIdlPath::try_parse("first.2.name").unwrap();
    assert_eq!(path.value(), "first.2.name");
}

#[test]
fn path_concat_and_split() {
    let left = ToolboxIdlPath::try_parse("a.b").unwrap();
    let right = ToolboxIdlPath::try_parse("c").unwrap();
    let joined = left.concat(&right);
    assert_eq!(joined.value(), "a.b.c");
    let (first, rest) = joined.split_first().unwrap();
    assert_eq!(first.key(), Some("a"));
    assert_eq!(rest.value(), "b.c");
    assert_eq!(first.index(), None);
}

#[test]
fn value_path_bounds_checks_arrays() {
    let items = ToolboxIdlValue::Array(vec![
        ToolboxIdlValue::Number(0),
        ToolboxIdlValue::Number(1),
        ToolboxIdlValue::Number(2),
        ToolboxIdlValue::Number(3),
    ]);
    let in_range = ToolboxIdlPath::try_parse("2").unwrap();
    assert_eq!(
        in_range.try_get_json_value(&items).unwrap(),
        &ToolboxIdlValue::Number(2)
    );
    let out_of_range = ToolboxIdlPath::try_parse("5").unwrap();
    assert!(out_of_range.try_get_json_value(&items).is_err());
}

#[test]
fn value_path_reads_nested_objects() {
    let state = ToolboxIdlValue::Object(vec![(
        "inner".to_string(),
        ToolboxIdlValue::Object(vec![(
            "u8".to_string(),
            ToolboxIdlValue::Number(111),
        )]),
    )]);
    let path = ToolboxIdlPath::try_parse("inner.u8").unwrap();
    assert_eq!(
        path.try_get_json_value(&state).unwrap(),
        &ToolboxIdlValue::Number(111)
    );
    let missing = ToolboxIdlPath::try_parse("inner.u16").unwrap();
    assert!(missing.try_get_json_value(&state).is_err());
}
