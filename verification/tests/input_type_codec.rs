use platz_chart_ext::JsonValue;
use platz_chart_ext::SerializedUiSchemaInputType;
use platz_chart_ext::UiSchemaInputSingleType;
use platz_chart_ext::UiSchemaInputType;

fn s(x: &str) -> String {
    x.to_string()
}

fn triple(kind: &str, item_type: Option<&str>, collection: Option<JsonValue>) -> SerializedUiSchemaInputType {
    SerializedUiSchemaInputType {
        kind: s(kind),
        item_type: item_type.map(s),
        collection,
    }
}

fn disc_name(t: &UiSchemaInputSingleType) -> &'static str {
    match t {
        UiSchemaInputSingleType::Text => "Text",
        UiSchemaInputSingleType::Number => "Number",
        UiSchemaInputSingleType::CollectionSelect { .. } => "CollectionSelect",
        UiSchemaInputSingleType::RadioSelect => "RadioSelect",
        UiSchemaInputSingleType::DaysAndHour => "DaysAndHour",
        UiSchemaInputSingleType::Checkbox => "Checkbox",
    }
}

fn all_single_types() -> Vec<UiSchemaInputSingleType> {
    vec![
        UiSchemaInputSingleType::Text,
        UiSchemaInputSingleType::Number,
        UiSchemaInputSingleType::CollectionSelect { collection: JsonValue::Str(s("testdb")) },
        UiSchemaInputSingleType::RadioSelect,
        UiSchemaInputSingleType::DaysAndHour,
        UiSchemaInputSingleType::Checkbox,
    ]
}

#[test]
fn test_round_trip_every_discriminant() {
    for is_array in [false, true] {
        for single_type in all_single_types() {
            let expected_disc = disc_name(&single_type);
            let t = UiSchemaInputType { single_type, is_array };
            let wire = t.to_serialized();
            let back = UiSchemaInputType::from_serialized(wire).expect("round trip decodes");
            assert_eq!(back.is_array, is_array);
            assert_eq!(disc_name(&back.single_type), expected_disc);
            if let UiSchemaInputSingleType::CollectionSelect { collection } = &back.single_type {
                assert_eq!(*collection, JsonValue::Str(s("testdb")));
            }
        }
    }
}

#[test]
fn test_encode_canonical_casing() {
    let t = UiSchemaInputType { single_type: UiSchemaInputSingleType::Text, is_array: false };
    let wire = t.to_serialized();
    assert_eq!(wire.kind, "text");
    assert_eq!(wire.item_type, None);
    assert_eq!(wire.collection, None);

    let t = UiSchemaInputType { single_type: UiSchemaInputSingleType::RadioSelect, is_array: true };
    let wire = t.to_serialized();
    assert_eq!(wire.kind, "array");
    assert_eq!(wire.item_type, Some(s("RadioSelect")));

    let t = UiSchemaInputType {
        single_type: UiSchemaInputSingleType::CollectionSelect {
            collection: JsonValue::Str(s("testdb")),
        },
        is_array: false,
    };
    let wire = t.to_serialized();
    assert_eq!(wire.kind, "CollectionSelect");
    assert_eq!(wire.collection, Some(JsonValue::Str(s("testdb"))));
}

#[test]
fn test_decode_is_case_insensitive() {
    for kind in ["text", "TEXT", "Text", "tExT"] {
        let t = UiSchemaInputType::from_serialized(triple(kind, None, None)).unwrap();
        assert!(matches!(t.single_type, UiSchemaInputSingleType::Text));
        assert!(!t.is_array);
    }
    let t = UiSchemaInputType::from_serialized(triple(
        "collectionselect",
        None,
        Some(JsonValue::Str(s("testdb"))),
    ))
    .unwrap();
    assert!(matches!(t.single_type, UiSchemaInputSingleType::CollectionSelect { .. }));
    let t = UiSchemaInputType::from_serialized(triple("daysandhour", None, None)).unwrap();
    assert!(matches!(t.single_type, UiSchemaInputSingleType::DaysAndHour));
}

#[test]
fn test_decode_array_reads_item_type() {
    let t = UiSchemaInputType::from_serialized(triple("array", Some("number"), None)).unwrap();
    assert!(t.is_array);
    assert!(matches!(t.single_type, UiSchemaInputSingleType::Number));
    // The array discriminant itself is matched exactly, not by case.
    assert!(UiSchemaInputType::from_serialized(triple("ARRAY", Some("number"), None)).is_none());
}

#[test]
fn test_decode_rejects_bad_triples() {
    // An unknown discriminant.
    assert!(UiSchemaInputType::from_serialized(triple("bogus", None, None)).is_none());
    // An array without an item type.
    assert!(UiSchemaInputType::from_serialized(triple("array", None, None)).is_none());
    // A collection select without a descriptor.
    assert!(UiSchemaInputType::from_serialized(triple("CollectionSelect", None, None)).is_none());
}
