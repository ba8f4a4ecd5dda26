use platz_chart_ext::JsonValue;
use platz_chart_ext::RenderedSecret;
use platz_chart_ext::UiSchema;
use platz_chart_ext::UiSchemaCollections;
use platz_chart_ext::UiSchemaFieldValuePair;
use platz_chart_ext::UiSchemaInput;
use platz_chart_ext::UiSchemaInputError;
use platz_chart_ext::UiSchemaInputGuard;
use platz_chart_ext::UiSchemaInputRef;
use platz_chart_ext::UiSchemaInputRefField;
use platz_chart_ext::UiSchemaInputRefProperty;
use platz_chart_ext::UiSchemaInputSingleType;
use platz_chart_ext::UiSchemaInputType;
use platz_chart_ext::UiSchemaOutputSecrets;
use platz_chart_ext::UiSchemaOutputValue;
use platz_chart_ext::UiSchemaOutputs;
use platz_chart_ext::UiSchemaV0;
use uuid::Uuid;

fn s(x: &str) -> String {
    x.to_string()
}

fn str_arr(strs: &[&str]) -> Vec<String> {
    strs.iter().map(|x| x.to_string()).collect()
}

fn jstr(x: &str) -> JsonValue {
    JsonValue::Str(s(x))
}

fn jnum(x: &str) -> JsonValue {
    JsonValue::Num(s(x))
}

fn jobj(pairs: Vec<(&str, JsonValue)>) -> JsonValue {
    JsonValue::Obj(pairs.into_iter().map(|(k, v)| (s(k), v)).collect())
}

fn jarr(items: Vec<JsonValue>) -> JsonValue {
    JsonValue::Arr(items)
}

/// The test collection resolver: the descriptor `"testdb"` selects it,
/// and property lookups map an entity id to `"a"` followed by the id.
struct TestDb;

impl UiSchemaCollections for TestDb {
    type Error = String;

    fn from_descriptor(descriptor: &JsonValue) -> Option<Self> {
        if *descriptor == JsonValue::Str("testdb".to_string()) {
            Some(TestDb)
        } else {
            None
        }
    }

    fn resolve(
        &self,
        _env_id: &Uuid,
        id: &str,
        _property: &str,
    ) -> Result<JsonValue, UiSchemaInputError<String>> {
        Ok(JsonValue::Str(format!("a{}", id)))
    }
}

fn input(id: &str, single_type: UiSchemaInputSingleType, is_array: bool, required: bool) -> UiSchemaInput {
    UiSchemaInput {
        id: s(id),
        input_type: UiSchemaInputType { single_type, is_array },
        label: s(id),
        initial_value: None,
        help_text: None,
        required,
        sensitive: false,
        options: None,
        guard: None,
        filters: None,
        minimum: None,
        maximum: None,
        step: None,
    }
}

fn field_value(id: &str) -> UiSchemaInputRef {
    UiSchemaInputRef::FieldValue(UiSchemaInputRefField { input: s(id) })
}

fn field_property(id: &str, property: &str) -> UiSchemaInputRef {
    UiSchemaInputRef::FieldProperty(UiSchemaInputRefProperty { input: s(id), property: s(property) })
}

fn rule(path: &[&str], value: UiSchemaInputRef) -> UiSchemaOutputValue {
    UiSchemaOutputValue { path: str_arr(path), value }
}

fn schema(inputs: Vec<UiSchemaInput>, values: Vec<UiSchemaOutputValue>) -> UiSchema {
    UiSchema::V0(UiSchemaV0 {
        inputs,
        outputs: UiSchemaOutputs { values, secrets: UiSchemaOutputSecrets(Vec::new()) },
    })
}

fn collection_select() -> UiSchemaInputSingleType {
    UiSchemaInputSingleType::CollectionSelect { collection: jstr("testdb") }
}

#[test]
fn test_single_collection() {
    let ui_schema = schema(
        vec![input("a", collection_select(), false, true)],
        vec![
            rule(&["config", "a", "id"], field_value("a")),
            rule(&["config", "a", "value"], field_property("a", "value")),
        ],
    );
    let inputs = jobj(vec![("a", jstr("3"))]);
    let values = ui_schema.get_values::<TestDb>(&Uuid::new_v4(), &inputs).unwrap();
    let expected = jobj(vec![(
        "config",
        jobj(vec![("a", jobj(vec![("id", jstr("3")), ("value", jstr("a3"))]))]),
    )]);
    assert_eq!(JsonValue::Obj(values), expected);
}

#[test]
fn test_array_of_collection() {
    let ui_schema = schema(
        vec![input("a", collection_select(), true, true)],
        vec![
            rule(&["config", "a", "id"], field_value("a")),
            rule(&["config", "a", "value"], field_property("a", "value")),
        ],
    );
    let inputs = jobj(vec![("a", jarr(vec![jstr("3"), jstr("4")]))]);
    let values = ui_schema.get_values::<TestDb>(&Uuid::new_v4(), &inputs).unwrap();
    let expected = jobj(vec![(
        "config",
        jobj(vec![(
            "a",
            jobj(vec![
                ("id", jarr(vec![jstr("3"), jstr("4")])),
                ("value", jarr(vec![jstr("a3"), jstr("a4")])),
            ]),
        )]),
    )]);
    assert_eq!(JsonValue::Obj(values), expected);
}

#[test]
fn v0_values_hidden_required_input_test() {
    let mut dependent = input("required_dependent_num", UiSchemaInputSingleType::Number, false, true);
    dependent.guard = Some(UiSchemaInputGuard::AllOf(vec![UiSchemaFieldValuePair {
        field: s("required_enum"),
        value: jstr("value3"),
    }]));
    let ui_schema = schema(
        vec![input("required_enum", UiSchemaInputSingleType::RadioSelect, false, true), dependent],
        vec![
            rule(&["config", "required_enum"], field_value("required_enum")),
            rule(&["config", "required_dependent_num"], field_value("required_dependent_num")),
        ],
    );

    let inputs1 = jobj(vec![("required_enum", jstr("value2"))]);
    let values1 = ui_schema.get_values::<TestDb>(&Uuid::new_v4(), &inputs1).unwrap();
    let expected1 = jobj(vec![("config", jobj(vec![("required_enum", jstr("value2"))]))]);
    assert_eq!(JsonValue::Obj(values1), expected1);

    let inputs2 = jobj(vec![("required_enum", jstr("value3"))]);
    let err = ui_schema.get_values::<TestDb>(&Uuid::new_v4(), &inputs2).unwrap_err();
    match err {
        UiSchemaInputError::MissingInputValue(id) => {
            assert_eq!(id, "required_dependent_num");
        }
        other => panic!("expected MissingInputValue, got {:?}", other),
    }

    let inputs3 = jobj(vec![
        ("required_enum", jstr("value3")),
        ("required_dependent_num", jnum("5")),
    ]);
    let values3 = ui_schema.get_values::<TestDb>(&Uuid::new_v4(), &inputs3).unwrap();
    let expected3 = jobj(vec![(
        "config",
        jobj(vec![("required_enum", jstr("value3")), ("required_dependent_num", jnum("5"))]),
    )]);
    assert_eq!(JsonValue::Obj(values3), expected3);
}

fn show_if_eq(field: &str, value: JsonValue) -> JsonValue {
    // The JsonLogic rule {"==": [{"var": field}, value]}.
    jobj(vec![("==", jarr(vec![jobj(vec![("var", jstr(field))]), value]))])
}

#[test]
fn test_expression_guard_gates_value() {
    let mut conditional = input("conditional_text", UiSchemaInputSingleType::Text, false, true);
    conditional.guard = Some(UiSchemaInputGuard::Expression(show_if_eq(
        "required_bool",
        JsonValue::Bool(true),
    )));
    let ui_schema = schema(
        vec![
            input("required_bool", UiSchemaInputSingleType::Checkbox, false, true),
            conditional,
        ],
        vec![
            rule(&["config", "required_bool"], field_value("required_bool")),
            rule(&["config", "conditional_text"], field_value("conditional_text")),
        ],
    );

    // Guard met: both keys appear.
    let inputs = jobj(vec![
        ("required_bool", JsonValue::Bool(true)),
        ("conditional_text", jstr("lolz")),
    ]);
    let values = ui_schema.get_values::<TestDb>(&Uuid::new_v4(), &inputs).unwrap();
    let expected = jobj(vec![(
        "config",
        jobj(vec![
            ("required_bool", JsonValue::Bool(true)),
            ("conditional_text", jstr("lolz")),
        ]),
    )]);
    assert_eq!(JsonValue::Obj(values), expected);

    // Guard not met: the conditional key is omitted even though a value
    // was submitted and the input is required.
    let inputs2 = jobj(vec![
        ("required_bool", JsonValue::Bool(false)),
        ("conditional_text", jstr("lolz")),
    ]);
    let values2 = ui_schema.get_values::<TestDb>(&Uuid::new_v4(), &inputs2).unwrap();
    let expected2 = jobj(vec![("config", jobj(vec![("required_bool", JsonValue::Bool(false))]))]);
    assert_eq!(JsonValue::Obj(values2), expected2);
}

#[test]
fn test_guard_on_unset_field_skips_and_empty_bundle_is_omitted() {
    let mut gated = input("gated", UiSchemaInputSingleType::Text, false, true);
    gated.guard = Some(UiSchemaInputGuard::AllOf(vec![UiSchemaFieldValuePair {
        field: s("never_set"),
        value: jstr("on"),
    }]));
    let ui_schema = UiSchema::V0(UiSchemaV0 {
        inputs: vec![gated, input("plain", UiSchemaInputSingleType::Text, false, false)],
        outputs: UiSchemaOutputs {
            values: vec![
                rule(&["config", "gated"], field_value("gated")),
                rule(&["config", "plain"], field_value("plain")),
            ],
            secrets: UiSchemaOutputSecrets(vec![(
                s("secret-env"),
                vec![(s("GATED_SECRET"), field_value("gated"))],
            )]),
        },
    });
    let inputs = jobj(vec![("gated", jstr("x")), ("plain", jstr("y"))]);

    let values = ui_schema.get_values::<TestDb>(&Uuid::new_v4(), &inputs).unwrap();
    let expected = jobj(vec![("config", jobj(vec![("plain", jstr("y"))]))]);
    assert_eq!(JsonValue::Obj(values), expected);

    // The only attribute of the bundle is skipped, so the bundle itself
    // is omitted.
    let secrets = ui_schema.get_secrets::<TestDb>(&Uuid::new_v4(), &inputs).unwrap();
    assert!(secrets.is_empty());
}

#[test]
fn test_secrets_render_and_pass_through() {
    let mut conditional = input("conditional_select", collection_select(), false, true);
    conditional.guard = Some(UiSchemaInputGuard::Expression(show_if_eq(
        "required_bool",
        JsonValue::Bool(true),
    )));
    let mut typed = input("conditional_text", UiSchemaInputSingleType::Text, false, true);
    typed.guard = Some(UiSchemaInputGuard::Expression(show_if_eq(
        "required_bool",
        JsonValue::Bool(true),
    )));
    let ui_schema = UiSchema::V0(UiSchemaV0 {
        inputs: vec![
            input("required_bool", UiSchemaInputSingleType::Checkbox, false, true),
            conditional,
            typed,
        ],
        outputs: UiSchemaOutputs {
            values: vec![
                rule(&["config", "selected", "id"], field_value("conditional_select")),
                rule(&["config", "selected", "a"], field_property("conditional_select", "a")),
            ],
            secrets: UiSchemaOutputSecrets(vec![(
                s("secret-env"),
                vec![
                    (s("SELECTED_SECRET"), field_property("conditional_select", "a")),
                    (s("TYPED_SECRET"), field_value("conditional_text")),
                    (s("FLAG_SECRET"), field_value("required_bool")),
                ],
            )]),
        },
    });

    let inputs = jobj(vec![
        ("required_bool", JsonValue::Bool(true)),
        ("conditional_select", jstr("123")),
        ("conditional_text", jstr("condtext")),
    ]);

    let values = ui_schema.get_values::<TestDb>(&Uuid::new_v4(), &inputs).unwrap();
    let expected = jobj(vec![(
        "config",
        jobj(vec![("selected", jobj(vec![("id", jstr("123")), ("a", jstr("a123"))]))]),
    )]);
    assert_eq!(JsonValue::Obj(values), expected);

    let secrets: Vec<RenderedSecret> =
        ui_schema.get_secrets::<TestDb>(&Uuid::new_v4(), &inputs).unwrap();
    assert_eq!(secrets.len(), 1);
    assert_eq!(secrets[0].name, "secret-env");
    // Strings pass through unchanged; the boolean renders as JSON text.
    assert_eq!(
        secrets[0].attrs,
        vec![
            (s("SELECTED_SECRET"), s("a123")),
            (s("TYPED_SECRET"), s("condtext")),
            (s("FLAG_SECRET"), s("true")),
        ]
    );

    // With the flag off, values are empty; only the unguarded flag
    // attribute survives in the bundle.
    let inputs2 = jobj(vec![("required_bool", JsonValue::Bool(false))]);
    let values2 = ui_schema.get_values::<TestDb>(&Uuid::new_v4(), &inputs2).unwrap();
    assert_eq!(JsonValue::Obj(values2), jobj(vec![]));
    let secrets2 = ui_schema.get_secrets::<TestDb>(&Uuid::new_v4(), &inputs2).unwrap();
    assert_eq!(secrets2.len(), 1);
    assert_eq!(secrets2[0].attrs, vec![(s("FLAG_SECRET"), s("false"))]);

    // With the flag on but nothing selected, both calls fail on the
    // required selection.
    let inputs3 = jobj(vec![
        ("required_bool", JsonValue::Bool(true)),
        ("conditional_text", jstr("condtext")),
    ]);
    assert!(ui_schema.get_values::<TestDb>(&Uuid::new_v4(), &inputs3).is_err());
    assert!(ui_schema.get_secrets::<TestDb>(&Uuid::new_v4(), &inputs3).is_err());
}

#[test]
fn test_missing_input_schema_is_fatal() {
    let ui_schema = schema(vec![], vec![rule(&["config", "a"], field_value("a"))]);
    let inputs = jobj(vec![("a", jstr("1"))]);
    let err = ui_schema.get_values::<TestDb>(&Uuid::new_v4(), &inputs).unwrap_err();
    assert!(matches!(err, UiSchemaInputError::MissingInputSchema(_)));
}

#[test]
fn test_property_reference_on_non_collection_is_fatal() {
    let ui_schema = schema(
        vec![input("a", UiSchemaInputSingleType::Text, false, true)],
        vec![rule(&["config", "a"], field_property("a", "value"))],
    );
    let inputs = jobj(vec![("a", jstr("1"))]);
    let err = ui_schema.get_values::<TestDb>(&Uuid::new_v4(), &inputs).unwrap_err();
    assert!(matches!(err, UiSchemaInputError::InputNotACollection(_)));
}

#[test]
fn test_unknown_collection_descriptor_is_fatal() {
    let ui_schema = schema(
        vec![input(
            "a",
            UiSchemaInputSingleType::CollectionSelect { collection: jstr("no-such-db") },
            false,
            true,
        )],
        vec![rule(&["config", "a"], field_property("a", "value"))],
    );
    let inputs = jobj(vec![("a", jstr("1"))]);
    let err = ui_schema.get_values::<TestDb>(&Uuid::new_v4(), &inputs).unwrap_err();
    assert!(matches!(err, UiSchemaInputError::InvalidCollectionName(_)));
}

#[test]
fn test_scalar_property_reference_needs_string() {
    let ui_schema = schema(
        vec![input("a", collection_select(), false, true)],
        vec![rule(&["config", "a"], field_property("a", "value"))],
    );
    let inputs = jobj(vec![("a", jnum("3"))]);
    let err = ui_schema.get_values::<TestDb>(&Uuid::new_v4(), &inputs).unwrap_err();
    assert!(matches!(err, UiSchemaInputError::InputNotString(_)));
}

#[test]
fn test_array_property_reference_needs_string_array() {
    let ui_schema = schema(
        vec![input("a", collection_select(), true, true)],
        vec![rule(&["config", "a"], field_property("a", "value"))],
    );
    let inputs = jobj(vec![("a", jarr(vec![jstr("3"), jnum("4")]))]);
    let err = ui_schema.get_values::<TestDb>(&Uuid::new_v4(), &inputs).unwrap_err();
    assert!(matches!(err, UiSchemaInputError::InputNotStringArray(_)));
    let inputs2 = jobj(vec![("a", jstr("3"))]);
    let err2 = ui_schema.get_values::<TestDb>(&Uuid::new_v4(), &inputs2).unwrap_err();
    assert!(matches!(err2, UiSchemaInputError::InputNotStringArray(_)));
}

#[test]
fn test_optional_absent_input_is_skipped() {
    let ui_schema = schema(
        vec![
            input("opt", UiSchemaInputSingleType::Text, false, false),
            input("req", UiSchemaInputSingleType::Text, false, true),
        ],
        vec![
            rule(&["config", "opt"], field_value("opt")),
            rule(&["config", "req"], field_value("req")),
        ],
    );
    let inputs = jobj(vec![("req", jstr("here"))]);
    let values = ui_schema.get_values::<TestDb>(&Uuid::new_v4(), &inputs).unwrap();
    let expected = jobj(vec![("config", jobj(vec![("req", jstr("here"))]))]);
    assert_eq!(JsonValue::Obj(values), expected);
}

#[test]
fn test_is_collection_in_inputs() {
    let ui_schema = schema(vec![input("a", collection_select(), false, true)], vec![]);
    let inputs = jobj(vec![("a", jstr("3"))]);
    assert!(ui_schema.is_collection_in_inputs(&inputs, &jstr("testdb"), &s("3")));
    assert!(!ui_schema.is_collection_in_inputs(&inputs, &jstr("testdb"), &s("4")));
    assert!(!ui_schema.is_collection_in_inputs(&inputs, &jstr("otherdb"), &s("3")));
}

#[test]
fn test_hidden_input_skips_before_type_and_descriptor_checks() {
    // The guard and required policy are applied before the
    // collection-type check and the descriptor parse: a hidden input is
    // skipped even where a visible one would be a type error.
    let mut not_a_collection = input("a", UiSchemaInputSingleType::Text, false, true);
    not_a_collection.guard = Some(UiSchemaInputGuard::AllOf(vec![UiSchemaFieldValuePair {
        field: s("never_set"),
        value: jstr("on"),
    }]));
    let ui_schema = schema(
        vec![not_a_collection],
        vec![rule(&["config", "a"], field_property("a", "value"))],
    );
    let inputs = jobj(vec![("a", jstr("1"))]);
    let values = ui_schema.get_values::<TestDb>(&Uuid::new_v4(), &inputs).unwrap();
    assert_eq!(JsonValue::Obj(values), jobj(vec![]));
}
