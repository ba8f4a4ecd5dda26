use platz_chart_ext::JsonValue;
use platz_chart_ext::path::insert_into_map;
use platz_chart_ext::path::insert_into_map_ex;

fn s(x: &str) -> String {
    x.to_string()
}

fn str_arr(strs: &[&str]) -> Vec<String> {
    strs.iter().map(|x| x.to_string()).collect()
}

fn jstr(x: &str) -> JsonValue {
    JsonValue::Str(s(x))
}

fn jobj(pairs: Vec<(&str, JsonValue)>) -> JsonValue {
    JsonValue::Obj(pairs.into_iter().map(|(k, v)| (s(k), v)).collect())
}

fn jarr(items: Vec<JsonValue>) -> JsonValue {
    JsonValue::Arr(items)
}

#[test]
fn test_insert_into_map_ex() {
    let mut value: Vec<(String, JsonValue)> = Vec::new();

    insert_into_map_ex(&mut value, &str_arr(&["v"]), jstr("v_val"));
    insert_into_map_ex(&mut value, &str_arr(&["m", "k1"]), jstr("m_k1_val"));
    insert_into_map_ex(&mut value, &str_arr(&["m", "k2"]), jstr("m_k2_val"));
    insert_into_map_ex(&mut value, &str_arr(&["m", "m", "k1"]), jstr("m_m_k1_val"));
    insert_into_map_ex(&mut value, &str_arr(&["a1", "[=]"]), jstr("a1_0_val"));
    insert_into_map_ex(&mut value, &str_arr(&["a1", "[+]"]), jstr("a1_1_val"));
    insert_into_map_ex(&mut value, &str_arr(&["a2", "[=]", "k1"]), jstr("a2_0_k1_val"));
    insert_into_map_ex(&mut value, &str_arr(&["a2", "[=]", "k2"]), jstr("a2_0_k2_val"));
    insert_into_map_ex(&mut value, &str_arr(&["a2", "[+]", "k1"]), jstr("a2_1_k1_val"));
    insert_into_map_ex(&mut value, &str_arr(&["a2", "[+]", "k1"]), jstr("a2_2_k1_val"));
    insert_into_map_ex(&mut value, &str_arr(&["a2", "[1]", "k2"]), jstr("a2_1_k2_val"));
    insert_into_map_ex(&mut value, &str_arr(&["a3", "[=]", "[=]"]), jstr("a3_0_0_val"));
    insert_into_map_ex(&mut value, &str_arr(&["a3", "[=]", "[+]"]), jstr("a3_0_1_val"));
    insert_into_map_ex(&mut value, &str_arr(&["a3", "[=]", "[+]", "k1"]), jstr("a3_0_2_k1_val"));
    insert_into_map_ex(&mut value, &str_arr(&["a3", "[=]", "[=]", "k2"]), jstr("a3_0_2_k2_val"));
    insert_into_map_ex(&mut value, &str_arr(&["a3", "[+]", "[=]", "k1"]), jstr("a3_1_0_k1_val"));
    insert_into_map_ex(&mut value, &str_arr(&["a3", "[=]", "[2]"]), jstr("a3_1_2_val"));
    insert_into_map_ex(&mut value, &str_arr(&["a3", "[0]", "[=]", "k3"]), jstr("a3_0_2_k3_val"));

    let expected = jobj(vec![
        ("v", jstr("v_val")),
        (
            "m",
            jobj(vec![
                ("k1", jstr("m_k1_val")),
                ("k2", jstr("m_k2_val")),
                ("m", jobj(vec![("k1", jstr("m_m_k1_val"))])),
            ]),
        ),
        ("a1", jarr(vec![jstr("a1_0_val"), jstr("a1_1_val")])),
        (
            "a2",
            jarr(vec![
                jobj(vec![("k1", jstr("a2_0_k1_val")), ("k2", jstr("a2_0_k2_val"))]),
                jobj(vec![("k1", jstr("a2_1_k1_val")), ("k2", jstr("a2_1_k2_val"))]),
                jobj(vec![("k1", jstr("a2_2_k1_val"))]),
            ]),
        ),
        (
            "a3",
            jarr(vec![
                jarr(vec![
                    jstr("a3_0_0_val"),
                    jstr("a3_0_1_val"),
                    jobj(vec![
                        ("k1", jstr("a3_0_2_k1_val")),
                        ("k2", jstr("a3_0_2_k2_val")),
                        ("k3", jstr("a3_0_2_k3_val")),
                    ]),
                ]),
                jarr(vec![
                    jobj(vec![("k1", jstr("a3_1_0_k1_val"))]),
                    JsonValue::Null,
                    jstr("a3_1_2_val"),
                ]),
            ]),
        ),
    ]);

    assert_eq!(JsonValue::Obj(value), expected);
}

#[test]
fn test_plain_insert_creates_nested_objects() {
    let mut value: Vec<(String, JsonValue)> = Vec::new();
    insert_into_map(&mut value, &str_arr(&["a", "b", "c"]), jstr("x"));
    insert_into_map(&mut value, &str_arr(&["a", "b", "d"]), jstr("y"));
    insert_into_map(&mut value, &str_arr(&["a", "b", "c"]), jstr("z"));
    let expected = jobj(vec![(
        "a",
        jobj(vec![("b", jobj(vec![("c", jstr("z")), ("d", jstr("y"))]))]),
    )]);
    assert_eq!(JsonValue::Obj(value), expected);
}

#[test]
fn test_append_n_times_builds_array_in_order() {
    let mut value: Vec<(String, JsonValue)> = Vec::new();
    let n = 10;
    for k in 0..n {
        insert_into_map_ex(&mut value, &str_arr(&["list", "[+]"]), jstr(&format!("v{}", k)));
    }
    let expected_items: Vec<JsonValue> = (0..n).map(|k| jstr(&format!("v{}", k))).collect();
    let expected = jobj(vec![("list", jarr(expected_items))]);
    assert_eq!(JsonValue::Obj(value), expected);
}

#[test]
fn test_last_directive_targets_most_recent_slot() {
    let mut value: Vec<(String, JsonValue)> = Vec::new();
    // On an empty array, `[=]` creates exactly one slot and targets it.
    insert_into_map_ex(&mut value, &str_arr(&["a", "[=]"]), jstr("first"));
    assert_eq!(JsonValue::Obj(value.clone()), jobj(vec![("a", jarr(vec![jstr("first")]))]));
    // After an append, `[=]` rewrites the slot the append created.
    insert_into_map_ex(&mut value, &str_arr(&["a", "[+]"]), jstr("second"));
    insert_into_map_ex(&mut value, &str_arr(&["a", "[=]"]), jstr("rewritten"));
    assert_eq!(
        JsonValue::Obj(value),
        jobj(vec![("a", jarr(vec![jstr("first"), jstr("rewritten")]))])
    );
}

#[test]
fn test_index_directive_pads_with_nulls() {
    let mut value: Vec<(String, JsonValue)> = Vec::new();
    insert_into_map_ex(&mut value, &str_arr(&["a", "[2]"]), jstr("x"));
    assert_eq!(
        JsonValue::Obj(value),
        jobj(vec![("a", jarr(vec![JsonValue::Null, JsonValue::Null, jstr("x")]))])
    );
}

#[test]
fn test_index_directive_at_cap_is_dropped() {
    let mut value: Vec<(String, JsonValue)> = Vec::new();
    insert_into_map_ex(&mut value, &str_arr(&["a", "[+]"]), jstr("x"));
    let before = JsonValue::Obj(value.clone());
    // 1024 is the first index past the cap: the write is silently dropped.
    insert_into_map_ex(&mut value, &str_arr(&["a", "[1024]"]), jstr("y"));
    insert_into_map_ex(&mut value, &str_arr(&["a", "[99999]"]), jstr("y"));
    insert_into_map_ex(&mut value, &str_arr(&["a", "[18446744073709551616]"]), jstr("y"));
    assert_eq!(JsonValue::Obj(value), before);
}

#[test]
fn test_index_directive_below_cap_lands() {
    let mut value: Vec<(String, JsonValue)> = Vec::new();
    insert_into_map_ex(&mut value, &str_arr(&["a", "[1023]"]), jstr("x"));
    match &value[0].1 {
        JsonValue::Arr(items) => {
            assert_eq!(items.len(), 1024);
            assert_eq!(items[1023], jstr("x"));
            assert_eq!(items[0], JsonValue::Null);
        }
        other => panic!("expected an array, got {:?}", other),
    }
}

#[test]
fn test_plus_prefixed_index_parses_as_number() {
    let mut value: Vec<(String, JsonValue)> = Vec::new();
    insert_into_map_ex(&mut value, &str_arr(&["a", "[+1]"]), jstr("x"));
    assert_eq!(JsonValue::Obj(value), jobj(vec![("a", jarr(vec![JsonValue::Null, jstr("x")]))]));
}

#[test]
fn test_malformed_directive_is_inert() {
    let mut value: Vec<(String, JsonValue)> = Vec::new();
    insert_into_map_ex(&mut value, &str_arr(&["a", "[+]"]), jstr("x"));
    let before = JsonValue::Obj(value.clone());
    insert_into_map_ex(&mut value, &str_arr(&["a", "[abc]"]), jstr("y"));
    insert_into_map_ex(&mut value, &str_arr(&["a", "[]"]), jstr("y"));
    insert_into_map_ex(&mut value, &str_arr(&["a", "plain"]), jstr("y"));
    assert_eq!(JsonValue::Obj(value), before);
}

#[test]
fn test_bracketed_terminal_segment_is_a_plain_key() {
    // A directive-looking segment at the top level of an object is just
    // a key: only array contexts read directives.
    let mut value: Vec<(String, JsonValue)> = Vec::new();
    insert_into_map_ex(&mut value, &str_arr(&["[=]"]), jstr("x"));
    assert_eq!(JsonValue::Obj(value), jobj(vec![("[=]", jstr("x"))]));
}

#[test]
fn test_scalar_child_is_inert_for_deeper_paths() {
    let mut value: Vec<(String, JsonValue)> = Vec::new();
    insert_into_map_ex(&mut value, &str_arr(&["a"]), jstr("leaf"));
    let before = JsonValue::Obj(value.clone());
    insert_into_map_ex(&mut value, &str_arr(&["a", "b"]), jstr("y"));
    assert_eq!(JsonValue::Obj(value), before);
}
