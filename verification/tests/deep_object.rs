use clientapi_pmg::apis::{is_deep_object, parse_deep_object, JsonValue};

fn s(text: &str) -> String {
    text.to_string()
}

fn pairs(list: &[(&str, &str)]) -> Vec<(String, String)> {
    list.iter().map(|(k, v)| (s(k), s(v))).collect()
}

fn sample() -> JsonValue {
    JsonValue::Object(vec![
        (s("a"), JsonValue::Str(s("x y"))),
        (
            s("b"),
            JsonValue::Object(vec![(s("c"), JsonValue::Number(s("1")))]),
        ),
        (
            s("d"),
            JsonValue::Array(vec![
                JsonValue::Object(vec![(s("e"), JsonValue::Bool(true))]),
                JsonValue::Object(vec![(s("e"), JsonValue::Bool(false))]),
            ]),
        ),
        (s("f"), JsonValue::Null),
        (s("g"), JsonValue::Number(s("-2.5"))),
    ])
}

#[test]
fn deep_object_lays_out_members_in_order() {
    let params = parse_deep_object("filter", &sample());
    assert_eq!(
        params,
        pairs(&[
            ("filter[a]", "x y"),
            ("filter[b][c]", "1"),
            ("filter[d][0][e]", "true"),
            ("filter[d][1][e]", "false"),
            ("filter[f]", "null"),
            ("filter[g]", "-2.5"),
        ])
    );
}

#[test]
fn deep_object_empty_object_gives_no_parameters() {
    assert_eq!(parse_deep_object("p", &JsonValue::Object(vec![])), vec![]);
}

#[test]
fn deep_object_empty_array_member_gives_no_parameters() {
    let value = JsonValue::Object(vec![(s("list"), JsonValue::Array(vec![]))]);
    assert_eq!(parse_deep_object("p", &value), vec![]);
}

#[test]
fn deep_object_array_index_is_decimal() {
    let items: Vec<JsonValue> = (0..12)
        .map(|i| JsonValue::Object(vec![(s("n"), JsonValue::Number(i.to_string()))]))
        .collect();
    let value = JsonValue::Object(vec![(s("xs"), JsonValue::Array(items))]);
    let params = parse_deep_object("q", &value);
    assert_eq!(params.len(), 12);
    assert_eq!(params[10], (s("q[xs][10][n]"), s("10")));
    assert_eq!(params[11], (s("q[xs][11][n]"), s("11")));
}

#[test]
fn deep_object_names_start_with_prefix_and_bracket() {
    for (name, _) in parse_deep_object("filter", &sample()) {
        assert!(name.starts_with("filter["), "{name}");
    }
}

#[test]
fn deep_object_prefix_only_prefixes_names() {
    let under_empty = parse_deep_object("", &sample());
    let under_prefix = parse_deep_object("outer[inner]", &sample());
    assert_eq!(under_empty.len(), under_prefix.len());
    for ((n0, v0), (n1, v1)) in under_empty.iter().zip(under_prefix.iter()) {
        assert_eq!(format!("outer[inner]{n0}"), *n1);
        assert_eq!(v0, v1);
    }
}

#[test]
fn deep_object_strings_pass_through_unquoted() {
    let value = JsonValue::Object(vec![(s("k"), JsonValue::Str(s("null")))]);
    assert_eq!(parse_deep_object("p", &value), pairs(&[("p[k]", "null")]));
}

#[test]
fn deep_object_accepts_objects_only() {
    assert!(is_deep_object(&sample()));
    assert!(is_deep_object(&JsonValue::Object(vec![])));
    assert!(!is_deep_object(&JsonValue::Null));
    assert!(!is_deep_object(&JsonValue::Str(s("x"))));
    assert!(!is_deep_object(&JsonValue::Array(vec![])));
}

#[test]
fn deep_object_rejects_array_of_scalars() {
    let value = JsonValue::Object(vec![(
        s("xs"),
        JsonValue::Array(vec![JsonValue::Number(s("1"))]),
    )]);
    assert!(!is_deep_object(&value));
}

#[test]
fn deep_object_rejects_nested_unsupported_member() {
    let value = JsonValue::Object(vec![(
        s("o"),
        JsonValue::Object(vec![(
            s("xs"),
            JsonValue::Array(vec![JsonValue::Array(vec![])]),
        )]),
    )]);
    assert!(!is_deep_object(&value));
}
