use schoolcbb::custom_fields::{custom_field_values, custom_values_payload};
use schoolcbb::json::Json;

fn s(t: &str) -> Json {
    Json::Str(t.to_string())
}

fn obj(members: Vec<(&str, Json)>) -> Json {
    Json::Object(members.into_iter().map(|(k, v)| (k.to_string(), v)).collect())
}

fn defs() -> Json {
    obj(vec![(
        "definitions",
        Json::Array(vec![obj(vec![("id", s("f1"))]), obj(vec![("id", s("f2"))]), obj(vec![("name", s("x"))])]),
    )])
}

#[test]
fn values_follow_the_definitions() {
    let values = obj(vec![(
        "values",
        Json::Array(vec![
            obj(vec![("field_definition_id", s("f2")), ("value", s("old"))]),
            obj(vec![("field_definition_id", s("f2")), ("value", s("new"))]),
            obj(vec![("field_definition_id", s("f1"))]),
            obj(vec![("value", s("orphan"))]),
        ]),
    )]);
    let vals = custom_field_values(&values, &defs());
    assert_eq!(vals, vec![
        ("f1".to_string(), "".to_string()),
        ("f2".to_string(), "new".to_string()),
        ("".to_string(), "".to_string()),
    ]);
    assert!(custom_field_values(&values, &Json::Null).is_empty());
    let none = custom_field_values(&Json::Null, &defs());
    assert!(none.iter().all(|(_, v)| v.is_empty()));
}

#[test]
fn saved_values_load_back() {
    let d = obj(vec![("definitions", Json::Array(vec![obj(vec![("id", s("a"))]), obj(vec![("id", s("b"))])]))]);
    let vals = vec![("a".to_string(), "uno".to_string()), ("b".to_string(), "dos".to_string())];
    let body = custom_values_payload(&vals);
    assert_eq!(custom_field_values(&body, &d), vals);
}
