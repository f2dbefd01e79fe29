use coin_cards::json::{merge_json_objects, JsonValue};

fn num(n: &str) -> JsonValue {
    JsonValue::Number(n.to_string())
}

fn obj(members: Vec<(&str, JsonValue)>) -> JsonValue {
    JsonValue::Object(members.into_iter().map(|(k, v)| (k.to_string(), v)).collect())
}

fn member<'a>(v: &'a JsonValue, key: &str) -> Option<&'a JsonValue> {
    match v {
        JsonValue::Object(members) => members.iter().find(|(k, _)| k == key).map(|(_, v)| v),
        _ => None,
    }
}

fn number_text(v: &JsonValue) -> Option<&str> {
    match v {
        JsonValue::Number(n) => Some(n.as_str()),
        _ => None,
    }
}

#[test]
fn merge_overrides_and_adds_members_recursively() {
    let base = obj(vec![
        ("a", num("1")),
        ("nested", obj(vec![("x", num("1")), ("y", num("2"))])),
    ]);
    let runtime = obj(vec![
        ("nested", obj(vec![("y", num("20")), ("z", num("30"))])),
        ("b", num("3")),
    ]);
    let merged = merge_json_objects(base, runtime);
    assert_eq!(number_text(member(&merged, "a").unwrap()), Some("1"));
    assert_eq!(number_text(member(&merged, "b").unwrap()), Some("3"));
    let nested = member(&merged, "nested").unwrap();
    assert_eq!(number_text(member(nested, "x").unwrap()), Some("1"));
    assert_eq!(number_text(member(nested, "y").unwrap()), Some("20"));
    assert_eq!(number_text(member(nested, "z").unwrap()), Some("30"));
    match &merged {
        JsonValue::Object(members) => assert_eq!(members.len(), 3),
        _ => panic!("merged objects stay objects"),
    }
}

#[test]
fn merge_with_non_object_runtime_replaces_base() {
    let base = obj(vec![("a", num("1"))]);
    let merged = merge_json_objects(base, JsonValue::Str("full".to_string()));
    match merged {
        JsonValue::Str(s) => assert_eq!(s, "full"),
        _ => panic!("a string payload replaces the base"),
    }
    let merged = merge_json_objects(JsonValue::Null, obj(vec![("k", JsonValue::Bool(true))]));
    assert!(matches!(member(&merged, "k"), Some(JsonValue::Bool(true))));
}

#[test]
fn merge_with_empty_runtime_object_keeps_base() {
    let base = obj(vec![("a", num("1")), ("b", JsonValue::Array(vec![num("2")]))]);
    let merged = merge_json_objects(base, obj(vec![]));
    match &merged {
        JsonValue::Object(members) => {
            assert_eq!(members.len(), 2);
            assert_eq!(members[0].0, "a");
            assert_eq!(members[1].0, "b");
        }
        _ => panic!("object expected"),
    }
}

#[test]
fn duplicate_copies_a_document() {
    let doc = obj(vec![("a", JsonValue::Array(vec![num("1"), JsonValue::Null])), ("b", obj(vec![]))]);
    let copy = doc.duplicate();
    match (&doc, &copy) {
        (JsonValue::Object(x), JsonValue::Object(y)) => {
            assert_eq!(x.len(), y.len());
            assert_eq!(x[0].0, y[0].0);
        }
        _ => panic!("objects expected"),
    }
    assert!(matches!(member(&copy, "a"), Some(JsonValue::Array(items)) if items.len() == 2));
}

#[test]
fn merge_keeps_each_name_once_and_in_place() {
    let base = obj(vec![("a", num("1")), ("b", num("2")), ("c", num("3"))]);
    let runtime = obj(vec![("c", num("30")), ("d", num("4")), ("a", num("10"))]);
    let merged = merge_json_objects(base, runtime);
    match &merged {
        JsonValue::Object(members) => {
            let names: Vec<&str> = members.iter().map(|(k, _)| k.as_str()).collect();
            assert_eq!(names, vec!["a", "b", "c", "d"]);
        }
        _ => panic!("merged objects stay objects"),
    }
    assert_eq!(number_text(member(&merged, "a").unwrap()), Some("10"));
    assert_eq!(number_text(member(&merged, "c").unwrap()), Some("30"));
}
