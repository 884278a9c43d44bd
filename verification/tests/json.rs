use averter::json::{json_stringify, merge_json, merge_json_value, Json, JsonObject};

fn object(members: Vec<(&str, Json)>) -> Json {
    let mut object = JsonObject::new();
    for (key, document) in members {
        object.insert(key.to_string(), document);
    }
    Json::Object(object)
}

fn rendered(document: &Json) -> String {
    document.render().expect("a document can be written")
}

#[test]
fn scalars_are_written_as_json() {
    assert_eq!(rendered(&Json::Null), "null");
    assert_eq!(rendered(&Json::Bool(true)), "true");
    assert_eq!(rendered(&Json::Number(-7)), "-7");
    assert_eq!(rendered(&Json::text("a\"b")), "\"a\\\"b\"");
    assert_eq!(rendered(&Json::optional_text(&None)), "null");
    assert_eq!(rendered(&Json::optional_text(&Some("x".to_string()))), "\"x\"");
}

#[test]
fn objects_are_written_in_the_order_of_their_keys() {
    let document = object(vec![("b", Json::Number(2)), ("a", Json::Number(1))]);
    assert_eq!(rendered(&document), "{\n  \"a\": 1,\n  \"b\": 2\n}");
    let other = object(vec![("a", Json::Number(1)), ("b", Json::Number(2))]);
    assert_eq!(rendered(&document), rendered(&other));
}

#[test]
fn arrays_keep_their_order() {
    let document = Json::Array(vec![Json::Number(2), Json::Number(1), Json::Null]);
    assert_eq!(rendered(&document), "[\n  2,\n  1,\n  null\n]");
    assert_eq!(rendered(&Json::Array(Vec::new())), "[]");
    assert_eq!(rendered(&Json::Object(JsonObject::new())), "{}");
}

#[test]
fn object_holds_each_key_once() {
    let mut members = JsonObject::new();
    members.insert("k".to_string(), Json::Number(1));
    members.insert("k".to_string(), Json::Number(2));
    assert_eq!(members.len(), 1);
    assert!(members.contains_key("k"));
    assert!(!members.contains_key("other"));
    assert!(matches!(members.get("k"), Some(Json::Number(2))));
    assert!(members.get("other").is_none());
    assert!(matches!(members.remove(&"k".to_string()), Some(Json::Number(2))));
    assert!(members.remove(&"k".to_string()).is_none());
    assert_eq!(members.len(), 0);
}

#[test]
fn with_builds_an_object() {
    let members = JsonObject::new().with("a", Json::Null).with("b", Json::Bool(false));
    assert_eq!(members.len(), 2);
    assert_eq!(rendered(&Json::Object(members)), "{\n  \"a\": null,\n  \"b\": false\n}");
}

#[test]
fn merge_of_objects_takes_keys_from_both_and_prefers_the_right() {
    let left = object(vec![("a", Json::Number(1)), ("b", Json::Number(2))]);
    let right = object(vec![("b", Json::Number(20)), ("c", Json::Number(30))]);
    let merged = merge_json(left, right);
    let expected = object(vec![
        ("a", Json::Number(1)),
        ("b", Json::Number(20)),
        ("c", Json::Number(30)),
    ]);
    assert_eq!(rendered(&merged), rendered(&expected));
}

#[test]
fn merge_goes_into_nested_objects() {
    let left = object(vec![(
        "outer",
        object(vec![("keep", Json::text("l")), ("change", Json::text("l"))]),
    )]);
    let right = object(vec![(
        "outer",
        object(vec![("change", Json::text("r")), ("add", Json::text("r"))]),
    )]);
    let expected = object(vec![(
        "outer",
        object(vec![
            ("keep", Json::text("l")),
            ("change", Json::text("r")),
            ("add", Json::text("r")),
        ]),
    )]);
    assert_eq!(rendered(&merge_json(left, right)), rendered(&expected));
}

#[test]
fn merge_overwrites_what_is_no_object_wholesale() {
    let left = object(vec![
        ("list", Json::Array(vec![Json::Number(1), Json::Number(2)])),
        ("was_object", object(vec![("x", Json::Number(1))])),
        ("was_text", Json::text("t")),
    ]);
    let right = object(vec![
        ("list", Json::Array(vec![Json::Number(3)])),
        ("was_object", Json::Null),
        ("was_text", object(vec![("y", Json::Number(2))])),
    ]);
    let expected = object(vec![
        ("list", Json::Array(vec![Json::Number(3)])),
        ("was_object", Json::Null),
        ("was_text", object(vec![("y", Json::Number(2))])),
    ]);
    assert_eq!(rendered(&merge_json(left, right)), rendered(&expected));
}

#[test]
fn merge_with_something_that_is_no_object_gives_the_right_side() {
    let left = object(vec![("a", Json::Number(1))]);
    assert_eq!(rendered(&merge_json(left, Json::Number(5))), "5");
    let right = object(vec![("a", Json::Number(1))]);
    assert_eq!(rendered(&merge_json(Json::Null, right)), "{\n  \"a\": 1\n}");
}

#[test]
fn merge_in_place_changes_the_left_document() {
    let mut left = object(vec![("a", Json::Number(1))]);
    merge_json_value(&mut left, object(vec![("b", Json::Number(2))]));
    assert_eq!(rendered(&left), "{\n  \"a\": 1,\n  \"b\": 2\n}");
    merge_json_value(&mut left, Json::Bool(true));
    assert_eq!(rendered(&left), "true");
}

#[test]
fn merge_with_an_empty_object_changes_nothing() {
    let left = object(vec![("a", object(vec![("b", Json::Number(1))]))]);
    let same = object(vec![("a", object(vec![("b", Json::Number(1))]))]);
    assert_eq!(rendered(&merge_json(left, Json::Object(JsonObject::new()))), rendered(&same));
}

#[test]
fn merge_keeps_the_stable_date_and_takes_the_data() {
    let stable = object(vec![("message", Json::text("200 OK")), ("date", Json::text("S"))]);
    let payload =
        object(vec![("date", Json::text("P")), ("data", Json::Array(vec![Json::Number(1)]))]);
    let expected = object(vec![
        ("message", Json::text("200 OK")),
        ("date", Json::text("S")),
        ("data", Json::Array(vec![Json::Number(1)])),
    ]);
    assert_eq!(rendered(&merge_json(stable, payload)), rendered(&expected));
}

#[test]
fn merge_keeps_status_date_and_notice_of_the_left_document() {
    let left = object(vec![
        ("status", Json::text("left")),
        ("date", Json::text("left")),
        ("notice", object(vec![("api", Json::text("left"))])),
        ("other", Json::text("left")),
    ]);
    let right = object(vec![
        ("status", Json::text("right")),
        ("date", Json::text("right")),
        ("notice", object(vec![("api", Json::text("right")), ("more", Json::Null)])),
        ("other", Json::text("right")),
    ]);
    let expected = object(vec![
        ("status", Json::text("left")),
        ("date", Json::text("left")),
        ("notice", object(vec![("api", Json::text("left"))])),
        ("other", Json::text("right")),
    ]);
    assert_eq!(rendered(&merge_json(left, right)), rendered(&expected));
}

#[test]
fn merge_protects_the_top_level_only() {
    let left = object(vec![("inner", object(vec![("date", Json::text("left"))]))]);
    let right = object(vec![("inner", object(vec![("date", Json::text("right"))]))]);
    let expected = object(vec![("inner", object(vec![("date", Json::text("right"))]))]);
    assert_eq!(rendered(&merge_json(left, right)), rendered(&expected));
}

#[test]
fn merge_takes_a_key_of_the_envelope_that_the_left_document_lacks() {
    let left = object(vec![("status", Json::text("left"))]);
    let right = object(vec![("date", Json::text("right"))]);
    let expected = object(vec![("status", Json::text("left")), ("date", Json::text("right"))]);
    assert_eq!(rendered(&merge_json(left, right)), rendered(&expected));
}

#[test]
fn merge_in_place_lets_the_right_side_win_everywhere() {
    let mut left = object(vec![("date", Json::text("left")), ("a", Json::Number(1))]);
    merge_json_value(&mut left, object(vec![("date", Json::text("right"))]));
    let expected = object(vec![("date", Json::text("right")), ("a", Json::Number(1))]);
    assert_eq!(rendered(&left), rendered(&expected));
}

#[test]
fn compact_text_is_on_one_line() {
    let document = object(vec![
        ("b", Json::Array(vec![Json::Number(1), Json::Null])),
        ("a", object(vec![("x", Json::text("y"))])),
    ]);
    assert_eq!(document.render_compact().unwrap(), "{\"a\":{\"x\":\"y\"},\"b\":[1,null]}");
    assert_eq!(Json::Null.render_compact().unwrap(), "null");
}

#[test]
fn json_stringify_indents_by_four_spaces() {
    let document = object(vec![("b", Json::Number(2)), ("a", Json::Array(vec![Json::Bool(true)]))]);
    assert_eq!(
        json_stringify(&document).unwrap(),
        "{\n    \"a\": [\n        true\n    ],\n    \"b\": 2\n}"
    );
    assert_eq!(json_stringify(&Json::text("x")).unwrap(), "\"x\"");
    assert_eq!(json_stringify(&Json::Object(JsonObject::new())).unwrap(), "{}");
}
