use averter::envelope::{
    api_notice, api_respond, cache_control, error_respond, http_respond, stable_fields, status_line,
    InternalServerError, Notice, Stamp,
};
use averter::json::{merge_json, Json, JsonObject};

fn stamp() -> Stamp {
    Stamp {
        notice: Notice {
            api: "api notice".to_string(),
            data: "data notice".to_string(),
            migration: "migration notice".to_string(),
        },
        date: "2024-01-01T00:00:00+00:00".to_string(),
    }
}

fn object(members: Vec<(&str, Json)>) -> Json {
    let mut object = JsonObject::new();
    for (key, document) in members {
        object.insert(key.to_string(), document);
    }
    Json::Object(object)
}

fn rendered(document: &Json) -> String {
    document.render().expect("a document can be written")
}

#[test]
fn status_lines() {
    assert_eq!(status_line(200), "200 OK");
    assert_eq!(status_line(400), "400 Bad Request");
    assert_eq!(status_line(404), "404 Not Found");
    assert_eq!(status_line(500), "500 Internal Server Error");
    assert_eq!(status_line(999), "999 Unknown");
    assert_eq!(status_line(100), "100 Continue");
}

#[test]
fn cache_control_values() {
    assert_eq!(cache_control(true), "public, max-age=3600");
    assert_eq!(cache_control(false), "no-cache");
}

#[test]
fn notice_document() {
    let document = api_notice(&stamp().notice);
    assert_eq!(
        rendered(&document),
        "{\n  \"api\": \"api notice\",\n  \"data\": \"data notice\",\n  \"migration\": \"migration notice\"\n}"
    );
}

#[test]
fn stable_fields_hold_notice_status_and_date() {
    let stamp = stamp();
    let expected = object(vec![
        ("notice", api_notice(&stamp.notice)),
        ("status", Json::text("404 Not Found")),
        ("date", Json::text("2024-01-01T00:00:00+00:00")),
    ]);
    assert_eq!(rendered(&stable_fields(404, &stamp.notice, &stamp.date)), rendered(&expected));
}

#[test]
fn envelope_puts_the_payload_beside_the_stable_fields() {
    let stable = object(vec![("status", Json::text("200 OK")), ("date", Json::text("d"))]);
    let payload = object(vec![("data", Json::Array(vec![Json::Number(1)]))]);
    let expected = object(vec![
        ("status", Json::text("200 OK")),
        ("date", Json::text("d")),
        ("data", Json::Array(vec![Json::Number(1)])),
    ]);
    assert_eq!(rendered(&merge_json(stable, payload)), rendered(&expected));
}

#[test]
fn stable_fields_win_for_the_keys_of_the_envelope() {
    let stable = object(vec![
        ("status", Json::text("200 OK")),
        ("date", Json::text("now")),
        ("notice", object(vec![("api", Json::text("n"))])),
    ]);
    let payload = object(vec![
        ("status", Json::text("forged")),
        ("date", Json::text("then")),
        ("notice", object(vec![("api", Json::text("forged")), ("extra", Json::Null)])),
        ("data", Json::Number(1)),
    ]);
    let expected = object(vec![
        ("status", Json::text("200 OK")),
        ("date", Json::text("now")),
        ("notice", object(vec![("api", Json::text("n"))])),
        ("data", Json::Number(1)),
    ]);
    assert_eq!(rendered(&merge_json(stable, payload)), rendered(&expected));
}

#[test]
fn other_keys_are_merged_deeply() {
    let stable = object(vec![("meta", object(vec![("a", Json::Number(1))]))]);
    let payload = object(vec![("meta", object(vec![("b", Json::Number(2))]))]);
    let expected =
        object(vec![("meta", object(vec![("a", Json::Number(1)), ("b", Json::Number(2))]))]);
    assert_eq!(rendered(&merge_json(stable, payload)), rendered(&expected));
}

#[test]
fn payload_keeps_a_key_of_the_envelope_that_the_stable_fields_lack() {
    let stable = object(vec![("status", Json::text("200 OK"))]);
    let payload = object(vec![("date", Json::text("from payload"))]);
    let expected =
        object(vec![("status", Json::text("200 OK")), ("date", Json::text("from payload"))]);
    assert_eq!(rendered(&merge_json(stable, payload)), rendered(&expected));
}

#[test]
fn payload_that_is_no_object_stands_alone() {
    let stable = object(vec![("status", Json::text("200 OK"))]);
    assert_eq!(rendered(&merge_json(stable, Json::text("plain"))), "\"plain\"");
}

#[test]
fn http_respond_sends_the_document_as_it_is() {
    let reply = http_respond(200, object(vec![("healthy", Json::Bool(true))])).unwrap();
    assert_eq!(reply.status, 200);
    assert_eq!(reply.content_type, "application/json");
    assert_eq!(reply.cache_control, "no-cache");
    assert_eq!(reply.body, "{\n  \"healthy\": true\n}");
}

#[test]
fn api_respond_wraps_the_document() {
    let stamp = stamp();
    let reply = api_respond(200, true, object(vec![("data", Json::text("safe"))]), &stamp).unwrap();
    assert_eq!(reply.status, 200);
    assert_eq!(reply.cache_control, "public, max-age=3600");
    let expected = object(vec![
        ("notice", api_notice(&stamp.notice)),
        ("status", Json::text("200 OK")),
        ("date", Json::text(&stamp.date)),
        ("data", Json::text("safe")),
    ]);
    assert_eq!(reply.body, rendered(&expected));
}

#[test]
fn error_respond_carries_the_message() {
    let stamp = stamp();
    let reply = error_respond(400, "Missing query parameter: 'id'", &stamp).unwrap();
    assert_eq!(reply.status, 400);
    assert_eq!(reply.cache_control, "no-cache");
    let expected = object(vec![
        ("notice", api_notice(&stamp.notice)),
        ("status", Json::text("400 Bad Request")),
        ("date", Json::text(&stamp.date)),
        ("error", Json::text("Missing query parameter: 'id'")),
    ]);
    assert_eq!(reply.body, rendered(&expected));
}

#[test]
fn not_found_reply_has_an_empty_payload() {
    let stamp = stamp();
    let reply = api_respond(404, false, Json::Object(JsonObject::new()), &stamp).unwrap();
    assert_eq!(reply.status, 404);
    assert!(reply.body.contains("\"status\": \"404 Not Found\""));
}

#[test]
fn numbers_that_are_no_status_are_refused() {
    let stamp = stamp();
    for code in [0u16, 1, 99, 1000, 65535] {
        assert_eq!(http_respond(code, Json::Null), Err(InternalServerError {}));
        assert_eq!(api_respond(code, false, Json::Null, &stamp), Err(InternalServerError {}));
        assert_eq!(error_respond(code, "x", &stamp), Err(InternalServerError {}));
    }
    assert!(http_respond(100, Json::Null).is_ok());
    assert!(http_respond(999, Json::Null).is_ok());
}

#[test]
fn payload_cannot_forge_the_status_line_of_a_reply() {
    let stamp = stamp();
    let payload = object(vec![
        ("status", Json::text("200 OK")),
        ("date", Json::text("1970-01-01")),
        ("data", Json::Number(1)),
    ]);
    let reply = api_respond(404, false, payload, &stamp).unwrap();
    let expected = object(vec![
        ("notice", api_notice(&stamp.notice)),
        ("status", Json::text("404 Not Found")),
        ("date", Json::text(&stamp.date)),
        ("data", Json::Number(1)),
    ]);
    assert_eq!(reply.body, rendered(&expected));
}

#[test]
fn internal_server_error_is_written_on_one_line() {
    let document = InternalServerError {}.error_response("d");
    assert_eq!(
        document.render_compact().unwrap(),
        "{\"date\":\"d\",\"message\":\"Internal Server Error\"}"
    );
}

#[test]
fn internal_server_error_speaks_for_itself() {
    let error = InternalServerError {};
    assert_eq!(error.status_code(), 500);
    assert_eq!(error.to_string(), "Internal Server Error");
    let expected = object(vec![
        ("message", Json::text("Internal Server Error")),
        ("date", Json::text("d")),
    ]);
    assert_eq!(rendered(&error.error_response("d")), rendered(&expected));
}
