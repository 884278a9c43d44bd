use averter::classify::{
    classify, status_class, Body, ClassifiedResult, Decoded, GatewayError, StatusClass, UpstreamError,
};

fn error_body(message: &str) -> Body<u8> {
    Body::Rejection(UpstreamError {
        message: message.to_string(),
        date: "d".to_string(),
        error: None,
    })
}

fn data(value: u8) -> Decoded<u8> {
    Decoded { value, canonical: Some(value.to_string()) }
}

#[test]
fn status_table() {
    assert_eq!(status_class(200), StatusClass::Success);
    assert_eq!(status_class(400), StatusClass::ClientError);
    assert_eq!(status_class(404), StatusClass::NotFound);
    for status in [0u16, 199, 201, 399, 401, 403, 405, 500, 502, 65535] {
        assert_eq!(status_class(status), StatusClass::ServerError);
    }
}

#[test]
fn classification_by_status_and_body() {
    assert_eq!(classify(200, Body::Data(data(1))), ClassifiedResult::Success(data(1)));
    assert_eq!(classify(400, error_body("bad")), ClassifiedResult::ClientError("bad".to_string()));
    assert_eq!(classify(404, error_body("gone")), ClassifiedResult::NotFound("gone".to_string()));
    assert_eq!(
        classify(500, Body::Data(data(1))),
        ClassifiedResult::ServerError(GatewayError::UpstreamUnexpected)
    );
    assert_eq!(
        classify(200, error_body("bad")),
        ClassifiedResult::ServerError(GatewayError::DeserializationFailed)
    );
    assert_eq!(
        classify(404, Body::Data(data(1))),
        ClassifiedResult::ServerError(GatewayError::DeserializationFailed)
    );
    assert_eq!(
        classify::<u8>(400, Body::Unreadable),
        ClassifiedResult::ServerError(GatewayError::DeserializationFailed)
    );
}

#[test]
fn surfacing_collapses_not_found_into_rejected() {
    let not_found = classify(404, error_body("x")).surface();
    let bad_request = classify(400, error_body("x")).surface();
    assert_eq!(not_found, Err(GatewayError::UpstreamRejected("x".to_string())));
    assert_eq!(not_found, bad_request);
    assert_eq!(classify(200, Body::Data(data(9))).surface(), Ok(data(9)));
    assert_eq!(
        classify(503, Body::Data(data(9))).surface(),
        Err(GatewayError::UpstreamUnexpected)
    );
}

#[test]
fn error_status_and_words() {
    let rejected = GatewayError::UpstreamRejected("no such package".to_string());
    assert_eq!(rejected.status_code(), 400);
    assert_eq!(rejected.message(), "no such package");
    assert_eq!(GatewayError::UpstreamUnreachable.status_code(), 500);
    assert_eq!(GatewayError::UpstreamUnreachable.message(), "Failed to execute Canister query");
    assert_eq!(GatewayError::UpstreamUnexpected.status_code(), 500);
    assert_eq!(GatewayError::UpstreamUnexpected.message(), "Failed to fetch from Canister");
    assert_eq!(GatewayError::DeserializationFailed.status_code(), 500);
    assert_eq!(GatewayError::DeserializationFailed.message(), "Failed to parse Canister response");
}
