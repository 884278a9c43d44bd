use averter::client::{
    canister, create_canister_client, is_absolute_url, json_headers, try_create_canister_client,
    ConfigError, UpstreamClient,
};

#[test]
fn absolute_urls_are_told_from_other_text() {
    assert!(is_absolute_url("https://api.example.net/"));
    assert!(is_absolute_url("http://localhost:3000/v2"));
    assert!(!is_absolute_url(""));
    assert!(!is_absolute_url("/relative/path"));
    assert!(!is_absolute_url("not a url"));
}

#[test]
fn client_starts_without_a_session() {
    let client = UpstreamClient::new();
    assert!(!client.is_initialized());
    assert!(client.try_current().is_none());
}

#[test]
fn session_is_installed_with_the_parsed_url_and_the_json_header() {
    let mut client = UpstreamClient::new();
    assert_eq!(try_create_canister_client(&mut client, "https://api.example.net"), Ok(()));
    assert!(client.is_initialized());
    let session = canister(&client);
    assert_eq!(session.base_url(), "https://api.example.net/");
    assert_eq!(
        session.default_headers(),
        &vec![("Accept".to_string(), "application/json".to_string())]
    );
    assert_eq!(client.current(), session);
}

#[test]
fn invalid_base_url_is_refused_and_nothing_is_installed() {
    let mut client = UpstreamClient::new();
    assert_eq!(
        try_create_canister_client(&mut client, "api.example.net"),
        Err(ConfigError::InvalidBaseUrl)
    );
    assert!(!client.is_initialized());
    assert_eq!(
        client.try_initialize("", Vec::new()),
        Err(ConfigError::InvalidBaseUrl)
    );
    assert!(client.try_current().is_none());
}

#[test]
fn session_is_installed_once() {
    let mut client = UpstreamClient::new();
    create_canister_client(&mut client, "https://first.example.net/");
    assert_eq!(
        try_create_canister_client(&mut client, "https://second.example.net/"),
        Err(ConfigError::AlreadyInitialized)
    );
    assert_eq!(
        client.try_initialize("not a url", Vec::new()),
        Err(ConfigError::AlreadyInitialized)
    );
    assert_eq!(canister(&client).base_url(), "https://first.example.net/");
}

#[test]
fn initialize_takes_the_given_headers() {
    let mut client = UpstreamClient::new();
    let headers = vec![("X-Token".to_string(), "t".to_string())];
    assert_eq!(client.try_initialize("https://api.example.net/base", headers.clone()), Ok(()));
    let session = client.try_current().expect("a session is installed");
    assert_eq!(session.default_headers(), &headers);
    assert_eq!(session.base_url(), "https://api.example.net/base");
}

#[test]
fn json_headers_ask_for_json() {
    assert_eq!(json_headers(), vec![("Accept".to_string(), "application/json".to_string())]);
}
