use proxy_agent_core::error::Error;
use proxy_agent_core::error::HyperErrorType;
use proxy_agent_core::error::KeyErrorType;
use proxy_agent_core::error::WireServerErrorType;
use proxy_agent_core::status_code::StatusCode;

#[test]
fn error_formatting_test() {
    let mut error = Error::hyper(HyperErrorType::ServerError(
        "testurl.com".to_string(),
        StatusCode::from_u16(500).unwrap(),
    ));
    assert_eq!(
        error.to_string(),
        "Failed to get response from testurl.com, status code: 500 Internal Server Error"
    );

    error = Error::wire_server(
        WireServerErrorType::Telemetry,
        "Invalid response".to_string(),
    );
    assert_eq!(
        error.to_string(),
        "Telemetry call to wire server failed with the error: Invalid response"
    );

    error = Error::key(KeyErrorType::SendKeyRequest(
        "acquire".to_string(),
        error.to_string(),
    ));
    assert_eq!(
        error.to_string(),
        "Key error: Failed to send acquire key with error: Telemetry call to wire server failed with the error: Invalid response"
    );
}

#[test]
fn io_error_template() {
    let cause = std::io::Error::new(std::io::ErrorKind::PermissionDenied, "denied");
    let error = Error::io("reading key file".to_string(), cause);
    assert_eq!(error.to_string(), "IO error: reading key file: denied");
}

#[test]
fn hex_error_template() {
    let cause = hex::decode("abc").unwrap_err();
    let error = Error::hex("abc".to_string(), cause);
    assert_eq!(
        error.to_string(),
        "Hex encoded key 'abc' is invalid: Odd number of digits"
    );
}

#[test]
fn hyper_custom_and_builder_templates() {
    let error = Error::hyper(HyperErrorType::Custom(
        "connecting to host".to_string(),
        "connection refused".to_string(),
    ));
    assert_eq!(error.to_string(), "connecting to host: connection refused");

    let error = Error::hyper(HyperErrorType::RequestBuilder("bad header".to_string()));
    assert_eq!(
        error.to_string(),
        "Failed to build request with error: bad header"
    );

    let error = Error::hyper(HyperErrorType::Deserialize("missing field".to_string()));
    assert_eq!(error.to_string(), "Deserialization failed: missing field");
}

#[test]
fn wire_server_templates() {
    let error = Error::wire_server(WireServerErrorType::GoalState, "timed out".to_string());
    assert_eq!(
        error.to_string(),
        "Goal state call to wire server failed with the error: timed out"
    );
    let error = Error::wire_server(WireServerErrorType::SharedConfig, "bad xml".to_string());
    assert_eq!(
        error.to_string(),
        "Shared config call to wire server failed with the error: bad xml"
    );
}

#[test]
fn key_error_templates() {
    let error = Error::key(KeyErrorType::KeyStatusValidation("stale".to_string()));
    assert_eq!(
        error.to_string(),
        "Key error: Key status validation failed with the error: stale"
    );

    let error = Error::key(KeyErrorType::KeyResponse(
        "release".to_string(),
        StatusCode::from_u16(404).unwrap(),
    ));
    assert_eq!(
        error.to_string(),
        "Key error: Failed to release key with status code: 404 Not Found"
    );

    let cause = "http://host host/path".parse::<http::Uri>().unwrap_err();
    let cause_text = cause.to_string();
    let error = Error::key(KeyErrorType::ParseKeyUrl(
        "http://host host".to_string(),
        "/path".to_string(),
        cause,
    ));
    assert_eq!(
        error.to_string(),
        format!(
            "Key error: Failed to join http://host host and /path with error: {}",
            cause_text
        )
    );
}

#[test]
fn parse_url_templates() {
    let cause = "http://exa mple.com".parse::<http::Uri>().unwrap_err();
    let cause_text = cause.to_string();
    let error = Error::parse_url("http://exa mple.com".to_string(), cause);
    assert_eq!(
        error.to_string(),
        format!(
            "Failed to parse URL http://exa mple.com with error: {}",
            cause_text
        )
    );

    let error = Error::parse_url_message("u".to_string(), "empty host".to_string());
    assert_eq!(error.to_string(), "Failed to parse URL u with error: empty host");
}

#[test]
fn status_code_construction_bounds() {
    assert!(StatusCode::from_u16(99).is_none());
    assert!(StatusCode::from_u16(1000).is_none());
    assert!(StatusCode::from_u16(100).is_some());
    assert!(StatusCode::from_u16(999).is_some());
    assert_eq!(StatusCode::from_u16(500).unwrap().as_u16(), 500);
}
