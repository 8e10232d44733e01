use audiobookshelf_mcp::client::{
    api_url, authorization_value, connected_username, connection_failure_message,
    connection_failure_text, empty_body_response, error_hint, failure_text, format_status,
    http_error_message, is_success, normalize_base_url, ClientConfigError,
};
use audiobookshelf_mcp::json::JsonValue;

fn object(pairs: Vec<(&str, JsonValue)>) -> JsonValue {
    JsonValue::Object(pairs.into_iter().map(|(k, v)| (k.to_string(), v)).collect())
}

#[test]
fn authorization_value_is_bearer_token() {
    assert_eq!(authorization_value("abc123").unwrap(), "Bearer abc123");
    assert_eq!(authorization_value("").unwrap(), "Bearer ");
    assert_eq!(authorization_value("tab\there").unwrap(), "Bearer tab\there");
    assert_eq!(authorization_value("café").unwrap(), "Bearer café");
}

#[test]
fn authorization_value_rejects_control_characters() {
    assert_eq!(authorization_value("line\nbreak"), Err(ClientConfigError::InvalidApiToken));
    assert_eq!(authorization_value("del\u{7f}"), Err(ClientConfigError::InvalidApiToken));
    assert_eq!(authorization_value("nul\0"), Err(ClientConfigError::InvalidApiToken));
}

#[test]
fn base_url_loses_trailing_slashes() {
    assert_eq!(normalize_base_url("http://localhost:13378/"), "http://localhost:13378");
    assert_eq!(normalize_base_url("http://localhost:13378///"), "http://localhost:13378");
    assert_eq!(normalize_base_url("http://localhost:13378"), "http://localhost:13378");
    assert_eq!(normalize_base_url("///"), "");
    assert_eq!(normalize_base_url("http://host/abs/"), "http://host/abs");
}

#[test]
fn api_url_joins_base_api_and_path() {
    assert_eq!(api_url("http://h:1", "/libraries"), "http://h:1/api/libraries");
    assert_eq!(api_url("http://h:1", "/me"), "http://h:1/api/me");
}

#[test]
fn success_is_the_2xx_range() {
    assert!(!is_success(199));
    assert!(is_success(200));
    assert!(is_success(204));
    assert!(is_success(299));
    assert!(!is_success(300));
    assert!(!is_success(404));
}

#[test]
fn error_hints_by_status() {
    assert_eq!(
        error_hint(401),
        " [Hint: API token is invalid or expired — generate a new one in Settings → Users → API Keys]"
    );
    assert_eq!(error_hint(403), error_hint(401));
    assert_eq!(
        error_hint(404),
        " [Hint: resource not found — check the item/library ID is correct]"
    );
    assert_eq!(error_hint(429), " [Hint: rate limited — wait before retrying]");
    assert_eq!(
        error_hint(503),
        " [Hint: Audiobookshelf is temporarily unavailable — try again later]"
    );
    assert_eq!(error_hint(500), "");
    assert_eq!(error_hint(200), "");
}

#[test]
fn status_is_displayed_with_its_reason() {
    assert_eq!(format_status(404, Some("Not Found")), "404 Not Found");
    assert_eq!(format_status(599, None), "599 <unknown status code>");
    assert_eq!(
        failure_text(418, Some("I'm a teapot"), " short "),
        "HTTP 418 I'm a teapot: short"
    );
    assert_eq!(failure_text(599, None, "x"), "HTTP 599 <unknown status code>: x");
    assert_eq!(
        connection_failure_text(403, Some("Forbidden")),
        "connection test failed: HTTP 403 Forbidden — check --server-url and --api-token"
    );
}

#[test]
fn status_reasons_come_from_the_http_table() {
    assert_eq!(http_error_message(500, ""), "HTTP 500 Internal Server Error: ");
    assert_eq!(http_error_message(418, ""), "HTTP 418 I'm a teapot: ");
    assert_eq!(http_error_message(599, ""), "HTTP 599 <unknown status code>: ");
    assert_eq!(http_error_message(99, ""), "HTTP 99 <unknown status code>: ");
}

#[test]
fn http_error_message_has_status_body_and_hint() {
    assert_eq!(
        http_error_message(404, "  no such item \n"),
        "HTTP 404 Not Found: no such item [Hint: resource not found — check the item/library ID is correct]"
    );
    assert_eq!(
        http_error_message(500, "boom"),
        "HTTP 500 Internal Server Error: boom"
    );
    assert_eq!(http_error_message(502, ""), "HTTP 502 Bad Gateway: ");
}

#[test]
fn connection_failure_names_the_options() {
    assert_eq!(
        connection_failure_message(401),
        "connection test failed: HTTP 401 Unauthorized — check --server-url and --api-token"
    );
}

#[test]
fn empty_body_answers_success() {
    assert_eq!(
        empty_body_response(),
        object(vec![("success", JsonValue::Bool(true))])
    );
}

#[test]
fn username_or_unknown() {
    let user = object(vec![("username", JsonValue::String("root".to_string()))]);
    assert_eq!(connected_username(&user), "root");
    let numeric = object(vec![("username", JsonValue::Bool(true))]);
    assert_eq!(connected_username(&numeric), "unknown");
    assert_eq!(connected_username(&JsonValue::Null), "unknown");
    assert_eq!(connected_username(&object(vec![])), "unknown");
}

#[test]
fn normalizing_twice_changes_nothing() {
    for url in ["http://h//", "http://h", "/", "", "a/b/"] {
        let once = normalize_base_url(url);
        assert!(!once.ends_with('/'));
        assert_eq!(normalize_base_url(&once), once);
    }
}
