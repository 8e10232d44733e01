use audiobookshelf_mcp::access::{http_exposure, is_request_authorized, HttpExposure};

#[test]
fn no_token_lets_everything_through() {
    assert!(is_request_authorized(None, None));
    assert!(is_request_authorized(None, Some("Bearer anything")));
    assert!(is_request_authorized(None, Some("garbage")));
}

#[test]
fn token_requires_matching_bearer_header() {
    assert!(is_request_authorized(Some("s3cret"), Some("Bearer s3cret")));
    assert!(!is_request_authorized(Some("s3cret"), None));
    assert!(!is_request_authorized(Some("s3cret"), Some("Bearer s3cre")));
    assert!(!is_request_authorized(Some("s3cret"), Some("Bearer s3cret ")));
    assert!(!is_request_authorized(Some("s3cret"), Some("bearer s3cret")));
    assert!(!is_request_authorized(Some("s3cret"), Some("s3cret")));
    assert!(!is_request_authorized(Some("s3cret"), Some("Bearer")));
    assert!(!is_request_authorized(Some("s3cret"), Some("")));
}

#[test]
fn empty_token_matches_bare_prefix() {
    assert!(is_request_authorized(Some(""), Some("Bearer ")));
    assert!(!is_request_authorized(Some(""), Some("Bearer x")));
}

#[test]
fn exposure_decisions() {
    assert_eq!(http_exposure(true, false, false), HttpExposure::Protected);
    assert_eq!(http_exposure(true, true, true), HttpExposure::Protected);
    assert_eq!(http_exposure(false, true, false), HttpExposure::OpenOnLoopback);
    assert_eq!(http_exposure(false, false, true), HttpExposure::OpenByRequest);
    assert_eq!(http_exposure(false, false, false), HttpExposure::Refused);
}
