use vstd::prelude::*;

use crate::json::{
    as_str, entries_model, get, get_member, lemma_model_object, string_of, Json, JsonValue,
};
use crate::text::{
    concat2, decimal, decimal_string, trim_end, trim_trailing_slashes, trim_whitespace, trim_ws,
};
use vstd::string::StringExecFns;

verus! {

/// Whether a byte may stand in an HTTP header value: visible ASCII, a
/// space, a tab, or any byte from 0x80 up.
pub open spec fn header_byte_ok(b: u8) -> bool {
    (b >= 32 && b != 127) || b == 9
}

/// Whether the UTF-8 encoding of `s` may stand in an HTTP header value.
pub open spec fn header_value_ok(s: Seq<char>) -> bool {
    forall|i: int|
        0 <= i < vstd::utf8::encode_utf8(s).len() ==> header_byte_ok(
            #[trigger] vstd::utf8::encode_utf8(s)[i],
        )
}

/// `reqwest::header::HeaderValue::from_str(value).is_ok()`: the header value
/// is accepted exactly when each byte of the text is a tab or at least 32
/// and not 127.
#[verifier::external_body]
fn header_value_accepts(value: &str) -> (r: bool)
    ensures
        r == header_value_ok(value@),
{
    reqwest::header::HeaderValue::from_str(value).is_ok()
}

/// Errors in the client's configuration.
#[derive(Clone, Copy, Debug, PartialEq, Eq)]
pub enum ClientConfigError {
    /// The API token cannot stand in an `Authorization` header.
    InvalidApiToken,
}

/// The value of the `Authorization` header that carries the API token.
pub open spec fn bearer(token: Seq<char>) -> Seq<char> {
    "Bearer "@ + token
}

/// The `Authorization` header value for an API token, or an error when the
/// token cannot stand in a header.
pub fn authorization_value(api_token: &str) -> (r: Result<String, ClientConfigError>)
    ensures
        match r {
            Ok(v) => v@ == bearer(api_token@) && header_value_ok(bearer(api_token@)),
            Err(e) => e == ClientConfigError::InvalidApiToken && !header_value_ok(
                bearer(api_token@),
            ),
        },
{
    let value = concat2("Bearer ", api_token);
    if header_value_accepts(value.as_str()) {
        Ok(value)
    } else {
        Err(ClientConfigError::InvalidApiToken)
    }
}

/// The server's base URL: the given URL without trailing slashes.
pub fn normalize_base_url(server_url: &str) -> (r: String)
    ensures
        r@ == trim_end(server_url@, '/'),
{
    trim_trailing_slashes(server_url)
}

/// The URL of an API path: the base URL, then `/api`, then the path.
pub fn api_url(base_url: &str, path: &str) -> (r: String)
    ensures
        r@ == base_url@ + "/api"@ + path@,
{
    let mut url = String::from_str(base_url);
    url.append("/api");
    url.append(path);
    url
}

/// Whether a status code reports success (2xx).
pub fn is_success(status: u16) -> (r: bool)
    ensures
        r == (200 <= status <= 299),
{
    200 <= status && status <= 299
}

/// The hint added to the message of a failed request.
pub open spec fn hint(status: u16) -> Seq<char> {
    if status == 401 || status == 403 {
        " [Hint: API token is invalid or expired — generate a new one in Settings → Users → API Keys]"@
    } else if status == 404 {
        " [Hint: resource not found — check the item/library ID is correct]"@
    } else if status == 429 {
        " [Hint: rate limited — wait before retrying]"@
    } else if status == 503 {
        " [Hint: Audiobookshelf is temporarily unavailable — try again later]"@
    } else {
        ""@
    }
}

/// The hint for a failed request's status code.
pub fn error_hint(status: u16) -> (r: &'static str)
    ensures
        r@ == hint(status),
{
    if status == 401 || status == 403 {
        " [Hint: API token is invalid or expired — generate a new one in Settings → Users → API Keys]"
    } else if status == 404 {
        " [Hint: resource not found — check the item/library ID is correct]"
    } else if status == 429 {
        " [Hint: rate limited — wait before retrying]"
    } else if status == 503 {
        " [Hint: Audiobookshelf is temporarily unavailable — try again later]"
    } else {
        ""
    }
}

/// The reason phrase that the `http` crate's table gives a status code.
pub uninterp spec fn canonical_reason(status: u16) -> Option<Seq<char>>;

/// `StatusCode::from_u16(status)` and then `canonical_reason()`: the reason
/// phrase of the status code in the `http` crate's table, if it has one.
#[verifier::external_body]
fn status_reason(status: u16) -> (r: Option<&'static str>)
    ensures
        canonical_reason(status) == match r {
            Some(s) => Some(s@),
            None => None,
        },
{
    match reqwest::StatusCode::from_u16(status) {
        Ok(code) => code.canonical_reason(),
        Err(_) => None,
    }
}

/// How a status code is displayed: its number, a space, and its reason
/// phrase, or `<unknown status code>` when there is none.
pub open spec fn status_display(status: u16, reason: Option<Seq<char>>) -> Seq<char> {
    decimal(status as nat) + " "@ + match reason {
        Some(r) => r,
        None => "<unknown status code>"@,
    }
}

/// The text of an optional string slice.
pub open spec fn opt_view(s: Option<&str>) -> Option<Seq<char>> {
    match s {
        Some(t) => Some(t@),
        None => None,
    }
}

/// Displays a status code with the given reason phrase.
pub fn format_status(status: u16, reason: Option<&str>) -> (r: String)
    ensures
        r@ == status_display(status, opt_view(reason)),
{
    let mut out = decimal_string(status as u64);
    out.append(" ");
    match reason {
        Some(s) => out.append(s),
        None => out.append("<unknown status code>"),
    }
    out
}

/// The message of a request that failed with `status`, given the reason
/// phrase of the status and the response body.
pub open spec fn failure_message(status: u16, reason: Option<Seq<char>>, body: Seq<char>) -> Seq<
    char,
> {
    "HTTP "@ + status_display(status, reason) + ": "@ + trim_ws(body) + hint(status)
}

/// The message of a failed request, given the reason phrase of its status.
pub fn failure_text(status: u16, reason: Option<&str>, body: &str) -> (r: String)
    ensures
        r@ == failure_message(status, opt_view(reason), body@),
{
    let mut out = String::from_str("HTTP ");
    let shown = format_status(status, reason);
    out.append(shown.as_str());
    out.append(": ");
    out.append(trim_whitespace(body));
    out.append(error_hint(status));
    out
}

/// The error message for a failed request: the status as the `http` crate
/// displays it, the trimmed body, and a hint.
pub fn http_error_message(status: u16, body: &str) -> (r: String)
    ensures
        r@ == failure_message(status, canonical_reason(status), body@),
{
    failure_text(status, status_reason(status), body)
}

/// The error message when the connection test gets a failure status.
pub open spec fn connection_failure(status: u16, reason: Option<Seq<char>>) -> Seq<char> {
    "connection test failed: HTTP "@ + status_display(status, reason)
        + " — check --server-url and --api-token"@
}

/// The message of a failed connection test, given the reason phrase of its
/// status.
pub fn connection_failure_text(status: u16, reason: Option<&str>) -> (r: String)
    ensures
        r@ == connection_failure(status, opt_view(reason)),
{
    let mut out = String::from_str("connection test failed: HTTP ");
    let shown = format_status(status, reason);
    out.append(shown.as_str());
    out.append(" — check --server-url and --api-token");
    out
}

/// The error message of a failed connection test.
pub fn connection_failure_message(status: u16) -> (r: String)
    ensures
        r@ == connection_failure(status, canonical_reason(status)),
{
    connection_failure_text(status, status_reason(status))
}

/// What a successful request with an empty body answers: `{"success": true}`.
pub open spec fn empty_success() -> Json {
    Json::Object(seq![("success"@, Json::Bool(true))])
}

/// The answer to a successful request whose body is empty.
pub fn empty_body_response() -> (r: JsonValue)
    ensures
        r@ == empty_success(),
{
    let mut entries: Vec<(String, JsonValue)> = Vec::new();
    entries.push((String::from_str("success"), JsonValue::Bool(true)));
    proof {
        lemma_model_object(entries);
        assert(entries_model(entries@) =~= seq![("success"@, Json::Bool(true))]);
    }
    JsonValue::Object(entries)
}

/// The user name that `/api/me` reports, or `unknown`.
pub open spec fn username_of(user: Json) -> Seq<char> {
    match as_str(get(user, "username"@)) {
        Some(name) => name,
        None => "unknown"@,
    }
}

/// The user name in the answer to `/api/me`.
pub fn connected_username(user: &JsonValue) -> (r: String)
    ensures
        r@ == username_of(user@),
{
    match string_of(get_member(user, "username")) {
        Some(name) => name.clone(),
        None => String::from_str("unknown"),
    }
}

} // verus!
