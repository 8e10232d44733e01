use subtle::ConstantTimeEq;
use vstd::prelude::*;

use crate::client::bearer;
use crate::text::strip_prefix;
use vstd::string::StringSliceAdditionalSpecFns;

verus! {

broadcast use vstd::utf8::encode_utf8_decode_utf8;

/// `bool::from(a.ct_eq(b))` from `subtle`: whether the two byte strings are
/// equal, compared in time that does not depend on their contents.
#[verifier::external_body]
fn constant_time_equal(a: &[u8], b: &[u8]) -> (r: bool)
    ensures
        r == (a@ == b@),
{
    bool::from(a.ct_eq(b))
}

/// Whether a request may reach the MCP endpoint: with no token configured
/// every request may; with one, only a request whose `Authorization` header
/// is `Bearer ` followed by the token.
pub open spec fn authorized(expected: Option<Seq<char>>, authorization: Option<Seq<char>>) -> bool {
    match expected {
        None => true,
        Some(token) => authorization == Some(bearer(token)),
    }
}

/// Decides whether a request may reach the MCP endpoint, comparing the
/// token in constant time.
pub fn is_request_authorized(expected: Option<&str>, authorization: Option<&str>) -> (r: bool)
    ensures
        r == authorized(
            match expected {
                Some(t) => Some(t@),
                None => None,
            },
            match authorization {
                Some(h) => Some(h@),
                None => None,
            },
        ),
{
    match expected {
        None => true,
        Some(token) => match authorization {
            None => false,
            Some(header) => {
                proof {
                    reveal_strlit("Bearer ");
                }
                match strip_prefix(header, "Bearer ") {
                    Some(provided) => {
                        let same = constant_time_equal(provided.as_bytes(), token.as_bytes());
                        proof {
                            if provided.spec_bytes() == token.spec_bytes() {
                                assert(vstd::utf8::decode_utf8(provided.spec_bytes()) == token@);
                            }
                            if provided@ == token@ {
                                assert(header@ == bearer(token@));
                            }
                            if header@ == bearer(token@) {
                                assert(provided@ =~= header@.skip(7));
                                assert(token@ =~= bearer(token@).skip(7));
                            }
                        }
                        same
                    },
                    None => {
                        proof {
                            if header@ == bearer(token@) {
                                assert(header@.take(7) =~= "Bearer "@);
                            }
                        }
                        false
                    },
                }
            },
        },
    }
}

/// How the HTTP transport exposes the MCP endpoint.
#[derive(Clone, Copy, Debug, PartialEq, Eq)]
pub enum HttpExposure {
    /// A token protects the endpoint.
    Protected,
    /// No token, but the server listens on a loopback address only.
    OpenOnLoopback,
    /// No token on a non-loopback address, as explicitly allowed.
    OpenByRequest,
    /// No token on a non-loopback address without permission: the server
    /// refuses to start.
    Refused,
}

/// The exposure of the HTTP transport, as the options decide it.
pub open spec fn exposure(has_token: bool, loopback: bool, allow_unauthenticated: bool) -> HttpExposure {
    if has_token {
        HttpExposure::Protected
    } else if loopback {
        HttpExposure::OpenOnLoopback
    } else if allow_unauthenticated {
        HttpExposure::OpenByRequest
    } else {
        HttpExposure::Refused
    }
}

/// Decides how the HTTP transport exposes the endpoint.
pub fn http_exposure(has_token: bool, loopback: bool, allow_unauthenticated: bool) -> (r: HttpExposure)
    ensures
        r == exposure(has_token, loopback, allow_unauthenticated),
{
    if has_token {
        HttpExposure::Protected
    } else if loopback {
        HttpExposure::OpenOnLoopback
    } else if allow_unauthenticated {
        HttpExposure::OpenByRequest
    } else {
        HttpExposure::Refused
    }
}

/// The server never serves an unauthenticated non-loopback address unless
/// that was asked for.
pub proof fn law_no_silent_public_exposure(has_token: bool, loopback: bool, allow_unauthenticated: bool)
    requires
        !has_token,
        !loopback,
        !allow_unauthenticated,
    ensures
        exposure(has_token, loopback, allow_unauthenticated) == HttpExposure::Refused,
{
}

/// With a token configured, a request without the matching bearer header is
/// turned away, and one with it is let through.
pub proof fn law_token_required(token: Seq<char>, authorization: Option<Seq<char>>)
    ensures
        authorized(Some(token), authorization) <==> authorization == Some(bearer(token)),
        authorized(Some(token), None) == false,
{
}

} // verus!
