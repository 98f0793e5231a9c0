//! Whether a request comes from a known game client.
use vstd::prelude::*;

use super::parse::{parse_agent, spec_parse_agent};
use crate::request_filter::agent::{is_known_client, is_no_context, supported};

verus! {

/// The newest game build that this check accepts.
pub open spec fn max_rv() -> (u16, u8, u8, u8, u8) {
    (2019, 11, 19, 18, 50)
}

/// A header value that parses as an agent of a known platform, version and build.
pub open spec fn spec_is_known_agent(value: Seq<u8>) -> bool {
    match spec_parse_agent(value) {
        Some((parts, _)) => supported(parts, max_rv()),
        None => false,
    }
}

/// Whether `value` is the `User-Agent` of a supported game client.
pub fn is_known_agent(value: &[u8]) -> (r: bool)
    ensures
        r == spec_is_known_agent(value@),
{
    let parsed = match parse_agent(value) {
        Some((_, parsed)) => parsed,
        None => return false,
    };
    if !is_known_client(parsed.client) {
        return false;
    }
    match parsed.maniaplanet_version {
        (..3, ..) | (3, ..3, _) | (3, 3, 0) => {},
        _ => return false,
    }
    match parsed.rv {
        (..2019, ..)
        | (2019, ..11, ..)
        | (2019, 11, ..19, ..)
        | (2019, 11, 19, ..18, _)
        | (2019, 11, 19, 18, ..=50) => {},
        _ => return false,
    }
    if !is_no_context(parsed.context) {
        return false;
    }
    true
}

/// Whether a request is valid, given the bytes of its `User-Agent` header if it has one.
pub fn is_request_valid(user_agent: Option<&[u8]>) -> (r: bool)
    ensures
        r == (match user_agent {
            Some(value) => spec_is_known_agent(value@),
            None => false,
        }),
{
    match user_agent {
        Some(value) => is_known_agent(value),
        None => false,
    }
}

} // verus!
