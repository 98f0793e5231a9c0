//! The filter of requests sent by the website's server.
use vstd::prelude::*;

use super::grammar::{ascii, bytes_eq, literal_bytes};
use super::FilterAgent;

verus! {

/// The `User-Agent` of the website's server: exactly `node`.
pub struct WebsiteAgent;

impl Clone for WebsiteAgent {
    fn clone(&self) -> (c: Self)
        ensures
            c == *self,
    {
        WebsiteAgent
    }
}

/// The refusal of a byte string other than `node`.
pub struct ParseError;

impl<'a> TryFrom<&'a [u8]> for WebsiteAgent {
    type Error = ParseError;

    fn try_from(b: &'a [u8]) -> (res: Result<Self, Self::Error>)
        ensures
            res is Ok <==> b@ == ascii("node"@),
    {
        proof {
            reveal_strlit("node");
        }
        if bytes_eq(b, literal_bytes("node")) {
            Ok(WebsiteAgent)
        } else {
            Err(ParseError)
        }
    }
}

impl<'a> vstd::std_specs::convert::TryFromSpecImpl<&'a [u8]> for WebsiteAgent {
    open spec fn obeys_try_from_spec() -> bool {
        true
    }

    open spec fn try_from_spec(v: &'a [u8]) -> Result<Self, Self::Error> {
        if v@ == ascii("node"@) {
            Ok(WebsiteAgent)
        } else {
            Err(ParseError)
        }
    }
}

/// The website filter: every `node` agent is valid.
pub struct WebsiteFilter;

impl FilterAgent for WebsiteFilter {
    type AgentType = WebsiteAgent;

    open spec fn spec_is_valid(agent: &WebsiteAgent) -> bool {
        true
    }

    fn is_valid(_agent: &WebsiteAgent) -> (r: bool) {
        true
    }
}

} // verus!
