//! The website's agent, as the API reads it.
use vstd::prelude::*;

use super::{FilterAgent, FromBytes};
use crate::request_filter::grammar::{ascii, literal_bytes, spec_tag, tag};

verus! {

/// The `User-Agent` of the website's server: any header starting with `node`.
pub struct WebsiteAgent;

impl Clone for WebsiteAgent {
    fn clone(&self) -> (c: Self)
        ensures
            c == *self,
    {
        WebsiteAgent
    }
}

/// The refusal of a header that does not start with `node`.
pub struct ParseError;

/// Reads `node` at the start of `input`; gives the agent and what follows.
pub fn parse_agent(input: &[u8]) -> (res: Option<(usize, WebsiteAgent)>)
    ensures
        match spec_tag(input@, ascii("node"@)) {
            Some(rest) => res matches Some((end, _)) && end <= input@.len() && rest == input@.skip(
                end as int,
            ),
            None => res is None,
        },
{
    assert(input@.skip(0) =~= input@);
    proof {
        reveal_strlit("node");
    }
    match tag(input, 0, literal_bytes("node")) {
        Some(end) => Some((end, WebsiteAgent)),
        None => None,
    }
}

impl FromBytes for WebsiteAgent {
    type Error = ParseError;

    open spec fn spec_from_bytes(b: Seq<u8>) -> Option<WebsiteAgent> {
        if spec_tag(b, ascii("node"@)) is Some {
            Some(WebsiteAgent)
        } else {
            None
        }
    }

    fn from_bytes(b: &[u8]) -> (res: Result<Self, Self::Error>) {
        match parse_agent(b) {
            Some((_, agent)) => Ok(agent),
            None => Err(ParseError),
        }
    }
}

/// The website filter: every agent that reads as `node` is valid.
pub struct WebsiteFilter;

impl FilterAgent for WebsiteFilter {
    type AgentType = WebsiteAgent;

    open spec fn spec_is_valid(agent: &WebsiteAgent) -> bool {
        true
    }

    fn is_valid(_agent: &WebsiteAgent) -> (r: bool) {
        true
    }
}

} // verus!
