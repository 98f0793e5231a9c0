//! The API's own `User-Agent` checks.
pub mod check;
pub mod format;
pub mod parse;
pub mod website;

use vstd::prelude::*;

verus! {

/// A type read from the bytes of a header.
pub trait FromBytes: Sized {
    type Error;

    /// The value that `b` reads as, if it reads as one.
    spec fn spec_from_bytes(b: Seq<u8>) -> Option<Self>;

    fn from_bytes(b: &[u8]) -> (res: Result<Self, Self::Error>)
        ensures
            match Self::spec_from_bytes(b@) {
                Some(v) => res matches Ok(r) && r == v,
                None => res is Err,
            },
    ;
}

/// A kind of client whose requests are recognised by their `User-Agent` header.
pub trait FilterAgent {
    type AgentType: FromBytes + Clone;

    /// Whether a parsed header belongs to a supported client.
    spec fn spec_is_valid(agent: &Self::AgentType) -> bool;

    fn is_valid(agent: &Self::AgentType) -> (r: bool)
        ensures
            r == Self::spec_is_valid(agent),
    ;
}


/// The agent of a request, from the value of its `User-Agent` header if it has one: kept
/// only when it reads as an agent and the filter accepts it.
pub open spec fn spec_filtered_agent<F: FilterAgent>(value: Option<Seq<u8>>) -> Option<F::AgentType> {
    match value {
        Some(v) => match <F::AgentType as FromBytes>::spec_from_bytes(v) {
            Some(agent) => if F::spec_is_valid(&agent) {
                Some(agent)
            } else {
                None
            },
            None => None,
        },
        None => None,
    }
}

/// Reads the agent of a request from its `User-Agent` header value, and keeps it only if
/// the filter accepts it.
pub fn filtered_agent<F: FilterAgent>(value: Option<&[u8]>) -> (r: Option<F::AgentType>)
    ensures
        r == spec_filtered_agent::<F>(
            match value {
                Some(v) => Some(v@),
                None => None,
            },
        ),
{
    match value {
        Some(v) => match <F::AgentType as FromBytes>::from_bytes(v) {
            Ok(agent) => {
                if F::is_valid(&agent) {
                    Some(agent)
                } else {
                    None
                }
            },
            Err(_) => None,
        },
        None => None,
    }
}
} // verus!
