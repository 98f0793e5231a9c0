//! The API's own spelling of the in-game `User-Agent` grammar.
use vstd::prelude::*;

use crate::request_filter::agent::{parse_agent_spans, spec_agent, spec_version, AgentParts, SEMICOLON};
use crate::request_filter::grammar::{
    ascii, lemma_take_until_stops_at, literal_bytes, spec_tag, spec_take_until,
};

verus! {

/// An in-game agent, borrowing its text fields from the header.
pub struct ParsedAgent<'a> {
    pub maniaplanet_version: (u8, u8, u8),
    pub rv: (u16, u8, u8, u8, u8),
    pub client: &'a [u8],
    pub context: &'a [u8],
    pub _distro: &'a [u8],
}

impl<'a> ParsedAgent<'a> {
    /// The agent as the parts of the grammar.
    pub open spec fn parts(&self) -> AgentParts {
        AgentParts {
            version: self.maniaplanet_version,
            rv: self.rv,
            client: self.client@,
            context: self.context@,
            distro: self._distro@,
        }
    }
}

/// What this spelling reads at the start of `s`: its separators are ` rv: `, ` context: `
/// and ` distro: `, and the `distro` field ends at a `;`.
pub open spec fn spec_parse_agent(s: Seq<u8>) -> Option<(AgentParts, Seq<u8>)> {
    spec_agent(s, ascii(" rv: "@), ascii(" context: "@), ascii(" distro: "@), SEMICOLON)
}

/// No input is read by this spelling: the `client` field stops before a `;`, which
/// stays in the input, while the next separator starts with a space.
pub proof fn lemma_spelling_reads_nothing(s: Seq<u8>)
    ensures
        spec_parse_agent(s) is None,
{
    reveal_strlit(" rv: ");
    if let Some(s1) = spec_tag(s, ascii("ManiaPlanet/"@)) {
        if let Some((_, s2)) = spec_version(s1) {
            if let Some(rest) = spec_tag(s2, ascii(" ("@)) {
                lemma_take_until_stops_at(rest, SEMICOLON);
                if let Some((_, s3)) = spec_take_until(rest, SEMICOLON) {
                    if spec_tag(s3, ascii(" rv: "@)) is Some {
                        assert(s3.take(5)[0] == ascii(" rv: "@)[0]);
                    }
                }
            }
        }
    }
}

/// Parses an agent in this spelling at the start of `input`; gives what is left of the
/// input and the agent.
pub fn parse_agent<'a>(input: &'a [u8]) -> (res: Option<(&'a [u8], ParsedAgent<'a>)>)
    ensures
        match spec_parse_agent(input@) {
            Some((parts, rest)) => res matches Some((left, agent)) && agent.parts() == parts
                && left@ == rest,
            None => res is None,
        },
{
    let rv = {
        proof {
            reveal_strlit(" rv: ");
        }
        literal_bytes(" rv: ")
    };
    let context = {
        proof {
            reveal_strlit(" context: ");
        }
        literal_bytes(" context: ")
    };
    let distro = {
        proof {
            reveal_strlit(" distro: ");
        }
        literal_bytes(" distro: ")
    };
    match parse_agent_spans(input, rv, context, distro, SEMICOLON) {
        Some(spans) => {
            let left = vstd::slice::slice_subrange(input, spans.end, input.len());
            assert(left@ =~= input@.skip(spans.end as int));
            Some(
                (
                    left,
                    ParsedAgent {
                        maniaplanet_version: spans.version,
                        rv: spans.rv,
                        client: vstd::slice::slice_subrange(input, spans.client.0, spans.client.1),
                        context: vstd::slice::slice_subrange(
                            input,
                            spans.context.0,
                            spans.context.1,
                        ),
                        _distro: vstd::slice::slice_subrange(input, spans.distro.0, spans.distro.1),
                    },
                ),
            )
        },
        None => None,
    }
}

} // verus!
