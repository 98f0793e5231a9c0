//! The filter of requests sent by the Obstacle game mode from inside ManiaPlanet.
use vstd::prelude::*;

use super::agent::{
    is_known_client, is_no_context, lemma_rv_read_back, lemma_version_read_back, parse_agent_spans,
    rv_text, spec_agent, spec_rv, supported, version_text_then, AgentParts, CLOSING_PAREN, SEMICOLON,
};
use super::grammar::{
    ascii, free_of, lemma_field_unended, lemma_field_value, lemma_tag_prefix, literal_bytes,
    spec_tag,
};
use super::FilterAgent;

verus! {

/// The `User-Agent` of the ManiaPlanet game client.
pub struct InGameAgent {
    pub maniaplanet_version: (u8, u8, u8),
    pub rv: (u16, u8, u8, u8, u8),
    pub client: Box<[u8]>,
    pub context: Box<[u8]>,
    pub _distro: Box<[u8]>,
}

impl InGameAgent {
    /// The agent as the parts of the grammar.
    pub open spec fn parts(&self) -> AgentParts {
        AgentParts {
            version: self.maniaplanet_version,
            rv: self.rv,
            client: self.client@,
            context: self.context@,
            distro: self._distro@,
        }
    }
}

impl Clone for InGameAgent {
    fn clone(&self) -> (c: Self)
        ensures
            c.parts() == self.parts(),
    {
        InGameAgent {
            maniaplanet_version: self.maniaplanet_version,
            rv: self.rv,
            client: boxed_bytes(&self.client),
            context: boxed_bytes(&self.context),
            _distro: boxed_bytes(&self._distro),
        }
    }
}

/// The separator before the `rv` field.
pub open spec fn rv_tag() -> Seq<u8> {
    ascii("; rv: "@)
}

/// The separator before the `context` field.
pub open spec fn context_tag() -> Seq<u8> {
    ascii("; context: "@)
}

/// The separator before the `distro` field.
pub open spec fn distro_tag() -> Seq<u8> {
    ascii("; distro: "@)
}

/// What the in-game grammar reads at the start of `s`, if anything.
pub open spec fn spec_parse_agent(s: Seq<u8>) -> Option<(AgentParts, Seq<u8>)> {
    spec_agent(s, rv_tag(), context_tag(), distro_tag(), CLOSING_PAREN)
}

/// The refusal of a byte string that is not an in-game agent.
pub struct ParseError;

/// `Box::<[u8]>::from` on a slice. Claimed of it: the box holds the same bytes.
#[verifier::external_body]
fn boxed_bytes(bytes: &[u8]) -> (b: Box<[u8]>)
    ensures
        b@ == bytes@,
{
    Box::from(bytes)
}

/// Parses an in-game agent at the start of `input`; the bytes after its closing
/// parenthesis (that parenthesis included) are left over.
pub fn parse_agent(input: &[u8]) -> (res: Option<(InGameAgent, usize)>)
    ensures
        match spec_parse_agent(input@) {
            Some((parts, rest)) => res matches Some((agent, end)) && agent.parts() == parts
                && end <= input@.len() && rest == input@.skip(end as int),
            None => res is None,
        },
{
    let rv = {
        proof {
            reveal_strlit("; rv: ");
        }
        literal_bytes("; rv: ")
    };
    let context = {
        proof {
            reveal_strlit("; context: ");
        }
        literal_bytes("; context: ")
    };
    let distro = {
        proof {
            reveal_strlit("; distro: ");
        }
        literal_bytes("; distro: ")
    };
    match parse_agent_spans(input, rv, context, distro, CLOSING_PAREN) {
        Some(spans) => {
            let client = vstd::slice::slice_subrange(input, spans.client.0, spans.client.1);
            let ctx = vstd::slice::slice_subrange(input, spans.context.0, spans.context.1);
            let dist = vstd::slice::slice_subrange(input, spans.distro.0, spans.distro.1);
            Some(
                (
                    InGameAgent {
                        maniaplanet_version: spans.version,
                        rv: spans.rv,
                        client: boxed_bytes(client),
                        context: boxed_bytes(ctx),
                        _distro: boxed_bytes(dist),
                    },
                    spans.end,
                ),
            )
        },
        None => None,
    }
}

impl<'a> TryFrom<&'a [u8]> for InGameAgent {
    type Error = ParseError;

    fn try_from(input: &'a [u8]) -> (res: Result<Self, Self::Error>)
        ensures
            match spec_parse_agent(input@) {
                Some((parts, _)) => res matches Ok(agent) && agent.parts() == parts,
                None => res is Err,
            },
    {
        match parse_agent(input) {
            Some((agent, _)) => Ok(agent),
            None => Err(ParseError),
        }
    }
}

/// The in-game filter: ManiaPlanet up to 3.3.0, build 2019-11-19_18_58 at most, on
/// Windows or Linux, outside of any context.
pub struct InGameFilter;

/// The newest game build that the filter accepts.
pub open spec fn max_rv() -> (u16, u8, u8, u8, u8) {
    (2019, 11, 19, 18, 58)
}

impl FilterAgent for InGameFilter {
    type AgentType = InGameAgent;

    open spec fn spec_is_valid(agent: &InGameAgent) -> bool {
        supported(agent.parts(), max_rv())
    }

    fn is_valid(parsed: &InGameAgent) -> (r: bool) {
        if !is_known_client(&parsed.client) {
            return false;
        }
        match parsed.maniaplanet_version {
            (..3, ..) | (3, ..3, _) | (3, 3, 0) => {},
            _ => return false,
        }
        match parsed.rv {
            (..2019, ..)
            | (2019, ..11, ..)
            | (2019, 11, ..19, ..)
            | (2019, 11, 19, ..18, _)
            | (2019, 11, 19, 18, ..=58) => {},
            _ => return false,
        }
        if !is_no_context(&parsed.context) {
            return false;
        }
        true
    }
}

impl<'a> vstd::std_specs::convert::TryFromSpecImpl<&'a [u8]> for InGameAgent {
    /// The parts of the agent are given, not the boxes that hold them, so calls go by the
    /// contract of `try_from` above.
    open spec fn obeys_try_from_spec() -> bool {
        false
    }

    open spec fn try_from_spec(v: &'a [u8]) -> Result<Self, Self::Error> {
        match spec_parse_agent(v@) {
            Some((parts, _)) => Ok(choose|a: InGameAgent| #[trigger] a.parts() == parts),
            None => Err(ParseError),
        }
    }
}

/// The `User-Agent` header that the game writes for an agent, followed by `rest`:
/// `ManiaPlanet/<version> (<client>; rv: <build>; context: <context>; distro: <distro>)`.
pub open spec fn agent_header(p: AgentParts, rest: Seq<u8>) -> Seq<u8> {
    ascii("ManiaPlanet/"@) + version_text_then(
        p.version,
        ascii(" ("@) + (p.client + (rv_tag() + (rv_text(p.rv) + (context_tag() + (p.context + (
        distro_tag() + (p.distro + (seq![CLOSING_PAREN] + rest)))))))),
    )
}

/// The header of an agent is read back as that agent, whatever follows it, as long as its
/// client and context hold no `;` and its distribution no `)`; what is left starts at the
/// closing parenthesis.
pub proof fn law_agent_header_read_back(p: AgentParts, rest: Seq<u8>)
    requires
        free_of(p.client, SEMICOLON),
        free_of(p.context, SEMICOLON),
        free_of(p.distro, CLOSING_PAREN),
    ensures
        spec_parse_agent(agent_header(p, rest)) == Some((p, seq![CLOSING_PAREN] + rest)),
{
    reveal_strlit("; rv: ");
    reveal_strlit("; context: ");
    reveal_strlit("; distro: ");
    reveal_strlit(" (");
    let end = seq![CLOSING_PAREN] + rest;
    let d1 = distro_tag() + (p.distro + end);
    let c2 = p.context + d1;
    let c1 = context_tag() + c2;
    let r1 = rv_tag() + (rv_text(p.rv) + c1);
    let y1 = ascii(" ("@) + (p.client + r1);
    lemma_tag_prefix(ascii("ManiaPlanet/"@), version_text_then(p.version, y1));
    lemma_version_read_back(p.version, y1);
    lemma_field_value(ascii(" ("@), p.client, SEMICOLON, r1);
    lemma_rv_read_back(p.rv);
    lemma_field_value(rv_tag(), rv_text(p.rv), SEMICOLON, c1);
    lemma_field_value(context_tag(), p.context, SEMICOLON, d1);
    lemma_field_value(distro_tag(), p.distro, CLOSING_PAREN, end);
}

/// A header that does not start with `ManiaPlanet/` is refused.
pub proof fn law_agent_needs_product(s: Seq<u8>)
    requires
        spec_tag(s, ascii("ManiaPlanet/"@)) is None,
    ensures
        spec_parse_agent(s) is None,
{
}

/// A header whose build is not `<a>-<b>-<c>_<d>_<e>` (with numbers that fit their types) is
/// refused, whatever the other fields hold.
pub proof fn law_agent_needs_build(
    version: (u8, u8, u8),
    client: Seq<u8>,
    rv_raw: Seq<u8>,
    rest: Seq<u8>,
)
    requires
        free_of(client, SEMICOLON),
        free_of(rv_raw, SEMICOLON),
        spec_rv(rv_raw) is None,
        rest.len() > 0,
        rest[0] == SEMICOLON,
    ensures
        spec_parse_agent(
            ascii("ManiaPlanet/"@) + version_text_then(
                version,
                ascii(" ("@) + (client + (rv_tag() + (rv_raw + rest))),
            ),
        ) is None,
{
    reveal_strlit("; rv: ");
    reveal_strlit(" (");
    let r1 = rv_tag() + (rv_raw + rest);
    let y1 = ascii(" ("@) + (client + r1);
    lemma_tag_prefix(ascii("ManiaPlanet/"@), version_text_then(version, y1));
    lemma_version_read_back(version, y1);
    lemma_field_value(ascii(" ("@), client, SEMICOLON, r1);
    lemma_field_value(rv_tag(), rv_raw, SEMICOLON, rest);
}

/// A header whose distribution is never closed by `)` is refused.
pub proof fn law_agent_needs_closing_paren(p: AgentParts, rest: Seq<u8>)
    requires
        free_of(p.client, SEMICOLON),
        free_of(p.context, SEMICOLON),
        free_of(p.distro + rest, CLOSING_PAREN),
    ensures
        spec_parse_agent(
            ascii("ManiaPlanet/"@) + version_text_then(
                p.version,
                ascii(" ("@) + (p.client + (rv_tag() + (rv_text(p.rv) + (context_tag() + (p.context
                    + (distro_tag() + (p.distro + rest))))))),
            ),
        ) is None,
{
    reveal_strlit("; rv: ");
    reveal_strlit("; context: ");
    reveal_strlit("; distro: ");
    reveal_strlit(" (");
    let d1 = distro_tag() + (p.distro + rest);
    let c2 = p.context + d1;
    let c1 = context_tag() + c2;
    let r1 = rv_tag() + (rv_text(p.rv) + c1);
    let y1 = ascii(" ("@) + (p.client + r1);
    lemma_tag_prefix(ascii("ManiaPlanet/"@), version_text_then(p.version, y1));
    lemma_version_read_back(p.version, y1);
    lemma_field_value(ascii(" ("@), p.client, SEMICOLON, r1);
    lemma_rv_read_back(p.rv);
    lemma_field_value(rv_tag(), rv_text(p.rv), SEMICOLON, c1);
    lemma_field_value(context_tag(), p.context, SEMICOLON, d1);
    lemma_field_unended(distro_tag(), p.distro + rest, CLOSING_PAREN);
}

/// The in-game filter accepts an agent exactly when its client is `Win64`, `Win32` or
/// `Linux`, its context is `none`, its version is at most 3.3.0 and its build at most
/// 2019-11-19_18_58, versions and builds being compared number by number from the left
/// (written here as one number per version or build, each part in its own digits).
pub proof fn law_ingame_accepts(agent: InGameAgent)
    ensures
        InGameFilter::spec_is_valid(&agent) <==> {
            &&& (agent.client@ == ascii("Win64"@) || agent.client@ == ascii("Win32"@)
                || agent.client@ == ascii("Linux"@))
            &&& agent.context@ == ascii("none"@)
            &&& agent.maniaplanet_version.0 * 65536 + agent.maniaplanet_version.1 * 256
                + agent.maniaplanet_version.2 <= 3 * 65536 + 3 * 256
            &&& agent.rv.0 * 4294967296 + agent.rv.1 * 16777216 + agent.rv.2 * 65536 + agent.rv.3
                * 256 + agent.rv.4 <= 2019 * 4294967296 + 11 * 16777216 + 19 * 65536 + 18 * 256 + 58
        },
{
}

} // verus!
