//! The grammar of the in-game `User-Agent` header sent by ManiaPlanet:
//! `ManiaPlanet/<major>.<minor>.<patch> (<client>; rv: <a>-<b>-<c>_<d>_<e>; context: <context>; distro: <distro>)`.
//!
//! The separators before the `rv`, `context` and `distro` fields and the byte that ends the
//! `distro` field are parameters, as two spellings of this grammar are in use.
use vstd::prelude::*;

use super::grammar::{
    ascii, bytes_eq, decimal_bytes, free_of, is_digit, lemma_decimal_bytes_free_of,
    lemma_free_of_concat, lemma_parse_decimal, lemma_sep_decimal, literal_bytes, parse_unsigned,
    sep_unsigned, spec_field, spec_parse_unsigned, spec_sep_unsigned, spec_tag, field, tag,
};

verus! {

/// `;`, which ends the `client`, `rv` and `context` fields.
pub const SEMICOLON: u8 = 59;

/// `)`.
pub const CLOSING_PAREN: u8 = 41;

/// The parts of a parsed `User-Agent`.
pub struct AgentParts {
    pub version: (u8, u8, u8),
    pub rv: (u16, u8, u8, u8, u8),
    pub client: Seq<u8>,
    pub context: Seq<u8>,
    pub distro: Seq<u8>,
}

/// `<major>.<minor>.<patch>`, each a `u8`.
pub open spec fn spec_version(s: Seq<u8>) -> Option<((u8, u8, u8), Seq<u8>)> {
    match spec_parse_unsigned(s, 255) {
        Some((a, s1)) => match spec_sep_unsigned(s1, ascii("."@), 255) {
            Some((b, s2)) => match spec_sep_unsigned(s2, ascii("."@), 255) {
                Some((c, s3)) => Some(((a as u8, b as u8, c as u8), s3)),
                None => None,
            },
            None => None,
        },
        None => None,
    }
}

/// `<a>-<b>-<c>_<d>_<e>`, `a` a `u16` and the others `u8`.
pub open spec fn spec_rv(s: Seq<u8>) -> Option<((u16, u8, u8, u8, u8), Seq<u8>)> {
    match spec_parse_unsigned(s, 65535) {
        Some((a, s1)) => match spec_sep_unsigned(s1, ascii("-"@), 255) {
            Some((b, s2)) => match spec_sep_unsigned(s2, ascii("-"@), 255) {
                Some((c, s3)) => match spec_sep_unsigned(s3, ascii("_"@), 255) {
                    Some((d, s4)) => match spec_sep_unsigned(s4, ascii("_"@), 255) {
                        Some((e, s5)) => Some(((a as u16, b as u8, c as u8, d as u8, e as u8), s5)),
                        None => None,
                    },
                    None => None,
                },
                None => None,
            },
            None => None,
        },
        None => None,
    }
}

/// The whole agent. The `rv` field is cut out up to its `;` first and then read as
/// [`spec_rv`], so bytes that follow the five numbers inside it are ignored.
pub open spec fn spec_agent(
    s: Seq<u8>,
    rv_tag: Seq<u8>,
    context_tag: Seq<u8>,
    distro_tag: Seq<u8>,
    distro_end: u8,
) -> Option<(AgentParts, Seq<u8>)> {
    match spec_tag(s, ascii("ManiaPlanet/"@)) {
        Some(s1) => match spec_version(s1) {
            Some((version, s2)) => match spec_field(s2, ascii(" ("@), SEMICOLON) {
                Some((client, s3)) => match spec_field(s3, rv_tag, SEMICOLON) {
                    Some((rv_raw, s4)) => match spec_rv(rv_raw) {
                        Some((rv, _)) => match spec_field(s4, context_tag, SEMICOLON) {
                            Some((context, s5)) => match spec_field(s5, distro_tag, distro_end) {
                                Some((distro, s6)) => Some(
                                    (AgentParts { version, rv, client, context, distro }, s6),
                                ),
                                None => None,
                            },
                            None => None,
                        },
                        None => None,
                    },
                    None => None,
                },
                None => None,
            },
            None => None,
        },
        None => None,
    }
}

/// `v <= max`, comparing the major, then the minor, then the patch number.
pub open spec fn version_at_most(v: (u8, u8, u8), max: (u8, u8, u8)) -> bool {
    ||| v.0 < max.0
    ||| v.0 == max.0 && v.1 < max.1
    ||| v.0 == max.0 && v.1 == max.1 && v.2 <= max.2
}

/// `rv <= max`, comparing the five numbers in order.
pub open spec fn rv_at_most(rv: (u16, u8, u8, u8, u8), max: (u16, u8, u8, u8, u8)) -> bool {
    ||| rv.0 < max.0
    ||| rv.0 == max.0 && rv.1 < max.1
    ||| rv.0 == max.0 && rv.1 == max.1 && rv.2 < max.2
    ||| rv.0 == max.0 && rv.1 == max.1 && rv.2 == max.2 && rv.3 < max.3
    ||| rv.0 == max.0 && rv.1 == max.1 && rv.2 == max.2 && rv.3 == max.3 && rv.4 <= max.4
}

/// The newest ManiaPlanet version that is accepted: 3.3.0.
pub open spec fn max_version() -> (u8, u8, u8) {
    (3, 3, 0)
}

/// One of the platforms the game client runs on.
pub open spec fn known_client(client: Seq<u8>) -> bool {
    client == ascii("Win64"@) || client == ascii("Win32"@) || client == ascii("Linux"@)
}

/// The context of a game client that no server or tool runs.
pub open spec fn no_context(context: Seq<u8>) -> bool {
    context == ascii("none"@)
}

/// An agent of a known platform, of a version and a build no newer than the limits.
pub open spec fn supported(parts: AgentParts, max_rv: (u16, u8, u8, u8, u8)) -> bool {
    &&& known_client(parts.client)
    &&& version_at_most(parts.version, max_version())
    &&& rv_at_most(parts.rv, max_rv)
    &&& no_context(parts.context)
}

/// Whether `client` is one of the known platforms.
pub fn is_known_client(client: &[u8]) -> (r: bool)
    ensures
        r == known_client(client@),
{
    proof {
        reveal_strlit("Win64");
        reveal_strlit("Win32");
        reveal_strlit("Linux");
    }
    bytes_eq(client, literal_bytes("Win64")) || bytes_eq(client, literal_bytes("Win32"))
        || bytes_eq(client, literal_bytes("Linux"))
}

/// Whether `context` is `none`.
pub fn is_no_context(context: &[u8]) -> (r: bool)
    ensures
        r == no_context(context@),
{
    proof {
        reveal_strlit("none");
    }
    bytes_eq(context, literal_bytes("none"))
}

/// Where the parts of a parsed agent lie in the input.
pub struct AgentSpans {
    pub version: (u8, u8, u8),
    pub rv: (u16, u8, u8, u8, u8),
    pub client: (usize, usize),
    pub context: (usize, usize),
    pub distro: (usize, usize),
    pub end: usize,
}

impl AgentSpans {
    /// The parts that the spans select from `input`.
    pub open spec fn parts(self, input: Seq<u8>) -> AgentParts {
        AgentParts {
            version: self.version,
            rv: self.rv,
            client: input.subrange(self.client.0 as int, self.client.1 as int),
            context: input.subrange(self.context.0 as int, self.context.1 as int),
            distro: input.subrange(self.distro.0 as int, self.distro.1 as int),
        }
    }

    /// Every span lies inside an input of length `len`.
    pub open spec fn in_bounds(self, len: nat) -> bool {
        &&& self.client.0 <= self.client.1 <= len
        &&& self.context.0 <= self.context.1 <= len
        &&& self.distro.0 <= self.distro.1 <= len
        &&& self.end <= len
    }
}

fn dot() -> (b: &'static [u8])
    ensures
        b@ == ascii("."@),
{
    proof {
        reveal_strlit(".");
    }
    literal_bytes(".")
}

fn dash() -> (b: &'static [u8])
    ensures
        b@ == ascii("-"@),
{
    proof {
        reveal_strlit("-");
    }
    literal_bytes("-")
}

fn underscore() -> (b: &'static [u8])
    ensures
        b@ == ascii("_"@),
{
    proof {
        reveal_strlit("_");
    }
    literal_bytes("_")
}

/// Reads `<major>.<minor>.<patch>` at `pos`.
pub fn parse_version(input: &[u8], pos: usize) -> (res: Option<((u8, u8, u8), usize)>)
    requires
        pos <= input@.len(),
    ensures
        match spec_version(input@.skip(pos as int)) {
            Some((v, rest)) => res matches Some((rv, end)) && rv == v && end <= input@.len()
                && rest == input@.skip(end as int),
            None => res is None,
        },
{
    let (a, p1) = match parse_unsigned(input, pos, 255) {
        Some(x) => x,
        None => return None,
    };
    let (b, p2) = match sep_unsigned(input, p1, dot(), 255) {
        Some(x) => x,
        None => return None,
    };
    let (c, p3) = match sep_unsigned(input, p2, dot(), 255) {
        Some(x) => x,
        None => return None,
    };
    Some(((a as u8, b as u8, c as u8), p3))
}

/// Reads `<a>-<b>-<c>_<d>_<e>` at the start of `input`.
pub fn parse_rv(input: &[u8]) -> (res: Option<((u16, u8, u8, u8, u8), usize)>)
    ensures
        match spec_rv(input@) {
            Some((v, rest)) => res matches Some((rv, end)) && rv == v && end <= input@.len()
                && rest == input@.skip(end as int),
            None => res is None,
        },
{
    assert(input@.skip(0) =~= input@);
    let (a, p1) = match parse_unsigned(input, 0, 65535) {
        Some(x) => x,
        None => return None,
    };
    let (b, p2) = match sep_unsigned(input, p1, dash(), 255) {
        Some(x) => x,
        None => return None,
    };
    let (c, p3) = match sep_unsigned(input, p2, dash(), 255) {
        Some(x) => x,
        None => return None,
    };
    let (d, p4) = match sep_unsigned(input, p3, underscore(), 255) {
        Some(x) => x,
        None => return None,
    };
    let (e, p5) = match sep_unsigned(input, p4, underscore(), 255) {
        Some(x) => x,
        None => return None,
    };
    Some(((a as u16, b as u8, c as u8, d as u8, e as u8), p5))
}

/// Parses a whole agent at the start of `input`, with the given separators.
pub fn parse_agent_spans(
    input: &[u8],
    rv_tag: &[u8],
    context_tag: &[u8],
    distro_tag: &[u8],
    distro_end: u8,
) -> (res: Option<AgentSpans>)
    ensures
        match spec_agent(input@, rv_tag@, context_tag@, distro_tag@, distro_end) {
            Some((parts, rest)) => res matches Some(spans) && spans.in_bounds(input@.len())
                && spans.parts(input@) == parts && rest == input@.skip(spans.end as int),
            None => res is None,
        },
{
    assert(input@.skip(0) =~= input@);
    let header = {
        proof {
            reveal_strlit("ManiaPlanet/");
        }
        literal_bytes("ManiaPlanet/")
    };
    let open_paren = {
        proof {
            reveal_strlit(" (");
        }
        literal_bytes(" (")
    };
    let p1 = match tag(input, 0, header) {
        Some(p) => p,
        None => return None,
    };
    let (version, p2) = match parse_version(input, p1) {
        Some(x) => x,
        None => return None,
    };
    let client = match field(input, p2, open_paren, SEMICOLON) {
        Some(x) => x,
        None => return None,
    };
    let rv_span = match field(input, client.1, rv_tag, SEMICOLON) {
        Some(x) => x,
        None => return None,
    };
    let rv_raw = vstd::slice::slice_subrange(input, rv_span.0, rv_span.1);
    let rv = match parse_rv(rv_raw) {
        Some((v, _)) => v,
        None => return None,
    };
    let context = match field(input, rv_span.1, context_tag, SEMICOLON) {
        Some(x) => x,
        None => return None,
    };
    let distro = match field(input, context.1, distro_tag, distro_end) {
        Some(x) => x,
        None => return None,
    };
    Some(AgentSpans { version, rv, client, context, distro, end: distro.1 })
}

/// `<major>.<minor>.<patch>` written in decimal, followed by `s`.
pub open spec fn version_text_then(v: (u8, u8, u8), s: Seq<u8>) -> Seq<u8> {
    decimal_bytes(v.0 as nat) + (ascii("."@) + (decimal_bytes(v.1 as nat) + (ascii("."@) + (
    decimal_bytes(v.2 as nat) + s))))
}

/// `<a>-<b>-<c>_<d>_<e>` written in decimal.
pub open spec fn rv_text(rv: (u16, u8, u8, u8, u8)) -> Seq<u8> {
    decimal_bytes(rv.0 as nat) + (ascii("-"@) + (decimal_bytes(rv.1 as nat) + (ascii("-"@) + (
    decimal_bytes(rv.2 as nat) + (ascii("_"@) + (decimal_bytes(rv.3 as nat) + (ascii("_"@)
        + decimal_bytes(rv.4 as nat))))))))
}

/// A version written in decimal is read back.
pub proof fn lemma_version_read_back(v: (u8, u8, u8), s: Seq<u8>)
    requires
        s.len() > 0 ==> !is_digit(s[0]),
    ensures
        spec_version(version_text_then(v, s)) == Some((v, s)),
{
    reveal_strlit(".");
    let dot = ascii("."@);
    let tail2 = decimal_bytes(v.2 as nat) + s;
    let tail1 = decimal_bytes(v.1 as nat) + (dot + tail2);
    lemma_parse_decimal(v.0 as nat, dot + tail1, 255);
    lemma_sep_decimal(dot, v.1 as nat, dot + tail2, 255);
    lemma_sep_decimal(dot, v.2 as nat, s, 255);
}

/// A build written in decimal is read back, and holds no `;`.
pub proof fn lemma_rv_read_back(rv: (u16, u8, u8, u8, u8))
    ensures
        spec_rv(rv_text(rv)) == Some((rv, Seq::<u8>::empty())),
        free_of(rv_text(rv), SEMICOLON),
{
    reveal_strlit("-");
    reveal_strlit("_");
    let dash = ascii("-"@);
    let under = ascii("_"@);
    let empty = Seq::<u8>::empty();
    let e = decimal_bytes(rv.4 as nat);
    let t4 = decimal_bytes(rv.3 as nat) + (under + e);
    let t3 = decimal_bytes(rv.2 as nat) + (under + t4);
    let t2 = decimal_bytes(rv.1 as nat) + (dash + t3);
    assert(e + empty =~= e);
    lemma_parse_decimal(rv.0 as nat, dash + t2, 65535);
    lemma_sep_decimal(dash, rv.1 as nat, dash + t3, 255);
    lemma_sep_decimal(dash, rv.2 as nat, under + t4, 255);
    lemma_sep_decimal(under, rv.3 as nat, under + e, 255);
    lemma_sep_decimal(under, rv.4 as nat, empty, 255);
    lemma_decimal_bytes_free_of(rv.0 as nat, SEMICOLON);
    lemma_decimal_bytes_free_of(rv.1 as nat, SEMICOLON);
    lemma_decimal_bytes_free_of(rv.2 as nat, SEMICOLON);
    lemma_decimal_bytes_free_of(rv.3 as nat, SEMICOLON);
    lemma_decimal_bytes_free_of(rv.4 as nat, SEMICOLON);
    lemma_free_of_concat(under, e, SEMICOLON);
    lemma_free_of_concat(decimal_bytes(rv.3 as nat), under + e, SEMICOLON);
    lemma_free_of_concat(under, t4, SEMICOLON);
    lemma_free_of_concat(decimal_bytes(rv.2 as nat), under + t4, SEMICOLON);
    lemma_free_of_concat(dash, t3, SEMICOLON);
    lemma_free_of_concat(decimal_bytes(rv.1 as nat), dash + t3, SEMICOLON);
    lemma_free_of_concat(dash, t2, SEMICOLON);
    lemma_free_of_concat(decimal_bytes(rv.0 as nat), dash + t2, SEMICOLON);
}

} // verus!
