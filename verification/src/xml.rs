//! XML replies.
//!
//! The values themselves are serialised outside of the library; this module frames the
//! serialised bytes into a document and decides the reply.
use vstd::prelude::*;

use crate::request_filter::grammar::{ascii, literal_bytes};

verus! {

/// The XML declaration that starts every document.
pub open spec fn declaration() -> Seq<u8> {
    ascii("<?xml version=\"1.0\" encoding=\"UTF-8\"?>"@)
}

/// An XML reply: the document, or the failure to serialise it.
pub struct Xml {
    pub inner: Result<Vec<u8>, ()>,
}

/// Appends bytes to a buffer.
fn extend(buffer: &mut Vec<u8>, bytes: &[u8])
    ensures
        final(buffer)@ == old(buffer)@ + bytes@,
{
    let mut i: usize = 0;
    let ghost start = buffer@;
    while i < bytes.len()
        invariant
            i <= bytes@.len(),
            buffer@ == start + bytes@.take(i as int),
        decreases bytes@.len() - i,
    {
        buffer.push(bytes[i]);
        i = i + 1;
        assert(buffer@ =~= start + bytes@.take(i as int));
    }
    assert(bytes@.take(bytes@.len() as int) =~= bytes@);
}

fn declaration_bytes() -> (b: &'static [u8])
    ensures
        b@ == declaration(),
{
    proof {
        reveal_strlit("<?xml version=\"1.0\" encoding=\"UTF-8\"?>");
    }
    literal_bytes("<?xml version=\"1.0\" encoding=\"UTF-8\"?>")
}

/// The document of one serialised value: the declaration, then the value.
pub fn xml(serialized: Result<Vec<u8>, ()>) -> (x: Xml)
    ensures
        match serialized {
            Ok(bytes) => x.inner matches Ok(doc) && doc@ == declaration() + bytes@,
            Err(_) => x.inner is Err,
        },
{
    let mut buffer: Vec<u8> = Vec::new();
    extend(&mut buffer, declaration_bytes());
    match serialized {
        Ok(bytes) => {
            extend(&mut buffer, bytes.as_slice());
            Xml { inner: Ok(buffer) }
        },
        Err(_) => Xml { inner: Err(()) },
    }
}

/// The concatenation of the byte strings.
pub open spec fn concat_all(parts: Seq<Seq<u8>>) -> Seq<u8>
    decreases parts.len(),
{
    if parts.len() == 0 {
        seq![]
    } else {
        concat_all(parts.drop_last()) + parts.last()
    }
}

/// The document of a sequence of serialised values, in a `response` element. It fails when
/// one of the values failed to serialise.
pub fn xml_elements(serialized: &Vec<Result<Vec<u8>, ()>>) -> (x: Xml)
    ensures
        (forall|i: int| 0 <= i < serialized@.len() ==> #[trigger] serialized@[i] is Ok) ==> (
        x.inner matches Ok(doc) && doc@ == declaration() + ascii("<response>"@) + concat_all(
            serialized@.map_values(|r: Result<Vec<u8>, ()>| r->Ok_0@),
        ) + ascii("</response>"@)),
        (exists|i: int| 0 <= i < serialized@.len() && #[trigger] serialized@[i] is Err) ==> x.inner is Err,
{
    proof {
        reveal_strlit("<response>");
        reveal_strlit("</response>");
    }
    let mut buffer: Vec<u8> = Vec::new();
    extend(&mut buffer, declaration_bytes());
    extend(&mut buffer, literal_bytes("<response>"));
    let ghost start = buffer@;
    let ghost parts = serialized@.map_values(|r: Result<Vec<u8>, ()>| r->Ok_0@);
    let mut i: usize = 0;
    while i < serialized.len()
        invariant
            i <= serialized@.len(),
            parts == serialized@.map_values(|r: Result<Vec<u8>, ()>| r->Ok_0@),
            forall|j: int| 0 <= j < i ==> #[trigger] serialized@[j] is Ok,
            buffer@ == start + concat_all(parts.take(i as int)),
        decreases serialized@.len() - i,
    {
        match &serialized[i] {
            Ok(bytes) => {
                assert(parts.take(i + 1).drop_last() =~= parts.take(i as int));
                assert(parts[i as int] == bytes@);
                extend(&mut buffer, bytes.as_slice());
            },
            Err(_) => {
                return Xml { inner: Err(()) };
            },
        }
        i = i + 1;
    }
    assert(parts.take(i as int) =~= parts);
    extend(&mut buffer, literal_bytes("</response>"));
    Xml { inner: Ok(buffer) }
}

/// What is answered with a document.
pub struct XmlReply {
    pub status: u16,
    pub content_type: Option<&'static str>,
    pub body: Vec<u8>,
}

impl Xml {
    /// The size of the body: that of the document, or nothing on a failure.
    pub fn size(&self) -> (n: u64)
        ensures
            n == (match self.inner {
                Ok(body) => body@.len(),
                Err(_) => 0,
            }),
    {
        match &self.inner {
            Ok(body) => body.len() as u64,
            Err(_) => 0,
        }
    }

    /// The reply: the document as `application/xml` with status 200, or an empty reply with
    /// status 500 when the document failed.
    pub fn into_response(self) -> (r: XmlReply)
        ensures
            match self.inner {
                Ok(body) => r.status == 200 && r.body@ == body@ && (r.content_type matches Some(t)
                    && t@ == "application/xml; charset=utf-8"@),
                Err(_) => r.status == 500 && r.content_type is None && r.body@.len() == 0,
            },
    {
        match self.inner {
            Ok(body) => XmlReply { status: 200, content_type: Some("application/xml; charset=utf-8"), body },
            Err(_) => XmlReply { status: 500, content_type: None, body: Vec::new() },
        }
    }
}

} // verus!
