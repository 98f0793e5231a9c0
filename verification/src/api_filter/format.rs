//! Printing header values in reports of invalid requests.
use vstd::prelude::*;

use crate::text::{decimal, push_char, push_decimal, push_str, to_text};

verus! {

/// `std::str::from_utf8`: the bytes as text when they are valid UTF-8, none otherwise.
/// Claimed of it: it succeeds exactly on valid UTF-8, and the text is what the bytes decode to.
#[verifier::external_body]
fn str_from_utf8(bytes: &[u8]) -> (res: Option<&str>)
    ensures
        res is Some <==> vstd::utf8::valid_utf8(bytes@),
        res matches Some(s) ==> s@ == vstd::utf8::decode_utf8(bytes@),
{
    std::str::from_utf8(bytes).ok()
}

/// A header value: its text if it is valid UTF-8, else its bytes.
pub struct FormattedHeaderValue<'a> {
    pub inner: Result<&'a str, &'a [u8]>,
}

/// The greatest number of bytes that are printed of an invalid value.
pub const MAX_PRINTED_BYTES: usize = 100;

/// The bytes written as a debug list's entries, `b0, b1, ...`.
pub open spec fn entries(b: Seq<u8>) -> Seq<char>
    decreases b.len(),
{
    if b.len() == 0 {
        seq![]
    } else if b.len() == 1 {
        decimal(b[0] as nat)
    } else {
        entries(b.drop_last()) + ", "@ + decimal(b.last() as nat)
    }
}

/// How an invalid value is printed: at most its first hundred bytes as a list, with
/// `..` closing the list where bytes were left out.
pub open spec fn invalid_text(b: Seq<u8>) -> Seq<char> {
    if b.len() > 100 {
        "Invalid UTF-8: ["@ + entries(b.take(100)) + ", ..]"@
    } else {
        "Invalid UTF-8: ["@ + entries(b) + "]"@
    }
}

impl<'a> FormattedHeaderValue<'a> {
    /// Keeps the value as text where it is valid UTF-8.
    pub fn new(val: &'a [u8]) -> (res: Self)
        ensures
            vstd::utf8::valid_utf8(val@) ==> (res.inner matches Ok(s) && s@
                == vstd::utf8::decode_utf8(val@)),
            !vstd::utf8::valid_utf8(val@) ==> (res.inner matches Err(b) && b@ == val@),
    {
        match str_from_utf8(val) {
            Some(s) => FormattedHeaderValue { inner: Ok(s) },
            None => FormattedHeaderValue { inner: Err(val) },
        }
    }

    /// The printed form of the value.
    pub open spec fn spec_text(&self) -> Seq<char> {
        match self.inner {
            Ok(s) => s@,
            Err(b) => invalid_text(b@),
        }
    }

    /// Prints the value: its text, or a list of its first bytes.
    pub fn render(&self) -> (out: String)
        ensures
            out@ == self.spec_text(),
    {
        match self.inner {
            Ok(s) => {
                let mut out = String::new();
                push_str(&mut out, s);
                out
            },
            Err(b) => {
                let mut out = String::new();
                push_str(&mut out, "Invalid UTF-8: [");
                let n = if b.len() < MAX_PRINTED_BYTES {
                    b.len()
                } else {
                    MAX_PRINTED_BYTES
                };
                let ghost start = out@;
                let mut i: usize = 0;
                while i < n
                    invariant
                        n <= b@.len(),
                        i <= n,
                        out@ == start + entries(b@.take(i as int)),
                    decreases n - i,
                {
                    assert(b@.take(i + 1).drop_last() =~= b@.take(i as int));
                    if i > 0 {
                        push_str(&mut out, ", ");
                    } else {
                        assert(b@.take(0) =~= Seq::<u8>::empty());
                    }
                    push_decimal(&mut out, b[i] as u64);
                    i = i + 1;
                }
                if b.len() > MAX_PRINTED_BYTES {
                    push_str(&mut out, ", ..]");
                } else {
                    assert(b@.take(n as int) =~= b@);
                    push_str(&mut out, "]");
                }
                out
            },
        }
    }
}

/// The ASCII lower case of a character.
pub open spec fn ascii_lower(c: char) -> char {
    if 'A' <= c <= 'Z' {
        (((c as u32) + 32) as u8) as char
    } else {
        c
    }
}

/// Two texts equal up to the case of ASCII letters.
pub open spec fn eq_ignore_ascii_case(a: Seq<char>, b: Seq<char>) -> bool {
    a.len() == b.len() && forall|i: int| 0 <= i < a.len() ==> ascii_lower(#[trigger] a[i]) == ascii_lower(b[i])
}

fn lower(c: char) -> (r: char)
    ensures
        r == ascii_lower(c),
{
    if 'A' <= c && c <= 'Z' {
        let code = c as u32;
        ((code + 32) as u8) as char
    } else {
        c
    }
}

/// Compares two texts up to the case of ASCII letters, as header names are compared.
pub fn text_eq_ignore_ascii_case(a: &str, b: &str) -> (r: bool)
    ensures
        r == eq_ignore_ascii_case(a@, b@),
{
    let n = a.unicode_len();
    if n != b.unicode_len() {
        return false;
    }
    let mut i: usize = 0;
    while i < n
        invariant
            n == a@.len(),
            n == b@.len(),
            i <= n,
            forall|j: int| 0 <= j < i ==> ascii_lower(#[trigger] a@[j]) == ascii_lower(b@[j]),
        decreases n - i,
    {
        if lower(a.get_char(i)) != lower(b.get_char(i)) {
            return false;
        }
        i = i + 1;
    }
    true
}

/// The text of a header value.
pub open spec fn value_text(value: Seq<u8>) -> Seq<char> {
    if vstd::utf8::valid_utf8(value) {
        vstd::utf8::decode_utf8(value)
    } else {
        invalid_text(value)
    }
}

/// The line of a header; the value of `Authorization` is hidden.
pub open spec fn header_line(name: Seq<char>, value: Seq<u8>) -> Seq<char> {
    name + ": "@ + (if eq_ignore_ascii_case(name, "Authorization"@) {
        "***"@
    } else {
        value_text(value)
    }) + "\n"@
}

/// The lines of the headers.
pub open spec fn header_lines(headers: Seq<(Seq<char>, Seq<u8>)>) -> Seq<char>
    decreases headers.len(),
{
    if headers.len() == 0 {
        seq![]
    } else {
        header_lines(headers.drop_last()) + header_line(headers.last().0, headers.last().1)
    }
}

/// The head of a request as it is printed in reports: the request line (method, URI and
/// version, as written by the server), then one line per header.
pub struct FormattedRequestHead {
    pub request_line: String,
    pub headers: Vec<(String, Vec<u8>)>,
}

impl FormattedRequestHead {
    /// The headers as plain values.
    pub open spec fn headers_view(&self) -> Seq<(Seq<char>, Seq<u8>)> {
        self.headers@.map_values(|h: (String, Vec<u8>)| (h.0@, h.1@))
    }

    /// Prints the head.
    pub fn render(&self) -> (out: String)
        ensures
            out@ == self.request_line@ + "\n"@ + header_lines(self.headers_view()),
    {
        let mut out = String::new();
        push_str(&mut out, self.request_line.as_str());
        push_str(&mut out, "\n");
        let ghost start = out@;
        let mut i: usize = 0;
        while i < self.headers.len()
            invariant
                i <= self.headers@.len(),
                out@ == start + header_lines(self.headers_view().take(i as int)),
            decreases self.headers@.len() - i,
        {
            let name = self.headers[i].0.as_str();
            let value = self.headers[i].1.as_slice();
            assert(self.headers_view().take(i + 1).drop_last() =~= self.headers_view().take(i as int));
            assert(self.headers_view()[i as int] == (name@, value@));
            push_str(&mut out, name);
            push_str(&mut out, ": ");
            if text_eq_ignore_ascii_case(name, "Authorization") {
                push_str(&mut out, "***");
            } else {
                let text = FormattedHeaderValue::new(value).render();
                push_str(&mut out, text.as_str());
            }
            push_str(&mut out, "\n");
            i = i + 1;
        }
        assert(self.headers_view().take(self.headers@.len() as int) =~= self.headers_view());
        out
    }
}

/// The head of an invalid request in a code block, as the API reports it.
pub fn head_block(head: &FormattedRequestHead) -> (s: String)
    ensures
        s@ == "```"@ + head.request_line@ + "\n"@ + header_lines(head.headers_view()) + "```"@,
{
    let text = head.render();
    crate::text::fence_text("```", text.as_str())
}

} // verus!
