//! HTML-escaped strings.
use vstd::prelude::*;

use crate::text::{push_char, push_str};

verus! {

/// The characters that are replaced by an HTML entity.
pub open spec fn is_special(c: char) -> bool {
    c == '<' || c == '>' || c == '&' || c == '\'' || c == '"'
}

/// What a character is written as.
pub open spec fn escape_char(c: char) -> Seq<char> {
    if c == '>' {
        "&gt;"@
    } else if c == '<' {
        "&lt;"@
    } else if c == '&' {
        "&amp;"@
    } else if c == '\'' {
        "&#39;"@
    } else if c == '"' {
        "&quot;"@
    } else {
        seq![c]
    }
}

/// The text with each of `< > & ' "` replaced by its entity.
pub open spec fn escape_text(s: Seq<char>) -> Seq<char>
    decreases s.len(),
{
    if s.len() == 0 {
        seq![]
    } else {
        escape_text(s.drop_last()) + escape_char(s.last())
    }
}

/// Escapes `s` for HTML.
pub fn escape(s: String) -> (out: String)
    ensures
        out@ == escape_text(s@),
{
    let mut out = String::new();
    let text = s.as_str();
    let n = text.unicode_len();
    let mut i: usize = 0;
    while i < n
        invariant
            n == s@.len(),
            text@ == s@,
            i <= n,
            out@ == escape_text(s@.take(i as int)),
        decreases n - i,
    {
        let c = text.get_char(i);
        assert(s@.take(i + 1).drop_last() =~= s@.take(i as int));
        if c == '>' {
            push_str(&mut out, "&gt;");
        } else if c == '<' {
            push_str(&mut out, "&lt;");
        } else if c == '&' {
            push_str(&mut out, "&amp;");
        } else if c == '\'' {
            push_str(&mut out, "&#39;");
        } else if c == '"' {
            push_str(&mut out, "&quot;");
        } else {
            push_char(&mut out, c);
        }
        i = i + 1;
    }
    assert(s@.take(n as int) =~= s@);
    out
}

/// No escaped text holds `<`, `>`, `'` or `"`: each became an entity.
pub proof fn lemma_escaped_has_no_markup(s: Seq<char>)
    ensures
        forall|i: int|
            0 <= i < escape_text(s).len() ==> {
                let c = #[trigger] escape_text(s)[i];
                c != '<' && c != '>' && c != '\'' && c != '"'
            },
    decreases s.len(),
{
    reveal_strlit("&gt;");
    reveal_strlit("&lt;");
    reveal_strlit("&amp;");
    reveal_strlit("&#39;");
    reveal_strlit("&quot;");
    if s.len() > 0 {
        lemma_escaped_has_no_markup(s.drop_last());
        let a = escape_text(s.drop_last());
        let b = escape_char(s.last());
        assert forall|i: int| 0 <= i < (a + b).len() implies {
            let c = #[trigger] (a + b)[i];
            c != '<' && c != '>' && c != '\'' && c != '"'
        } by {
            if i >= a.len() {
                assert((a + b)[i] == b[i - a.len()]);
            }
        }
    }
}

/// Escaping the concatenation of two texts concatenates their escapings.
pub proof fn lemma_escape_concat(a: Seq<char>, b: Seq<char>)
    ensures
        escape_text(a + b) == escape_text(a) + escape_text(b),
    decreases b.len(),
{
    if b.len() == 0 {
        assert(a + b =~= a);
        assert(escape_text(a) + escape_text(b) =~= escape_text(a));
    } else {
        lemma_escape_concat(a, b.drop_last());
        assert((a + b).drop_last() =~= a + b.drop_last());
        assert((a + b).last() == b.last());
        assert(escape_text(a) + escape_text(b) =~= escape_text(a) + escape_text(b.drop_last())
            + escape_char(b.last()));
    }
}

/// A text without any of `< > & ' "` is left as it is.
pub proof fn lemma_escape_plain(s: Seq<char>)
    requires
        forall|i: int| 0 <= i < s.len() ==> !is_special(#[trigger] s[i]),
    ensures
        escape_text(s) == s,
    decreases s.len(),
{
    if s.len() > 0 {
        assert(!is_special(s[s.len() - 1]));
        lemma_escape_plain(s.drop_last());
        assert(s.drop_last().push(s.last()) =~= s);
    }
}

/// A string whose text has been escaped for HTML.
pub struct Escaped(pub String);

impl From<String> for Escaped {
    fn from(value: String) -> (e: Self)
        ensures
            e.0@ == escape_text(value@),
    {
        Escaped(escape(value))
    }
}

impl vstd::std_specs::convert::FromSpecImpl<String> for Escaped {
    /// The text of the result is given, not the `String` that holds it, so calls go by the
    /// contract of `from` above.
    open spec fn obeys_from_spec() -> bool {
        false
    }

    open spec fn from_spec(v: String) -> Self {
        choose|e: Escaped| #[trigger] e.0@ == escape_text(v@)
    }
}

impl From<Escaped> for String {
    /// The text is escaped once more on the way out.
    fn from(value: Escaped) -> (s: Self)
        ensures
            s@ == escape_text(value.0@),
    {
        escape(value.0)
    }
}

impl vstd::std_specs::convert::FromSpecImpl<Escaped> for String {
    /// The text of the result is given, not the `String` that holds it, so calls go by the
    /// contract of `from` above.
    open spec fn obeys_from_spec() -> bool {
        false
    }

    open spec fn from_spec(v: Escaped) -> Self {
        choose|s: String| #[trigger] s@ == escape_text(v.0@)
    }
}

impl Default for Escaped {
    fn default() -> (e: Self)
        ensures
            e.0@ == Seq::<char>::empty(),
    {
        Escaped(String::new())
    }
}

impl Clone for Escaped {
    fn clone(&self) -> (e: Self)
        ensures
            e.0@ == self.0@,
    {
        Escaped(self.0.clone())
    }
}

impl core::ops::Deref for Escaped {
    type Target = String;

    fn deref(&self) -> (s: &String)
        ensures
            s@ == self.0@,
    {
        &self.0
    }
}

} // verus!
