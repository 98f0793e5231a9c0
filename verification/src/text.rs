//! Building text.
use vstd::prelude::*;

verus! {

/// `String::push`. Claimed of it: the character is appended to the text.
#[verifier::external_body]
pub(crate) fn push_char(s: &mut String, c: char)
    ensures
        final(s)@ == old(s)@.push(c),
{
    s.push(c);
}

/// Appends a string slice to a string.
pub(crate) fn push_str(s: &mut String, t: &str)
    ensures
        final(s)@ == old(s)@ + t@,
{
    s.append(t);
}

/// The decimal digit `d` as a character.
pub open spec fn digit_char(d: nat) -> char {
    ((48 + d) as u8) as char
}

/// `n` written in decimal, without leading zeros.
pub open spec fn decimal(n: nat) -> Seq<char>
    decreases n,
{
    if n < 10 {
        seq![digit_char(n)]
    } else {
        decimal(n / 10).push(digit_char(n % 10))
    }
}

/// Appends `n` written in decimal.
pub fn push_decimal(s: &mut String, n: u64)
    ensures
        final(s)@ == old(s)@ + decimal(n as nat),
    decreases n,
{
    if n >= 10 {
        push_decimal(s, n / 10);
    }
    let d = (n % 10) as u8;
    push_char(s, (48 + d) as char);
    assert(decimal(n as nat) == (if n < 10 { seq![digit_char(n as nat)] } else { decimal((n / 10) as nat).push(digit_char((n % 10) as nat)) }));
}

/// `n` written in decimal, with a `-` before it when it is negative.
pub open spec fn signed_decimal(n: int) -> Seq<char> {
    if n < 0 {
        seq!['-'] + decimal((-n) as nat)
    } else {
        decimal(n as nat)
    }
}

/// Writes an `i32` in decimal, as its `to_string` does.
pub fn i32_to_text(n: i32) -> (s: String)
    ensures
        s@ == signed_decimal(n as int),
{
    let mut s = String::new();
    if n < 0 {
        push_char(&mut s, '-');
        let magnitude: u64 = (-(n as i64)) as u64;
        push_decimal(&mut s, magnitude);
    } else {
        push_decimal(&mut s, n as u64);
    }
    s
}

/// `text` between two copies of `fence`.
pub open spec fn fenced(fence: Seq<char>, text: Seq<char>) -> Seq<char> {
    fence + text + fence
}

/// Writes `text` between two copies of `fence`.
pub fn fence_text(fence: &str, text: &str) -> (s: String)
    ensures
        s@ == fenced(fence@, text@),
{
    let mut s = String::new();
    push_str(&mut s, fence);
    push_str(&mut s, text);
    push_str(&mut s, fence);
    s
}

/// A copy of a text.
pub fn to_text(t: &str) -> (s: String)
    ensures
        s@ == t@,
{
    let mut s = String::new();
    push_str(&mut s, t);
    s
}

/// Whether two texts are equal.
pub fn text_eq(a: &str, b: &str) -> (r: bool)
    ensures
        r == (a@ == b@),
{
    let n = a.unicode_len();
    if n != b.unicode_len() {
        return false;
    }
    let mut i: usize = 0;
    while i < n
        invariant
            n == a@.len(),
            n == b@.len(),
            i <= n,
            forall|j: int| 0 <= j < i ==> a@[j] == b@[j],
        decreases n - i,
    {
        if a.get_char(i) != b.get_char(i) {
            return false;
        }
        i = i + 1;
    }
    assert(a@ =~= b@);
    true
}

/// Index of the first `c` in `s`.
pub open spec fn first_char_index(s: Seq<char>, c: char) -> Option<nat>
    decreases s.len(),
{
    if s.len() == 0 {
        None
    } else if s[0] == c {
        Some(0)
    } else {
        match first_char_index(s.drop_first(), c) {
            Some(i) => Some(i + 1),
            None => None,
        }
    }
}

/// The pieces of `s` between the occurrences of `sep`, as `str::split` gives them.
pub open spec fn split_text(s: Seq<char>, sep: char) -> Seq<Seq<char>>
    decreases s.len(),
{
    match first_char_index(s, sep) {
        Some(i) => if i < s.len() {
            seq![s.take(i as int)] + split_text(s.skip(i as int + 1), sep)
        } else {
            seq![s]
        },
        None => seq![s],
    }
}

pub proof fn lemma_first_char_index(s: Seq<char>, c: char, i: nat)
    requires
        i <= s.len(),
        forall|j: int| 0 <= j < i ==> #[trigger] s[j] != c,
    ensures
        i < s.len() && s[i as int] == c ==> first_char_index(s, c) == Some(i),
        i == s.len() ==> first_char_index(s, c) is None,
    decreases i,
{
    if i > 0 {
        assert forall|j: int| 0 <= j < i - 1 implies #[trigger] s.drop_first()[j] != c by {
            assert(s.drop_first()[j] == s[j + 1]);
        }
        if i < s.len() {
            assert(s.drop_first()[i - 1] == s[i as int]);
        }
        lemma_first_char_index(s.drop_first(), c, (i - 1) as nat);
    }
}

/// A text without `sep` is a single piece.
pub proof fn lemma_split_plain(a: Seq<char>, sep: char)
    requires
        forall|j: int| 0 <= j < a.len() ==> #[trigger] a[j] != sep,
    ensures
        split_text(a, sep) == seq![a],
{
    lemma_first_char_index(a, sep, a.len());
}

/// A piece without `sep`, then `sep`, then the rest: the piece comes first.
pub proof fn lemma_split_prefix(a: Seq<char>, b: Seq<char>, sep: char)
    requires
        forall|j: int| 0 <= j < a.len() ==> #[trigger] a[j] != sep,
    ensures
        split_text(a + seq![sep] + b, sep) == seq![a] + split_text(b, sep),
{
    let s = a + seq![sep] + b;
    assert forall|j: int| 0 <= j < a.len() implies #[trigger] s[j] != sep by {
        assert(s[j] == a[j]);
    }
    lemma_first_char_index(s, sep, a.len());
    assert(s.take(a.len() as int) =~= a);
    assert(s.skip(a.len() as int + 1) =~= b);
}

/// The pieces of `s` between the occurrences of `sep`.
pub fn split_char<'a>(s: &'a str, sep: char) -> (parts: Vec<&'a str>)
    ensures
        parts@.map_values(|p: &str| p@) == split_text(s@, sep),
{
    let n = s.unicode_len();
    let mut parts: Vec<&'a str> = Vec::new();
    let mut start: usize = 0;
    let mut i: usize = 0;
    assert(s@.skip(0) =~= s@);
    assert(parts@.map_values(|p: &str| p@) =~= Seq::<Seq<char>>::empty());
    assert(Seq::<Seq<char>>::empty() + split_text(s@, sep) =~= split_text(s@, sep));
    while i < n
        invariant
            n == s@.len(),
            start <= i <= n,
            forall|j: int| start <= j < i ==> #[trigger] s@[j] != sep,
            parts@.map_values(|p: &str| p@) + split_text(s@.skip(start as int), sep)
                == split_text(s@, sep),
        decreases n - i,
    {
        if s.get_char(i) == sep {
            let piece = s.substring_char(start, i);
            let ghost rest = s@.skip(start as int);
            proof {
                assert forall|j: int| 0 <= j < i - start implies #[trigger] rest[j] != sep by {
                    assert(rest[j] == s@[start + j]);
                }
                lemma_first_char_index(rest, sep, (i - start) as nat);
                assert(rest.take(i - start) =~= piece@);
                assert(rest.skip(i - start + 1) =~= s@.skip(i + 1));
            }
            let ghost before = parts@.map_values(|p: &str| p@);
            parts.push(piece);
            assert(parts@.map_values(|p: &str| p@) =~= before.push(piece@));
            assert(before + split_text(rest, sep) =~= before.push(piece@) + split_text(s@.skip(i + 1), sep));
            start = i + 1;
        }
        i = i + 1;
    }
    let piece = s.substring_char(start, n);
    let ghost rest = s@.skip(start as int);
    proof {
        assert forall|j: int| 0 <= j < n - start implies #[trigger] rest[j] != sep by {
            assert(rest[j] == s@[start + j]);
        }
        lemma_first_char_index(rest, sep, (n - start) as nat);
        assert(rest =~= piece@);
    }
    let ghost before = parts@.map_values(|p: &str| p@);
    parts.push(piece);
    assert(parts@.map_values(|p: &str| p@) =~= before.push(piece@));
    assert(before + split_text(rest, sep) =~= before.push(piece@));
    parts
}

} // verus!
