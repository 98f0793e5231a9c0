//! Byte-level building blocks of the `User-Agent` grammars.
use vstd::prelude::*;

verus! {

/// An ASCII decimal digit.
pub open spec fn is_digit(b: u8) -> bool {
    48 <= b <= 57
}

/// Number of decimal digits at the start of `s`.
pub open spec fn leading_digits(s: Seq<u8>) -> nat
    decreases s.len(),
{
    if s.len() > 0 && is_digit(s[0]) {
        1 + leading_digits(s.drop_first())
    } else {
        0
    }
}

/// The number written in decimal by the digits `d`.
pub open spec fn digits_value(d: Seq<u8>) -> nat
    decreases d.len(),
{
    if d.len() == 0 {
        0
    } else {
        digits_value(d.drop_last()) * 10 + (d.last() - 48) as nat
    }
}

/// A non-empty run of decimal digits read as a number no greater than `max`;
/// the run is taken whole, so a larger number is refused.
pub open spec fn spec_parse_unsigned(s: Seq<u8>, max: nat) -> Option<(nat, Seq<u8>)> {
    let n = leading_digits(s);
    if n == 0 || digits_value(s.take(n as int)) > max {
        None
    } else {
        Some((digits_value(s.take(n as int)), s.skip(n as int)))
    }
}

/// The literal `t` at the start of `s`; gives what follows it.
pub open spec fn spec_tag(s: Seq<u8>, t: Seq<u8>) -> Option<Seq<u8>> {
    if t.len() <= s.len() && s.take(t.len() as int) == t {
        Some(s.skip(t.len() as int))
    } else {
        None
    }
}

/// Index of the first occurrence of `b` in `s`.
pub open spec fn first_index(s: Seq<u8>, b: u8) -> Option<nat>
    decreases s.len(),
{
    if s.len() == 0 {
        None
    } else if s[0] == b {
        Some(0)
    } else {
        match first_index(s.drop_first(), b) {
            Some(i) => Some(i + 1),
            None => None,
        }
    }
}

/// Everything before the first `b` in `s`, and the rest from that `b` on.
pub open spec fn spec_take_until(s: Seq<u8>, b: u8) -> Option<(Seq<u8>, Seq<u8>)> {
    match first_index(s, b) {
        Some(i) => Some((s.take(i as int), s.skip(i as int))),
        None => None,
    }
}

/// Characterises `leading_digits` by the bytes it covers.
proof fn lemma_leading_digits_exact(s: Seq<u8>, n: nat)
    requires
        n <= s.len(),
        forall|k: int| 0 <= k < n ==> is_digit(#[trigger] s[k]),
        n < s.len() ==> !is_digit(s[n as int]),
    ensures
        leading_digits(s) == n,
    decreases n,
{
    if n > 0 {
        assert forall|k: int| 0 <= k < n - 1 implies is_digit(#[trigger] s.drop_first()[k]) by {
            assert(s.drop_first()[k] == s[k + 1]);
        }
        if n - 1 < s.drop_first().len() {
            assert(s.drop_first()[n - 1] == s[n as int]);
        }
        lemma_leading_digits_exact(s.drop_first(), (n - 1) as nat);
    }
}

/// Reads a run of digits at `pos` as a number no greater than `max`.
pub fn parse_unsigned(input: &[u8], pos: usize, max: u64) -> (res: Option<(u64, usize)>)
    requires
        pos <= input@.len(),
    ensures
        match spec_parse_unsigned(input@.skip(pos as int), max as nat) {
            Some((v, rest)) => res matches Some((rv, end)) && rv == v && pos <= end <= input@.len()
                && rest == input@.skip(end as int),
            None => res is None,
        },
{
    let ghost s = input@.skip(pos as int);
    let mut i = pos;
    let mut value: u64 = 0;
    let mut overflow = false;
    while i < input.len() && 48 <= input[i] && input[i] <= 57
        invariant
            pos <= i <= input@.len(),
            s == input@.skip(pos as int),
            forall|k: int| 0 <= k < i - pos ==> is_digit(#[trigger] s[k]),
            !overflow ==> value as nat == digits_value(s.take(i - pos)) && value <= max,
            overflow ==> digits_value(s.take(i - pos)) > max,
        decreases input@.len() - i,
    {
        let d = (input[i] - 48) as u64;
        let ghost prev = s.take(i - pos);
        assert(s.take(i + 1 - pos).drop_last() == prev);
        assert(s.take(i + 1 - pos).last() == input[i as int]);
        if !overflow {
            let next: u128 = (value as u128) * 10 + (d as u128);
            if next > max as u128 {
                overflow = true;
            } else {
                value = next as u64;
            }
        } else {
            assert(digits_value(s.take(i + 1 - pos)) >= digits_value(prev)) by (nonlinear_arith)
                requires digits_value(s.take(i + 1 - pos)) == digits_value(prev) * 10 + (input[i as int] - 48) as nat;
        }
        i = i + 1;
    }
    proof {
        lemma_leading_digits_exact(s, (i - pos) as nat);
    }
    if i == pos || overflow {
        None
    } else {
        Some((value, i))
    }
}

/// The bytes of an ASCII text.
pub open spec fn ascii(s: Seq<char>) -> Seq<u8> {
    s.map_values(|c: char| c as u8)
}

/// The bytes of an ASCII string literal.
pub fn literal_bytes(s: &str) -> (b: &[u8])
    requires
        vstd::utf8::is_ascii_chars(s@),
    ensures
        b@ == ascii(s@),
{
    proof {
        vstd::utf8::is_ascii_chars_encode_utf8(s@);
    }
    let b = s.as_bytes();
    assert(b@ =~= ascii(s@));
    b
}

/// Matches the literal `t` at `pos`; gives the position just after it.
pub fn tag(input: &[u8], pos: usize, t: &[u8]) -> (res: Option<usize>)
    requires
        pos <= input@.len(),
    ensures
        match spec_tag(input@.skip(pos as int), t@) {
            Some(rest) => res matches Some(end) && pos <= end <= input@.len() && rest
                == input@.skip(end as int) && end == pos + t@.len(),
            None => res is None,
        },
{
    let ghost s = input@.skip(pos as int);
    if t.len() > input.len() - pos {
        return None;
    }
    let mut k: usize = 0;
    while k < t.len()
        invariant
            pos + t@.len() <= input.len(),
            s == input@.skip(pos as int),
            k <= t@.len(),
            forall|j: int| 0 <= j < k ==> #[trigger] s[j] == t@[j],
        decreases t@.len() - k,
    {
        if input[pos + k] != t[k] {
            assert(s.take(t@.len() as int)[k as int] != t@[k as int]);
            return None;
        }
        k = k + 1;
    }
    assert(s.take(t@.len() as int) =~= t@);
    assert(s.skip(t@.len() as int) =~= input@.skip(pos + t@.len()));
    Some(pos + t.len())
}

proof fn lemma_first_index(s: Seq<u8>, b: u8, i: nat)
    requires
        i <= s.len(),
        forall|j: int| 0 <= j < i ==> #[trigger] s[j] != b,
    ensures
        i < s.len() && s[i as int] == b ==> first_index(s, b) == Some(i),
        i == s.len() ==> first_index(s, b) is None,
    decreases i,
{
    if i > 0 {
        assert forall|j: int| 0 <= j < i - 1 implies #[trigger] s.drop_first()[j] != b by {
            assert(s.drop_first()[j] == s[j + 1]);
        }
        if i < s.len() {
            assert(s.drop_first()[i - 1] == s[i as int]);
        }
        lemma_first_index(s.drop_first(), b, (i - 1) as nat);
    }
}

/// Finds the first `b` at or after `pos`; gives its position.
pub fn take_until(input: &[u8], pos: usize, b: u8) -> (res: Option<usize>)
    requires
        pos <= input@.len(),
    ensures
        match spec_take_until(input@.skip(pos as int), b) {
            Some((before, rest)) => res matches Some(end) && pos <= end < input@.len() && before
                == input@.subrange(pos as int, end as int) && rest == input@.skip(end as int),
            None => res is None,
        },
{
    let ghost s = input@.skip(pos as int);
    let mut i = pos;
    while i < input.len()
        invariant
            pos <= i <= input@.len(),
            s == input@.skip(pos as int),
            forall|j: int| 0 <= j < i - pos ==> #[trigger] s[j] != b,
        decreases input@.len() - i,
    {
        if input[i] == b {
            proof {
                lemma_first_index(s, b, (i - pos) as nat);
            }
            assert(s.take(i - pos) =~= input@.subrange(pos as int, i as int));
            assert(s.skip(i - pos) =~= input@.skip(i as int));
            return Some(i);
        }
        i = i + 1;
    }
    proof {
        lemma_first_index(s, b, (i - pos) as nat);
    }
    None
}

/// A separator literal followed by a number no greater than `max`.
pub open spec fn spec_sep_unsigned(s: Seq<u8>, sep: Seq<u8>, max: nat) -> Option<(nat, Seq<u8>)> {
    match spec_tag(s, sep) {
        Some(rest) => spec_parse_unsigned(rest, max),
        None => None,
    }
}

/// A literal prefix, then everything up to (not including) the first `end` byte.
pub open spec fn spec_field(s: Seq<u8>, prefix: Seq<u8>, end: u8) -> Option<(Seq<u8>, Seq<u8>)> {
    match spec_tag(s, prefix) {
        Some(rest) => spec_take_until(rest, end),
        None => None,
    }
}

/// Reads the separator `sep` and then a number no greater than `max`, at `pos`.
pub fn sep_unsigned(input: &[u8], pos: usize, sep: &[u8], max: u64) -> (res: Option<(u64, usize)>)
    requires
        pos <= input@.len(),
    ensures
        match spec_sep_unsigned(input@.skip(pos as int), sep@, max as nat) {
            Some((v, rest)) => res matches Some((rv, end)) && rv == v && pos <= end <= input@.len()
                && rest == input@.skip(end as int),
            None => res is None,
        },
{
    match tag(input, pos, sep) {
        Some(p) => parse_unsigned(input, p, max),
        None => None,
    }
}

/// Reads the literal `prefix` at `pos`, then the bytes up to the first `end`;
/// gives where those bytes start and where they stop.
pub fn field(input: &[u8], pos: usize, prefix: &[u8], end: u8) -> (res: Option<(usize, usize)>)
    requires
        pos <= input@.len(),
    ensures
        match spec_field(input@.skip(pos as int), prefix@, end) {
            Some((value, rest)) => res matches Some((start, stop)) && pos <= start <= stop
                < input@.len() && value == input@.subrange(start as int, stop as int) && rest
                == input@.skip(stop as int),
            None => res is None,
        },
{
    match tag(input, pos, prefix) {
        Some(p) => match take_until(input, p, end) {
            Some(q) => Some((p, q)),
            None => None,
        },
        None => None,
    }
}

/// Whether two byte strings are equal.
pub fn bytes_eq(a: &[u8], b: &[u8]) -> (r: bool)
    ensures
        r == (a@ == b@),
{
    if a.len() != b.len() {
        return false;
    }
    let mut i: usize = 0;
    while i < a.len()
        invariant
            a@.len() == b@.len(),
            i <= a@.len(),
            forall|j: int| 0 <= j < i ==> a@[j] == b@[j],
        decreases a@.len() - i,
    {
        if a[i] != b[i] {
            return false;
        }
        i = i + 1;
    }
    assert(a@ =~= b@);
    true
}

/// The index found by [`first_index`] holds the byte searched for.
pub proof fn lemma_first_index_found(s: Seq<u8>, b: u8)
    ensures
        first_index(s, b) matches Some(i) ==> i < s.len() && s[i as int] == b,
    decreases s.len(),
{
    if s.len() > 0 && s[0] != b {
        lemma_first_index_found(s.drop_first(), b);
        if let Some(i) = first_index(s.drop_first(), b) {
            assert(s.drop_first()[i as int] == s[i as int + 1]);
        }
    }
}

/// The byte found by [`spec_take_until`] starts what is left.
pub proof fn lemma_take_until_stops_at(s: Seq<u8>, b: u8)
    ensures
        spec_take_until(s, b) matches Some((_, rest)) ==> rest.len() > 0 && rest[0] == b,
{
    lemma_first_index_found(s, b);
}

/// `n` written in decimal, as ASCII bytes.
pub open spec fn decimal_bytes(n: nat) -> Seq<u8>
    decreases n,
{
    if n < 10 {
        seq![(48 + n) as u8]
    } else {
        decimal_bytes(n / 10).push((48 + n % 10) as u8)
    }
}

/// No byte of `s` is `b`.
pub open spec fn free_of(s: Seq<u8>, b: u8) -> bool {
    forall|k: int| 0 <= k < s.len() ==> #[trigger] s[k] != b
}

/// Decimal bytes are digits, at least one, and read back as the number.
pub proof fn lemma_decimal_bytes(n: nat)
    ensures
        decimal_bytes(n).len() > 0,
        forall|k: int| 0 <= k < decimal_bytes(n).len() ==> is_digit(#[trigger] decimal_bytes(n)[k]),
        digits_value(decimal_bytes(n)) == n,
    decreases n,
{
    if n >= 10 {
        lemma_decimal_bytes(n / 10);
        let d = decimal_bytes(n);
        let prefix = decimal_bytes(n / 10);
        assert(d.drop_last() =~= prefix);
        assert(n / 10 * 10 + n % 10 == n) by (nonlinear_arith);
        let last = (48 + n % 10) as u8;
        assert(last == 48 + n % 10);
        assert(d.last() == last);
        assert(digits_value(d) == digits_value(prefix) * 10 + (last - 48) as nat);
        assert forall|k: int| 0 <= k < d.len() implies is_digit(#[trigger] d[k]) by {
            if k < d.len() - 1 {
                assert(d[k] == prefix[k]);
            }
        }
    } else {
        let d = decimal_bytes(n);
        assert(d.drop_last() =~= Seq::<u8>::empty());
        assert(((48 + n) as u8) == 48 + n);
        assert(d.last() == (48 + n) as u8);
        assert(digits_value(d) == digits_value(d.drop_last()) * 10 + (d.last() - 48) as nat);
    }
}

/// Decimal bytes carry no byte other than digits.
pub proof fn lemma_decimal_bytes_free_of(n: nat, b: u8)
    requires
        !is_digit(b),
    ensures
        free_of(decimal_bytes(n), b),
{
    lemma_decimal_bytes(n);
}

/// Two byte strings without `b` make one without `b`.
pub proof fn lemma_free_of_concat(x: Seq<u8>, y: Seq<u8>, b: u8)
    requires
        free_of(x, b),
        free_of(y, b),
    ensures
        free_of(x + y, b),
{
    assert forall|k: int| 0 <= k < (x + y).len() implies #[trigger] (x + y)[k] != b by {
        if k >= x.len() {
            assert((x + y)[k] == y[k - x.len()]);
        }
    }
}

/// A literal is read at the start of a text that starts with it.
pub proof fn lemma_tag_prefix(t: Seq<u8>, s: Seq<u8>)
    ensures
        spec_tag(t + s, t) == Some(s),
{
    assert((t + s).take(t.len() as int) =~= t);
    assert((t + s).skip(t.len() as int) =~= s);
}

/// A number written in decimal is read back, up to the first byte that is not a digit.
pub proof fn lemma_parse_decimal(n: nat, s: Seq<u8>, max: nat)
    requires
        n <= max,
        s.len() > 0 ==> !is_digit(s[0]),
    ensures
        spec_parse_unsigned(decimal_bytes(n) + s, max) == Some((n, s)),
{
    lemma_decimal_bytes(n);
    let d = decimal_bytes(n);
    let x = d + s;
    assert forall|k: int| 0 <= k < d.len() implies is_digit(#[trigger] x[k]) by {
        assert(x[k] == d[k]);
    }
    if d.len() < x.len() {
        assert(x[d.len() as int] == s[0]);
    }
    lemma_leading_digits_exact(x, d.len());
    assert(x.take(d.len() as int) =~= d);
    assert(x.skip(d.len() as int) =~= s);
}

/// A separator and a number written in decimal are read back.
pub proof fn lemma_sep_decimal(sep: Seq<u8>, n: nat, s: Seq<u8>, max: nat)
    requires
        n <= max,
        s.len() > 0 ==> !is_digit(s[0]),
    ensures
        spec_sep_unsigned(sep + (decimal_bytes(n) + s), sep, max) == Some((n, s)),
{
    lemma_tag_prefix(sep, decimal_bytes(n) + s);
    lemma_parse_decimal(n, s, max);
}

/// A field is read back: its prefix, then its value up to the byte that ends it.
pub proof fn lemma_field_value(prefix: Seq<u8>, value: Seq<u8>, end: u8, s: Seq<u8>)
    requires
        free_of(value, end),
        s.len() > 0,
        s[0] == end,
    ensures
        spec_field(prefix + (value + s), prefix, end) == Some((value, s)),
{
    lemma_tag_prefix(prefix, value + s);
    let r = value + s;
    assert forall|j: int| 0 <= j < value.len() implies #[trigger] r[j] != end by {
        assert(r[j] == value[j]);
    }
    assert(r[value.len() as int] == s[0]);
    lemma_first_index(r, end, value.len());
    assert(r.take(value.len() as int) =~= value);
    assert(r.skip(value.len() as int) =~= s);
}

/// A field whose value never meets the byte that ends it is not read.
pub proof fn lemma_field_unended(prefix: Seq<u8>, value: Seq<u8>, end: u8)
    requires
        free_of(value, end),
    ensures
        spec_field(prefix + value, prefix, end) is None,
{
    lemma_tag_prefix(prefix, value);
    lemma_first_index(value, end, value.len());
}

} // verus!
