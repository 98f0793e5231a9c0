//! Reading and writing decimal numbers in text.
use vstd::prelude::*;

use crate::text::{decimal, digit_char};

verus! {

/// A character among `0` to `9`.
pub open spec fn is_digit_char(c: char) -> bool {
    '0' <= c <= '9'
}

/// The value of a digit character.
pub open spec fn digit_value(c: char) -> nat {
    (c as u32 - 48) as nat
}

/// Every character of `s` is a digit.
pub open spec fn all_digits(s: Seq<char>) -> bool {
    forall|i: int| 0 <= i < s.len() ==> is_digit_char(#[trigger] s[i])
}

/// The number that the digits `s` write in decimal.
pub open spec fn digits_number(s: Seq<char>) -> nat
    decreases s.len(),
{
    if s.len() == 0 {
        0
    } else {
        digits_number(s.drop_last()) * 10 + digit_value(s.last())
    }
}

/// What `str::parse::<u64>` yields when the result must not exceed `max`: an optional `+`,
/// then at least one digit, and nothing else.
pub open spec fn spec_parse_unsigned_text(s: Seq<char>, max: nat) -> Option<nat> {
    let digits = if s.len() > 0 && s[0] == '+' {
        s.drop_first()
    } else {
        s
    };
    if digits.len() == 0 || !all_digits(digits) || digits_number(digits) > max {
        None
    } else {
        Some(digits_number(digits))
    }
}

/// Parses unsigned decimal text, refusing values above `max`, as `str::parse` does for the
/// unsigned integer type whose greatest value is `max`.
pub fn parse_unsigned_text(s: &str, max: u64) -> (res: Option<u64>)
    ensures
        match spec_parse_unsigned_text(s@, max as nat) {
            Some(v) => res == Some(v as u64),
            None => res is None,
        },
{
    let n = s.unicode_len();
    let mut i: usize = 0;
    if n > 0 && s.get_char(0) == '+' {
        i = 1;
    }
    let ghost digits = if s@.len() > 0 && s@[0] == '+' {
        s@.drop_first()
    } else {
        s@
    };
    assert(digits =~= s@.skip(i as int));
    if i == n {
        return None;
    }
    let start = i;
    let mut value: u64 = 0;
    while i < n
        invariant
            n == s@.len(),
            start < n,
            start <= i <= n,
            digits =~= s@.skip(start as int),
            digits == (if s@.len() > 0 && s@[0] == '+' {
                s@.drop_first()
            } else {
                s@
            }),
            all_digits(s@.subrange(start as int, i as int)),
            value as nat == digits_number(s@.subrange(start as int, i as int)),
            value <= max,
        decreases n - i,
    {
        let c = s.get_char(i);
        assert(s@.subrange(start as int, i + 1).drop_last() =~= s@.subrange(start as int, i as int));
        if !('0' <= c && c <= '9') {
            assert(digits[i - start] == c);
            return None;
        }
        let d = (c as u32 - 48) as u64;
        let next: u128 = (value as u128) * 10 + (d as u128);
        if next > max as u128 {
            proof {
                if all_digits(digits) {
                    lemma_digits_number_prefix_grows(digits, (i + 1 - start) as nat);
                    assert(digits.take(i + 1 - start) =~= s@.subrange(start as int, i + 1));
                }
            }
            return None;
        }
        value = next as u64;
        i = i + 1;
        assert(all_digits(s@.subrange(start as int, i as int)));
    }
    assert(s@.subrange(start as int, n as int) =~= digits);
    Some(value)
}

/// What `str::parse::<i32>` yields: an optional `+` or `-`, then at least one digit, and
/// nothing else, the value lying in the range of `i32`.
pub open spec fn spec_parse_i32_text(s: Seq<char>) -> Option<int> {
    if s.len() > 0 && s[0] == '-' {
        let digits = s.drop_first();
        if digits.len() == 0 || !all_digits(digits) || digits_number(digits) > 2147483648 {
            None
        } else {
            Some(-digits_number(digits))
        }
    } else {
        match spec_parse_unsigned_text(s, 2147483647) {
            Some(n) => Some(n as int),
            None => None,
        }
    }
}

/// Parses decimal text as an `i32`, as `str::parse` does.
pub fn parse_i32_text(s: &str) -> (res: Option<i32>)
    ensures
        match spec_parse_i32_text(s@) {
            Some(v) => res == Some(v as i32),
            None => res is None,
        },
{
    let n = s.unicode_len();
    if n > 0 && s.get_char(0) == '-' {
        let digits = s.substring_char(1, n);
        assert(digits@ =~= s@.drop_first());
        if digits.unicode_len() > 0 && digits.get_char(0) == '+' {
            assert(!is_digit_char(digits@[0]));
            return None;
        }
        match parse_unsigned_text(digits, 2147483648) {
            Some(v) => {
                let magnitude = v as i64;
                Some((-magnitude) as i32)
            },
            None => None,
        }
    } else {
        match parse_unsigned_text(s, 2147483647) {
            Some(v) => Some(v as i32),
            None => None,
        }
    }
}

/// A longer run of digits is worth at least as much as its prefix.
proof fn lemma_digits_number_prefix_grows(s: Seq<char>, k: nat)
    requires
        k <= s.len(),
        all_digits(s),
    ensures
        digits_number(s) >= digits_number(s.take(k as int)),
    decreases s.len(),
{
    if k < s.len() {
        assert(s.drop_last().take(k as int) =~= s.take(k as int));
        assert(all_digits(s.drop_last()));
        lemma_digits_number_prefix_grows(s.drop_last(), k);
        assert(digits_number(s) >= digits_number(s.drop_last())) by (nonlinear_arith)
            requires digits_number(s) == digits_number(s.drop_last()) * 10 + digit_value(s.last());
    } else {
        assert(s.take(k as int) =~= s);
    }
}

/// The decimal writing of a number is read back as that number.
pub proof fn lemma_decimal_digits(n: nat)
    ensures
        all_digits(decimal(n)),
        decimal(n).len() > 0,
        digits_number(decimal(n)) == n,
        decimal(n)[0] != '+',
    decreases n,
{
    let last = digit_char(n % 10);
    assert(((48 + n % 10) as u8) as char as u32 == 48 + n % 10);
    assert(digit_value(last) == n % 10);
    if n >= 10 {
        lemma_decimal_digits(n / 10);
        let d = decimal(n / 10);
        assert(decimal(n).drop_last() =~= d);
        assert(decimal(n).last() == last);
        assert(decimal(n)[0] == d[0]);
        assert(all_digits(decimal(n))) by {
            assert forall|i: int| 0 <= i < decimal(n).len() implies is_digit_char(
                #[trigger] decimal(n)[i],
            ) by {
                if i < d.len() {
                    assert(decimal(n)[i] == d[i]);
                }
            }
        }
        assert((n / 10) * 10 + n % 10 == n) by (nonlinear_arith);
        assert(digits_number(decimal(n)) == digits_number(d) * 10 + digit_value(last));
    } else {
        assert(decimal(n).drop_last() =~= Seq::<char>::empty());
        assert(n % 10 == n);
        assert(digits_number(decimal(n)) == digits_number(Seq::<char>::empty()) * 10 + digit_value(last));
    }
}

} // verus!
