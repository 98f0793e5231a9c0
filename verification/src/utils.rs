//! Small helpers shared by the routes.
use vstd::prelude::*;
use vstd::std_specs::cmp::PartialEqSpec;

use rand::Rng;

use crate::text::push_char;

verus! {

/// Some item of the slice equals an item that comes after it.
pub open spec fn has_repeat<T: PartialEq>(s: Seq<T>) -> bool {
    exists|i: int, j: int| 0 <= i < j < s.len() && #[trigger] s[j].eq_spec(&s[i])
}

/// Checks for any repeated item in a slice.
pub fn any_repeated<T: PartialEq>(slice: &[T]) -> (r: bool)
    requires
        <T as PartialEqSpec>::obeys_eq_spec(),
    ensures
        r == has_repeat(slice@),
{
    let mut i: usize = 0;
    while i < slice.len()
        invariant
            i <= slice@.len(),
            <T as PartialEqSpec>::obeys_eq_spec(),
            forall|a: int, b: int| 0 <= a < i && a < b < slice@.len() ==> !#[trigger] slice@[b].eq_spec(&slice@[a]),
        decreases slice@.len() - i,
    {
        let mut j: usize = i + 1;
        while j < slice.len()
            invariant
                i < slice@.len(),
                i + 1 <= j <= slice@.len(),
                <T as PartialEqSpec>::obeys_eq_spec(),
                forall|a: int, b: int| 0 <= a < i && a < b < slice@.len() ==> !#[trigger] slice@[b].eq_spec(&slice@[a]),
                forall|b: int| i < b < j ==> !#[trigger] slice@[b].eq_spec(&slice@[i as int]),
            decreases slice@.len() - j,
        {
            if slice[j] == slice[i] {
                return true;
            }
            j = j + 1;
        }
        i = i + 1;
    }
    false
}

/// An ASCII letter or digit.
pub open spec fn is_alphanumeric(c: char) -> bool {
    ('A' <= c <= 'Z') || ('a' <= c <= 'z') || ('0' <= c <= '9')
}

/// A character drawn at random by `rand::Rng::sample` from the thread-local generator with the
/// `rand::distributions::Alphanumeric` distribution. Claimed of it: the character is an ASCII
/// letter or digit; which one is left open, as it is random.
#[verifier::external_body]
fn random_alphanumeric() -> (c: char)
    ensures
        is_alphanumeric(c),
{
    char::from(Rng::sample(&mut rand::thread_rng(), rand::distributions::Alphanumeric))
}

/// Returns a randomly-generated token with the `len` length. It contains alphanumeric characters.
pub fn generate_token(len: usize) -> (token: String)
    ensures
        token@.len() == len,
        forall|i: int| 0 <= i < len ==> is_alphanumeric(#[trigger] token@[i]),
{
    let mut token = String::new();
    let mut i: usize = 0;
    while i < len
        invariant
            i <= len,
            token@.len() == i,
            forall|k: int| 0 <= k < i ==> is_alphanumeric(#[trigger] token@[k]),
        decreases len - i,
    {
        push_char(&mut token, random_alphanumeric());
        i = i + 1;
    }
    token
}

} // verus!
