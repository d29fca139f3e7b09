//! Whole numbers in decimal, as the standard library reads them.
use vstd::prelude::*;

verus! {

pub open spec fn is_digit(c: char) -> bool {
    '0' <= c <= '9'
}

/// The number that a run of decimal digits writes, if it is one: at least
/// one digit, and nothing but digits.
pub open spec fn digits_value(s: Seq<char>) -> Option<nat>
    decreases s.len(),
{
    if s.len() == 0 || !is_digit(s.last()) {
        None
    } else if s.len() == 1 {
        Some((s.last() as nat - '0' as nat) as nat)
    } else {
        match digits_value(s.drop_last()) {
            Some(high) => Some((10 * high + (s.last() as nat - '0' as nat)) as nat),
            None => None,
        }
    }
}

/// The number a text writes when a plus sign may stand in front.
pub open spec fn natural(s: Seq<char>) -> Option<nat> {
    if s.len() > 0 && s[0] == '+' {
        digits_value(s.skip(1))
    } else {
        digits_value(s)
    }
}

/// The number a text writes when either sign may stand in front.
pub open spec fn integer(s: Seq<char>) -> Option<int> {
    if s.len() > 0 && s[0] == '-' {
        match digits_value(s.skip(1)) {
            Some(n) => Some(-(n as int)),
            None => None,
        }
    } else {
        match natural(s) {
            Some(n) => Some(n as int),
            None => None,
        }
    }
}

/// How `i32`'s `FromStr` describes a text that it refuses.
pub uninterp spec fn i32_complaint(s: Seq<char>) -> Seq<char>;

/// Calls `str::parse::<i32>`. Claimed of it: it accepts an optional sign and
/// decimal digits whose value fits, and returns that value. What it says of
/// a text that it refuses depends on the text alone; the words are left
/// unsaid.
#[verifier::external_body]
pub(crate) fn parse_i32(s: &str) -> (number: Result<i32, String>)
    ensures
        match number {
            Ok(n) => integer(s@) == Some(n as int),
            Err(complaint) => {
                &&& !(integer(s@) matches Some(n) && i32::MIN <= n <= i32::MAX)
                &&& complaint@ == i32_complaint(s@)
            },
        },
{
    s.parse::<i32>().map_err(|e| e.to_string())
}

/// Calls `str::parse::<i64>`. Claimed of it: it accepts an optional sign and
/// decimal digits whose value fits, and returns that value.
#[verifier::external_body]
pub(crate) fn parse_i64(s: &str) -> (number: Option<i64>)
    ensures
        match number {
            Some(n) => integer(s@) == Some(n as int),
            None => !(integer(s@) matches Some(n) && i64::MIN <= n <= i64::MAX),
        },
{
    s.parse::<i64>().ok()
}

/// Calls `str::parse::<usize>`. Claimed of it: it accepts an optional plus
/// sign and decimal digits whose value fits, and returns that value.
#[verifier::external_body]
pub(crate) fn parse_usize(s: &str) -> (number: Option<usize>)
    ensures
        match number {
            Some(n) => natural(s@) == Some(n as nat),
            None => !(natural(s@) matches Some(n) && n <= usize::MAX),
        },
{
    s.parse::<usize>().ok()
}

} // verus!
