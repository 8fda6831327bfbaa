//! Decimal numerals: what a text means as a number, and how a number is
//! written.

use crate::search::first_index;
use crate::search::lemma_first_index;
use vstd::prelude::*;

verus! {

/// True where `c` is one of the digits `0` to `9`.
pub open spec fn is_digit(c: char) -> bool {
    48 <= c as int <= 57
}

/// True where `s` is made of digits only.
pub open spec fn all_digits(s: Seq<char>) -> bool {
    forall|i: int| 0 <= i < s.len() ==> is_digit(#[trigger] s[i])
}

/// The number that a sequence of digits denotes in base ten.
pub open spec fn digits_value(s: Seq<char>) -> int
    decreases s.len(),
{
    if s.len() == 0 {
        0
    } else {
        digits_value(s.drop_last()) * 10 + (s.last() as int - 48)
    }
}

/// The number that a numeral denotes: an optional sign, `+` or, where
/// `signed`, `-`, and then at least one digit and nothing else.
pub open spec fn numeral_value(s: Seq<char>, signed: bool) -> Option<int> {
    let negative = signed && s.len() > 0 && s[0] == '-';
    let digits = if s.len() > 0 && (s[0] == '+' || negative) {
        s.skip(1)
    } else {
        s
    };
    if digits.len() == 0 || !all_digits(digits) {
        None
    } else if negative {
        Some(-digits_value(digits))
    } else {
        Some(digits_value(digits))
    }
}

/// What a text denotes as a signed 64-bit number, if it is a numeral in range.
pub open spec fn i64_of_text(s: Seq<char>) -> Option<i64> {
    match numeral_value(s, true) {
        Some(v) => if i64::MIN <= v <= i64::MAX {
            Some(v as i64)
        } else {
            None
        },
        None => None,
    }
}

/// What a text denotes as an unsigned 32-bit number, if it is a numeral in
/// range.
pub open spec fn u32_of_text(s: Seq<char>) -> Option<u32> {
    match numeral_value(s, false) {
        Some(v) => if v <= u32::MAX {
            Some(v as u32)
        } else {
            None
        },
        None => None,
    }
}

/// What a text denotes as an unsigned 16-bit number, if it is a numeral in
/// range.
pub open spec fn u16_of_text(s: Seq<char>) -> Option<u16> {
    match numeral_value(s, false) {
        Some(v) => if v <= u16::MAX {
            Some(v as u16)
        } else {
            None
        },
        None => None,
    }
}

/// The digits of a natural number in base ten, without leading zeros.
pub open spec fn nat_text(n: nat) -> Seq<char>
    decreases n,
{
    if n < 10 {
        seq![(48 + n) as char]
    } else {
        nat_text(n / 10).push((48 + n % 10) as char)
    }
}

/// An integer written in base ten, with `-` in front where it is negative.
pub open spec fn int_text(v: int) -> Seq<char> {
    if v < 0 {
        seq!['-'] + nat_text((-v) as nat)
    } else {
        nat_text(v as nat)
    }
}

/// Calls `str::parse::<i64>` of std. Trusted: the text is read as std
/// documents it, an optional sign followed by digits only, and anything else,
/// or a value out of range, gives nothing.
#[verifier::external_body]
pub(crate) fn parse_i64(s: &str) -> (r: Option<i64>)
    ensures
        r == i64_of_text(s@),
{
    s.parse::<i64>().ok()
}

/// Calls `str::parse::<u32>` of std. Trusted: the text is read as std
/// documents it, an optional `+` followed by digits only, and anything else,
/// or a value out of range, gives nothing.
#[verifier::external_body]
pub(crate) fn parse_u32(s: &str) -> (r: Option<u32>)
    ensures
        r == u32_of_text(s@),
{
    s.parse::<u32>().ok()
}

/// Calls `str::parse::<u16>` of std. Trusted: the text is read as std
/// documents it, an optional `+` followed by digits only, and anything else,
/// or a value out of range, gives nothing.
#[verifier::external_body]
pub(crate) fn parse_u16(s: &str) -> (r: Option<u16>)
    ensures
        r == u16_of_text(s@),
{
    s.parse::<u16>().ok()
}

/// Calls `i64::to_string` of std. Trusted: the result is the number in base
/// ten, with `-` in front where it is negative.
#[verifier::external_body]
pub(crate) fn i64_to_text(v: i64) -> (r: String)
    ensures
        r@ == int_text(v as int),
{
    v.to_string()
}

/// Calls `u16::to_string` of std. Trusted: the result is the number in base
/// ten.
#[verifier::external_body]
pub(crate) fn u16_to_text(v: u16) -> (r: String)
    ensures
        r@ == int_text(v as int),
{
    v.to_string()
}

/// Tells whether two texts are the same.
pub fn same_text(a: &str, b: &str) -> (r: bool)
    ensures
        r == (a@ == b@),
{
    a.to_owned() == b.to_owned()
}

/// Finds the first `.` of a text.
pub fn dot_position(s: &str) -> (r: Option<usize>)
    ensures
        match r {
            Some(i) => i < s@.len() && first_dot(s@) == Some(i as int),
            None => first_dot(s@) is None,
        },
{
    let n = s.unicode_len();
    let mut i: usize = 0;
    while i < n
        invariant
            i <= n,
            n == s@.len(),
            forall|j: int| 0 <= j < i ==> (#[trigger] s@[j]) != '.',
        decreases n - i,
    {
        if s.get_char(i) == '.' {
            proof {
                lemma_first_index(s@, |c: char| c == '.');
            }
            return Some(i);
        }
        i += 1;
    }
    proof {
        lemma_first_index(s@, |c: char| c == '.');
    }
    None
}

/// The position of the first `.` of a text, if it has one.
pub open spec fn first_dot(s: Seq<char>) -> Option<int> {
    first_index(s, |c: char| c == '.')
}

} // verus!
