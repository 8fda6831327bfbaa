//! Monetary amounts: a whole part and the digits that followed the decimal
//! point, kept as they were written.

use crate::numeral::dot_position;
use crate::numeral::first_dot;
use crate::numeral::i64_of_text;
use crate::numeral::i64_to_text;
use crate::numeral::int_text;
use crate::numeral::parse_i64;
use crate::numeral::parse_u16;
use crate::numeral::u16_of_text;
use crate::numeral::u16_to_text;
use core::cmp::Ordering;
use vstd::prelude::*;
use vstd::std_specs::cmp::PartialOrdSpecImpl;
use vstd::std_specs::convert::FromSpecImpl;
use vstd::std_specs::ops::AddSpecImpl;
use vstd::std_specs::ops::SubSpecImpl;
use vstd::wrapping::i64_specs;

verus! {

/// The scale at which the fractional part carries into the whole part.
pub const AMOUNT_PRECISION_LIMITER: u16 = 10000;

/// An amount of money. `decimal` holds the digits after the decimal point read
/// as a number, so `1.5` and `1.50` are different amounts.
#[derive(Clone, Copy, Debug, PartialEq, Eq, Structural)]
pub struct Amount {
    pub whole: i64,
    pub decimal: u16,
}

impl Amount {
    /// The amount `0.0`.
    pub open spec fn zero() -> Amount {
        Amount { whole: 0, decimal: 0 }
    }

    /// Addition: the fractional parts are added, every full 10000 of that sum
    /// is carried into the whole part, and the whole part wraps at 64 bits.
    pub open spec fn plus(self, rhs: Amount) -> Amount {
        let fraction = self.decimal + rhs.decimal;
        Amount {
            whole: i64_specs::wrapping_add(
                i64_specs::wrapping_add(self.whole, rhs.whole),
                (fraction / 10000) as i64,
            ),
            decimal: (fraction % 10000) as u16,
        }
    }

    /// Subtraction: where the subtrahend's fractional part is the larger one,
    /// one is borrowed from the whole part and the fractional part is the
    /// difference taken the other way round. The whole part wraps at 64 bits.
    pub open spec fn minus(self, rhs: Amount) -> Amount {
        let whole = i64_specs::wrapping_sub(self.whole, rhs.whole);
        if rhs.decimal > self.decimal {
            Amount {
                whole: i64_specs::wrapping_sub(whole, 1),
                decimal: (rhs.decimal - self.decimal) as u16,
            }
        } else {
            Amount { whole, decimal: (self.decimal - rhs.decimal) as u16 }
        }
    }

    /// Strict order: by whole part, then by fractional part.
    pub open spec fn precedes(self, other: Amount) -> bool {
        self.whole < other.whole || (self.whole == other.whole && self.decimal < other.decimal)
    }

    /// True where the amount is not below `0.0`.
    pub open spec fn non_negative(self) -> bool {
        !self.precedes(Amount::zero())
    }

    /// A fractional part as it was read, divided by ten until it is below
    /// 10000.
    pub open spec fn clamped(d: u16) -> u16
        decreases d,
    {
        if d >= 10000 {
            Amount::clamped(d / 10)
        } else {
            d
        }
    }

    /// The whole part that a text gives: its number, or 0 where it is no
    /// numeral or is out of range.
    pub open spec fn whole_of(s: Seq<char>) -> i64 {
        match i64_of_text(s) {
            Some(v) => v,
            None => 0,
        }
    }

    /// The fractional part that a text gives: its number, clamped, or 0 where
    /// it is no numeral or is out of range.
    pub open spec fn fraction_of(s: Seq<char>) -> u16 {
        match u16_of_text(s) {
            Some(v) => Amount::clamped(v),
            None => 0,
        }
    }

    /// The amount that a text denotes. Without a `.` the whole text is the
    /// whole part. With one, the whole part is what stands before the first
    /// `.`, and the fractional part is what stands between it and the next
    /// `.`, or the end of the text.
    pub open spec fn of_text(s: Seq<char>) -> Amount {
        match first_dot(s) {
            None => Amount { whole: Amount::whole_of(s), decimal: 0 },
            Some(i) => {
                let rest = s.subrange(i + 1, s.len() as int);
                let fraction = match first_dot(rest) {
                    Some(j) => rest.subrange(0, j),
                    None => rest,
                };
                Amount {
                    whole: Amount::whole_of(s.subrange(0, i)),
                    decimal: Amount::fraction_of(fraction),
                }
            },
        }
    }

    /// The amount as text: the whole part, a `.`, and the fractional part
    /// with no zeros put in front.
    pub open spec fn text_of(self) -> Seq<char> {
        int_text(self.whole as int) + seq!['.'] + int_text(self.decimal as int)
    }

    /// Divides a fractional part by ten until it is below 10000.
    pub fn clamp_fraction(d: u16) -> (r: u16)
        ensures
            r == Amount::clamped(d),
            r < 10000,
    {
        let mut rest: u16 = d;
        while rest >= 10000
            invariant
                Amount::clamped(rest) == Amount::clamped(d),
            decreases rest,
        {
            rest = rest / 10;
        }
        rest
    }

    /// Writes the amount as text.
    pub fn text(&self) -> (r: String)
        ensures
            r@ == self.text_of(),
    {
        let mut out = i64_to_text(self.whole);
        let fraction = u16_to_text(self.decimal);
        proof {
            reveal_strlit(".");
            assert("."@ == seq!['.']);
        }
        out.append(".");
        out.append(fraction.as_str());
        out
    }
}

impl<'a> From<&'a str> for Amount {
    fn from(value: &'a str) -> (r: Amount) {
        let n = value.unicode_len();
        match dot_position(value) {
            None => Amount {
                whole: match parse_i64(value) {
                    Some(v) => v,
                    None => 0,
                },
                decimal: 0,
            },
            Some(i) => {
                let head = value.substring_char(0, i);
                let rest = value.substring_char(i + 1, n);
                let fraction = match dot_position(rest) {
                    Some(j) => rest.substring_char(0, j),
                    None => rest,
                };
                Amount {
                    whole: match parse_i64(head) {
                        Some(v) => v,
                        None => 0,
                    },
                    decimal: match parse_u16(fraction) {
                        Some(v) => Amount::clamp_fraction(v),
                        None => 0,
                    },
                }
            },
        }
    }
}

impl<'a> FromSpecImpl<&'a str> for Amount {
    open spec fn obeys_from_spec() -> bool {
        true
    }

    open spec fn from_spec(value: &'a str) -> Amount {
        Amount::of_text(value@)
    }
}

impl Default for Amount {
    fn default() -> (r: Amount)
        ensures
            r == Amount::zero(),
    {
        Amount { whole: 0, decimal: 0 }
    }
}

impl From<i64> for Amount {
    fn from(value: i64) -> (r: Amount) {
        Amount { whole: value, decimal: 0 }
    }
}

impl FromSpecImpl<i64> for Amount {
    open spec fn obeys_from_spec() -> bool {
        true
    }

    open spec fn from_spec(value: i64) -> Amount {
        Amount { whole: value, decimal: 0 }
    }
}

impl std::ops::Add for Amount {
    type Output = Amount;

    fn add(self, rhs: Amount) -> (r: Amount) {
        let fraction: u32 = self.decimal as u32 + rhs.decimal as u32;
        let carry: u32 = fraction / 10000;
        let rest: u32 = fraction % 10000;
        Amount {
            whole: self.whole.wrapping_add(rhs.whole).wrapping_add(carry as i64),
            decimal: rest as u16,
        }
    }
}

impl AddSpecImpl for Amount {
    open spec fn obeys_add_spec() -> bool {
        true
    }

    open spec fn add_req(self, rhs: Amount) -> bool {
        true
    }

    open spec fn add_spec(self, rhs: Amount) -> Amount {
        self.plus(rhs)
    }
}

impl std::ops::Sub for Amount {
    type Output = Amount;

    fn sub(self, rhs: Amount) -> (r: Amount) {
        let whole: i64 = self.whole.wrapping_sub(rhs.whole);
        if rhs.decimal > self.decimal {
            Amount { whole: whole.wrapping_sub(1), decimal: rhs.decimal - self.decimal }
        } else {
            Amount { whole, decimal: self.decimal - rhs.decimal }
        }
    }
}

impl SubSpecImpl for Amount {
    open spec fn obeys_sub_spec() -> bool {
        true
    }

    open spec fn sub_req(self, rhs: Amount) -> bool {
        true
    }

    open spec fn sub_spec(self, rhs: Amount) -> Amount {
        self.minus(rhs)
    }
}

impl PartialOrd for Amount {
    fn partial_cmp(&self, other: &Amount) -> (r: Option<Ordering>) {
        if self.whole == other.whole && self.decimal == other.decimal {
            Some(Ordering::Equal)
        } else if self.whole < other.whole || (self.whole == other.whole && self.decimal
            < other.decimal) {
            Some(Ordering::Less)
        } else {
            Some(Ordering::Greater)
        }
    }
}

impl PartialOrdSpecImpl for Amount {
    open spec fn obeys_partial_cmp_spec() -> bool {
        true
    }

    open spec fn partial_cmp_spec(&self, other: &Amount) -> Option<Ordering> {
        if *self == *other {
            Some(Ordering::Equal)
        } else if self.precedes(*other) {
            Some(Ordering::Less)
        } else {
            Some(Ordering::Greater)
        }
    }
}

} // verus!
