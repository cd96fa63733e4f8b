//! Whole numbers written out in decimal.

use vstd::prelude::*;
use vstd::utf8::{encode_utf8, valid_utf8};

verus! {

/// Calls `core::str::from_utf8`, which hands the bytes back as text where
/// they are well-formed UTF-8 and refuses them where they are not. The
/// contract says so and no more; it is believed, not proved.
#[verifier::external_body]
pub(crate) fn utf8_text(bytes: &[u8]) -> (r: Option<&str>)
    ensures
        match r {
            Some(text) => encode_utf8(text@) == bytes@,
            None => !valid_utf8(bytes@),
        },
{
    match core::str::from_utf8(bytes) {
        Ok(text) => Some(text),
        Err(_) => None,
    }
}

/// The character of one decimal digit.
pub open spec fn digit_char(d: nat) -> char
    recommends
        d < 10,
{
    (48 + d) as u8 as char
}

/// The decimal digits of a natural number, without leading zeros.
pub open spec fn nat_text(n: nat) -> Seq<char>
    decreases n,
{
    if n < 10 {
        seq![digit_char(n)]
    } else {
        nat_text(n / 10).push(digit_char(n % 10))
    }
}

/// A whole number in decimal, with a minus sign where it is negative.
pub open spec fn int_text(n: int) -> Seq<char> {
    if n < 0 {
        seq!['-'] + nat_text((-n) as nat)
    } else {
        nat_text(n as nat)
    }
}

/// The text of one digit.
fn digit_str(d: u64) -> (s: &'static str)
    requires
        d < 10,
    ensures
        s@ == seq![digit_char(d as nat)],
{
    proof {
        reveal_strlit("0");
        reveal_strlit("1");
        reveal_strlit("2");
        reveal_strlit("3");
        reveal_strlit("4");
        reveal_strlit("5");
        reveal_strlit("6");
        reveal_strlit("7");
        reveal_strlit("8");
        reveal_strlit("9");
    }
    let s: &'static str = if d == 0 {
        "0"
    } else if d == 1 {
        "1"
    } else if d == 2 {
        "2"
    } else if d == 3 {
        "3"
    } else if d == 4 {
        "4"
    } else if d == 5 {
        "5"
    } else if d == 6 {
        "6"
    } else if d == 7 {
        "7"
    } else if d == 8 {
        "8"
    } else {
        "9"
    };
    assert(s@ =~= seq![digit_char(d as nat)]);
    s
}

/// Writes a natural number in decimal.
pub fn format_nat(n: u64) -> (s: String)
    ensures
        s@ == nat_text(n as nat),
    decreases n,
{
    if n < 10 {
        String::from_str(digit_str(n))
    } else {
        let s: String = format_nat(n / 10).concat(digit_str(n % 10));
        assert(s@ =~= nat_text(n as nat));
        s
    }
}

/// Writes a whole number in decimal.
pub fn format_int(n: i64) -> (s: String)
    ensures
        s@ == int_text(n as int),
{
    if n < 0 {
        let magnitude: u64 = if n == i64::MIN {
            9223372036854775808
        } else {
            (-n) as u64
        };
        proof {
            reveal_strlit("-");
        }
        let digits: String = format_nat(magnitude);
        let s: String = String::from_str("-").concat(digits.as_str());
        assert(s@ =~= int_text(n as int));
        s
    } else {
        format_nat(n as u64)
    }
}

} // verus!
