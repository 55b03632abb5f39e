//! Decimal text for the plain numeric wrappers. Inside composite
//! identifiers a byte is shown as two hex digits; a bare shard number,
//! count or stripe size is shown as an ordinary decimal number.
use vstd::prelude::*;

use crate::hexcode::{hex_digit_char, hex_digit_str};

verus! {

/// The decimal text of a number: its digits, highest first, with no sign,
/// no padding, and a single zero for zero.
pub open spec fn decimal_of(n: nat) -> Seq<char>
    decreases n,
{
    if n < 10 {
        seq![hex_digit_char(n as u8)]
    } else {
        decimal_of(n / 10).push(hex_digit_char((n % 10) as u8))
    }
}

/// The digits of `d` read back to front, as characters.
spec fn rev_digit_chars(d: Seq<u8>) -> Seq<char> {
    Seq::new(d.len(), |i: int| hex_digit_char(d[d.len() - 1 - i]))
}

/// The decimal text of `n`.
pub fn decimal_string_of_u32(n: u32) -> (r: String)
    ensures
        r@ == decimal_of(n as nat),
{
    let mut digits: Vec<u8> = Vec::new();
    digits.push((n % 10) as u8);
    let mut m: u32 = n / 10;
    proof {
        if n < 10 {
            assert(rev_digit_chars(digits@) =~= seq![hex_digit_char((n % 10) as u8)]);
        } else {
            assert(decimal_of(n as nat) =~= decimal_of(m as nat) + rev_digit_chars(digits@));
        }
    }
    while m > 0
        invariant
            digits@.len() >= 1,
            forall|j: int| 0 <= j < digits@.len() ==> digits@[j] < 10,
            m == 0 ==> decimal_of(n as nat) == rev_digit_chars(digits@),
            m > 0 ==> decimal_of(n as nat) == decimal_of(m as nat) + rev_digit_chars(digits@),
        decreases m,
    {
        let d: u8 = (m % 10) as u8;
        let ghost old_digits = digits@;
        digits.push(d);
        proof {
            assert(rev_digit_chars(digits@) =~= seq![hex_digit_char(d)] + rev_digit_chars(
                old_digits,
            ));
        }
        if m < 10 {
            proof {
                assert(decimal_of(m as nat) =~= seq![hex_digit_char(d)]);
                assert(decimal_of(n as nat) =~= rev_digit_chars(digits@));
            }
            m = 0;
        } else {
            proof {
                assert(decimal_of(m as nat) =~= decimal_of((m / 10) as nat) + seq![
                    hex_digit_char(d),
                ]);
                assert(decimal_of((m / 10) as nat) + rev_digit_chars(digits@) =~= decimal_of(
                    m as nat,
                ) + rev_digit_chars(old_digits));
            }
            m = m / 10;
        }
    }
    let mut out = String::new();
    let mut i: usize = digits.len();
    while i > 0
        invariant
            i <= digits@.len(),
            forall|j: int| 0 <= j < digits@.len() ==> digits@[j] < 10,
            out@ == rev_digit_chars(digits@).take(digits@.len() - i),
        decreases i,
    {
        i = i - 1;
        out.append(hex_digit_str(digits[i]));
        proof {
            assert(rev_digit_chars(digits@).take(digits@.len() - i) =~= rev_digit_chars(digits@)
                .take(digits@.len() - i - 1) + seq![hex_digit_char(digits@[i as int])]);
        }
    }
    proof {
        assert(rev_digit_chars(digits@).take(digits@.len() as int) =~= rev_digit_chars(digits@));
    }
    out
}

} // verus!
