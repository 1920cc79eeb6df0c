//! Laws of decimal numerals.

use crate::decimal::{all_digits, decimal, digits_value, is_digit, lemma_decimal, parsed_usize, signed_decimal};
use vstd::prelude::*;

verus! {

/// The numeral of a number below ten is its digit, and another digit at the end of a
/// numeral makes ten times the number and the digit.
pub proof fn law_numerals_grow_by_digits(n: nat, d: nat)
    requires
        d < 10,
    ensures
        decimal(d) == seq![('0' as u32 + d) as char],
        n > 0 ==> decimal(10 * n + d) == decimal(n).push(('0' as u32 + d) as char),
{
    if n > 0 {
        assert((10 * n + d) / 10 == n);
        assert((10 * n + d) % 10 == d);
    }
}

/// A negative number is written after a minus sign, any other like a natural number.
pub proof fn law_minus_sign_stands_before_negative_numbers(n: nat)
    ensures
        signed_decimal(n as int) == decimal(n),
        n > 0 ==> signed_decimal(-(n as int)) == seq!['-'] + decimal(n),
{
}

/// A numeral is read digit by digit: a digit alone is its number, and one more digit
/// makes ten times the number and the digit, where that still fits.
pub proof fn law_numerals_are_read_digit_by_digit(digits: Seq<char>, d: char)
    requires
        digits.len() > 0,
        forall|i: int| 0 <= i < digits.len() ==> '0' <= #[trigger] digits[i] <= '9',
        '0' <= d <= '9',
    ensures
        parsed_usize(seq![d]) == Some((d as u32 - '0' as u32) as usize),
        parsed_usize(digits.push(d)) == (match parsed_usize(digits) {
            Some(v) => if 10 * v + (d as u32 - '0' as u32) <= usize::MAX {
                Some((10 * v + (d as u32 - '0' as u32)) as usize)
            } else {
                None
            },
            None => None,
        }),
{
    let one = seq![d];
    assert(one.drop_last() =~= Seq::<char>::empty());
    assert(digits_value(one.drop_last()) == 0);
    assert(all_digits(one));
    let more = digits.push(d);
    assert(more.drop_last() =~= digits);
    assert(is_digit(digits[0]));
    assert(more[0] == digits[0]);
    assert forall|i: int| 0 <= i < digits.len() implies is_digit(#[trigger] digits[i]) by {
        assert('0' <= digits[i] <= '9');
    }
    assert(all_digits(digits));
    assert forall|i: int| 0 <= i < more.len() implies is_digit(#[trigger] more[i]) by {
        if i < digits.len() {
            assert(is_digit(digits[i]));
        }
    }
    assert(all_digits(more));
    assert(digits_value(more) == 10 * digits_value(digits) + (d as u32 - '0' as u32));
}

/// A plus sign before a numeral makes no difference.
pub proof fn law_plus_sign_makes_no_difference(digits: Seq<char>)
    requires
        digits.len() > 0 ==> digits[0] != '+',
    ensures
        parsed_usize(seq!['+'] + digits) == parsed_usize(digits),
{
    assert((seq!['+'] + digits).drop_first() =~= digits);
}

/// Nothing but digits is read, apart from a plus sign at the start, and at least one
/// digit must be there.
pub proof fn law_only_digits_are_read(s: Seq<char>, i: int)
    requires
        0 <= i < s.len(),
        !('0' <= s[i] <= '9'),
        i > 0 || s[0] != '+',
    ensures
        parsed_usize(s) is None,
        parsed_usize(Seq::empty()) is None,
        parsed_usize(seq!['+']) is None,
{
    assert(!is_digit(s[i]));
    if s[0] == '+' {
        assert(s.drop_first()[i - 1] == s[i]);
    }
    assert(seq!['+'].drop_first().len() == 0);
}

/// A numeral is read as the number that it was written for.
pub proof fn law_numerals_are_read_back(n: usize)
    ensures
        parsed_usize(decimal(n as nat)) == Some(n),
        parsed_usize(seq!['+'] + decimal(n as nat)) == Some(n),
{
    lemma_decimal(n as nat);
    assert(is_digit(decimal(n as nat)[0]));
    law_plus_sign_makes_no_difference(decimal(n as nat));
}

} // verus!
