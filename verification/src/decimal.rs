//! Decimal numbers as text: the digits of a number, and the number that a
//! text of digits stands for.

use vstd::prelude::*;
use vstd::string::*;

use crate::ascii::{ascii_text, is_decimal_digit, CH_0, CH_9, CH_PLUS};

verus! {

/// The decimal digits of `n`, without leading zeros.
pub open spec fn decimal_digits(n: nat) -> Seq<u8>
    decreases n,
{
    if n < 10 {
        seq![(CH_0 + n) as u8]
    } else {
        decimal_digits(n / 10).push((CH_0 + n % 10) as u8)
    }
}

/// The number that a sequence of decimal digits stands for.
pub open spec fn decimal_value(digits: Seq<u8>) -> nat
    decreases digits.len(),
{
    if digits.len() == 0 {
        0
    } else {
        (10 * decimal_value(digits.drop_last()) + (digits.last() - CH_0)) as nat
    }
}

/// The text is one decimal digit or more, and nothing else.
pub open spec fn is_decimal(text: Seq<u8>) -> bool {
    &&& text.len() > 0
    &&& forall|i: int| 0 <= i < text.len() ==> is_decimal_digit(#[trigger] text[i])
}

/// The text without a leading `+`, if it has one.
pub open spec fn without_plus(text: Seq<u8>) -> Seq<u8> {
    if text.len() > 0 && text[0] == CH_PLUS {
        text.skip(1)
    } else {
        text
    }
}

/// The number that a text stands for, where it is decimal digits after an
/// optional `+` and the number is at most `max`.
pub open spec fn parsed_decimal(text: Seq<u8>, max: nat) -> Option<nat> {
    let digits = without_plus(text);
    if is_decimal(digits) && decimal_value(digits) <= max {
        Some(decimal_value(digits))
    } else {
        None
    }
}

/// The digits of a number are decimal digits, at least one of them.
pub proof fn lemma_decimal_digits_are_decimal(n: nat)
    ensures
        is_decimal(decimal_digits(n)),
    decreases n,
{
    if n >= 10 {
        lemma_decimal_digits_are_decimal(n / 10);
    }
}

/// The digits of a number stand for that number.
pub proof fn lemma_decimal_value_of_digits(n: nat)
    ensures
        decimal_value(decimal_digits(n)) == n,
    decreases n,
{
    if n < 10 {
        let digits = decimal_digits(n);
        assert(digits.drop_last() =~= Seq::<u8>::empty());
        assert(decimal_value(digits.drop_last()) == 0);
    } else {
        lemma_decimal_value_of_digits(n / 10);
        let digits = decimal_digits(n);
        assert(digits.drop_last() =~= decimal_digits(n / 10));
    }
}

/// Written out and read again, a number is itself, if it is within the bound.
pub proof fn law_decimal_round_trip(n: nat, max: nat)
    requires
        n <= max,
    ensures
        parsed_decimal(decimal_digits(n), max) == Some(n),
{
    lemma_decimal_digits_are_decimal(n);
    lemma_decimal_value_of_digits(n);
    let digits = decimal_digits(n);
    assert(digits[0] != CH_PLUS);
}

/// The value of the first digits of a text is at most the value of all of them.
pub proof fn lemma_decimal_value_grows(digits: Seq<u8>, k: int)
    requires
        0 <= k <= digits.len(),
        forall|i: int| 0 <= i < digits.len() ==> is_decimal_digit(#[trigger] digits[i]),
    ensures
        decimal_value(digits.take(k)) <= decimal_value(digits),
    decreases digits.len() - k,
{
    if k == digits.len() {
        assert(digits.take(k) =~= digits);
    } else {
        lemma_decimal_value_grows(digits, k + 1);
        let longer = digits.take(k + 1);
        assert(longer.drop_last() =~= digits.take(k));
    }
}

/// Reads a decimal number of at most `max` from a text: decimal digits after
/// an optional `+`. Anything else, and a number above `max`, is refused.
pub fn parse_decimal(text: &[u8], max: u64) -> (number: Option<u64>)
    ensures
        match number {
            Some(n) => parsed_decimal(text@, max as nat) == Some(n as nat),
            None => parsed_decimal(text@, max as nat) is None,
        },
{
    let n: usize = text.len();
    let start: usize = if n > 0 && text[0] == CH_PLUS {
        1
    } else {
        0
    };
    let ghost digits = without_plus(text@);
    assert(digits =~= text@.skip(start as int));
    if start == n {
        return None;
    }
    let mut value: u64 = 0;
    let mut i: usize = start;
    assert(digits.take(0) =~= Seq::<u8>::empty());
    while i < n
        invariant
            start <= i <= n,
            start < n,
            n == text@.len(),
            digits == text@.skip(start as int),
            digits == without_plus(text@),
            value <= max,
            value == decimal_value(digits.take(i - start)),
            forall|k: int| 0 <= k < i - start ==> is_decimal_digit(#[trigger] digits[k]),
        decreases n - i,
    {
        let c: u8 = text[i];
        if c < CH_0 || c > CH_9 {
            assert(!is_decimal_digit(digits[i - start]));
            return None;
        }
        let next: u128 = value as u128 * 10 + (c - CH_0) as u128;
        proof {
            let longer = digits.take(i - start + 1);
            assert(longer.drop_last() =~= digits.take(i - start));
            assert(decimal_value(longer) == next);
        }
        if next > max as u128 {
            proof {
                if is_decimal(digits) {
                    lemma_decimal_value_grows(digits, i - start + 1);
                }
            }
            return None;
        }
        value = next as u64;
        i += 1;
    }
    assert(digits.take(n - start) =~= digits);
    Some(value)
}

/// Appends the decimal digits of `n` to a text.
pub fn push_decimal(text: &mut String, n: u64)
    ensures
        final(text)@ == old(text)@ + ascii_text(decimal_digits(n as nat)),
    decreases n,
{
    if n >= 10 {
        push_decimal(text, n / 10);
    }
    let digit: u8 = CH_0 + (n % 10) as u8;
    text.push(digit as char);
    proof {
        if n < 10 {
            assert(final(text)@ =~= old(text)@ + ascii_text(decimal_digits(n as nat)));
        } else {
            assert(ascii_text(decimal_digits(n as nat)) =~= ascii_text(
                decimal_digits((n / 10) as nat),
            ).push(digit as char));
            assert(final(text)@ =~= old(text)@ + ascii_text(decimal_digits(n as nat)));
        }
    }
}

} // verus!
