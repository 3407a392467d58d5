//! Hexadecimal text: what a hex digit is worth, and the encoding and decoding
//! of bytes, which the `hex` crate carries out.

use vstd::prelude::*;
use vstd::string::*;

use crate::ascii::{ascii_text, CH_0, CH_9, CH_LOWER_A, CH_LOWER_F, CH_UPPER_A, CH_UPPER_F};

verus! {

/// `hex::FromHexError`, the error of `hex::decode`. Nothing is read from it:
/// a text that is refused is refused whatever the reason.
#[verifier::external_type_specification]
#[verifier::external_body]
pub struct ExFromHexError(hex::FromHexError);

/// `b` is one of `0..9`, `a..f`, `A..F`.
pub open spec fn is_hex_digit(b: u8) -> bool {
    (CH_0 <= b <= CH_9) || (CH_LOWER_A <= b <= CH_LOWER_F) || (CH_UPPER_A <= b <= CH_UPPER_F)
}

/// The number that the hex digit `b` stands for.
pub open spec fn hex_value(b: u8) -> int {
    if CH_0 <= b <= CH_9 {
        b - CH_0
    } else if CH_LOWER_A <= b <= CH_LOWER_F {
        b - CH_LOWER_A + 10
    } else {
        b - CH_UPPER_A + 10
    }
}

/// The lowercase hex digit for a number below sixteen.
pub open spec fn lower_hex_digit(n: int) -> u8 {
    if n < 10 {
        (CH_0 + n) as u8
    } else {
        (CH_LOWER_A + n - 10) as u8
    }
}

/// The text is an even number of hex digits.
pub open spec fn is_hex_text(text: Seq<u8>) -> bool {
    &&& text.len() % 2 == 0
    &&& forall|i: int| 0 <= i < text.len() ==> is_hex_digit(#[trigger] text[i])
}

/// The bytes that a hex text stands for, two digits to a byte.
pub open spec fn hex_decoded(text: Seq<u8>) -> Seq<u8> {
    Seq::new(
        text.len() / 2,
        |i: int| (16 * hex_value(text[2 * i]) + hex_value(text[2 * i + 1])) as u8,
    )
}

/// The `i`-th hex digit of `bytes`, as a number: the high half of a byte comes first.
pub open spec fn nibble(bytes: Seq<u8>, i: int) -> int {
    if i % 2 == 0 {
        bytes[i / 2] as int / 16
    } else {
        bytes[i / 2] as int % 16
    }
}

/// The lowercase hex text of `data`, two digits to a byte.
pub open spec fn hex_encoded(data: Seq<u8>) -> Seq<u8> {
    Seq::new(2 * data.len(), |i: int| lower_hex_digit(nibble(data, i)))
}

/// `hex::decode`: succeeds exactly on an even number of hex digits of either
/// case, and then gives the byte that each pair of digits stands for.
#[verifier::external_body]
pub(crate) fn hex_decode(text: &[u8]) -> (res: Result<Vec<u8>, hex::FromHexError>)
    ensures
        res is Ok <==> is_hex_text(text@),
        res matches Ok(bytes) ==> bytes@ == hex_decoded(text@),
{
    hex::decode(text)
}

/// `hex::encode`: two lowercase hex digits for each byte, high digit first.
#[verifier::external_body]
pub(crate) fn hex_encode(data: &[u8]) -> (text: String)
    ensures
        text@ == ascii_text(hex_encoded(data@)),
{
    hex::encode(data)
}

} // verus!
