//! The mixed-case checksum of an address (EIP-55): the forty lowercase hex
//! digits are hashed as text, and a letter is written in upper case exactly
//! where the digest's hex digit at the same place is eight or more.

use vstd::prelude::*;
use vstd::string::*;

use crate::ascii::{
    ascii_text, is_decimal_digit, CH_0, CH_9, CH_LOWER_A, CH_LOWER_F, CH_LOWER_X, CH_LOWER_Z,
    CH_UPPER_A, CH_UPPER_F, CH_UPPER_Z,
};
use crate::hexcode::{hex_encoded, is_hex_digit, nibble};
use crate::keccak::{keccak256, keccak256_digest};

verus! {

/// The lowercase form of an ASCII letter; any other byte is kept.
pub open spec fn lower_byte(b: u8) -> u8 {
    if CH_UPPER_A <= b <= CH_UPPER_Z {
        (b + 32) as u8
    } else {
        b
    }
}

/// The uppercase form of an ASCII letter; any other byte is kept.
pub open spec fn upper_byte(b: u8) -> u8 {
    if CH_LOWER_A <= b <= CH_LOWER_Z {
        (b - 32) as u8
    } else {
        b
    }
}

/// The text with each ASCII letter in lower case.
pub open spec fn lowercase(text: Seq<u8>) -> Seq<u8> {
    Seq::new(text.len(), |i: int| lower_byte(text[i]))
}

/// The text begins with `0x`.
pub open spec fn has_0x(text: Seq<u8>) -> bool {
    text.len() >= 2 && text[0] == CH_0 && text[1] == CH_LOWER_X
}

/// The text without a leading `0x`, if it has one.
pub open spec fn without_0x(text: Seq<u8>) -> Seq<u8> {
    if has_0x(text) {
        text.skip(2)
    } else {
        text
    }
}

/// The text is an address: forty hex digits of either case, after `0x` or bare.
pub open spec fn is_address_text(text: Seq<u8>) -> bool {
    let digits = without_0x(text);
    &&& digits.len() == 40
    &&& forall|i: int| 0 <= i < 40 ==> is_hex_digit(#[trigger] digits[i])
}

/// One character of a checksummed address: a decimal digit is kept, a letter
/// is raised where the digest's digit is eight or more.
pub open spec fn checksum_char(c: u8, digest_nibble: int) -> u8 {
    if is_decimal_digit(c) {
        c
    } else if digest_nibble >= 8 {
        upper_byte(c)
    } else {
        c
    }
}

/// `0x` and the characters of `lower`, each cased by the digit of `digest` at its place.
pub open spec fn checksummed(lower: Seq<u8>, digest: Seq<u8>) -> Seq<u8> {
    seq![CH_0, CH_LOWER_X] + Seq::new(
        lower.len(),
        |i: int| checksum_char(lower[i], nibble(digest, i)),
    )
}

/// The checksummed form of an address text: the digest is that of the
/// lowercase digits, taken as ASCII text.
pub open spec fn checksum_text(text: Seq<u8>) -> Seq<u8> {
    let lower = lowercase(without_0x(text));
    checksummed(lower, keccak256_digest(lower))
}

/// Tells whether a text is an address: forty hex digits of either case,
/// after `0x` or bare.
pub fn is_address(text: &str) -> (yes: bool)
    ensures
        yes == is_address_text(text.spec_bytes()),
{
    let bytes = text.as_bytes();
    let n: usize = bytes.len();
    let start: usize = if n >= 2 && bytes[0] == CH_0 && bytes[1] == CH_LOWER_X {
        2
    } else {
        0
    };
    let ghost digits = without_0x(bytes@);
    assert(digits =~= bytes@.skip(start as int));
    if n - start != 40 {
        return false;
    }
    let mut i: usize = 0;
    while i < 40
        invariant
            i <= 40,
            start + 40 == n == bytes@.len(),
            digits == bytes@.skip(start as int),
            digits == without_0x(text.spec_bytes()),
            forall|k: int| 0 <= k < i ==> is_hex_digit(#[trigger] digits[k]),
        decreases 40 - i,
    {
        let c: u8 = bytes[start + i];
        if !((CH_0 <= c && c <= CH_9) || (CH_LOWER_A <= c && c <= CH_LOWER_F) || (CH_UPPER_A <= c
            && c <= CH_UPPER_F)) {
            assert(!is_hex_digit(digits[i as int]));
            return false;
        }
        i += 1;
    }
    true
}

/// Writes `lower` after `0x`, each letter cased by the hex digit of `digest` at its place.
pub fn apply_checksum(lower: &[u8], digest: &[u8; 32]) -> (text: String)
    requires
        lower@.len() <= 64,
    ensures
        text@ == ascii_text(checksummed(lower@, digest@)),
{
    let mut text = String::new();
    text.push('0');
    text.push('x');
    let mut i: usize = 0;
    while i < lower.len()
        invariant
            i <= lower@.len() <= 64,
            text@.len() == 2 + i,
            text@[0] == '0',
            text@[1] == 'x',
            forall|k: int|
                0 <= k < i ==> text@[2 + k] == checksum_char(
                    lower@[k],
                    nibble(digest@, k),
                ) as char,
        decreases lower@.len() - i,
    {
        let c: u8 = lower[i];
        let byte: u8 = digest[i / 2];
        let digest_nibble: u8 = if i % 2 == 0 {
            byte / 16
        } else {
            byte % 16
        };
        let out: u8 = if CH_0 <= c && c <= CH_9 {
            c
        } else if digest_nibble >= 8 && CH_LOWER_A <= c && c <= CH_LOWER_Z {
            c - 32
        } else {
            c
        };
        text.push(out as char);
        i += 1;
    }
    assert(text@ =~= ascii_text(checksummed(lower@, digest@)));
    text
}

/// The checksummed form of an address given as text, with or without `0x`,
/// in either case.
pub fn to_checksum_address(address: &str) -> (text: String)
    requires
        is_address_text(address.spec_bytes()),
    ensures
        text@ == ascii_text(checksum_text(address.spec_bytes())),
{
    let bytes = address.as_bytes();
    let n: usize = bytes.len();
    let start: usize = if n >= 2 && bytes[0] == CH_0 && bytes[1] == CH_LOWER_X {
        2
    } else {
        0
    };
    let ghost digits = without_0x(bytes@);
    assert(digits =~= bytes@.skip(start as int));
    let mut lower: Vec<u8> = Vec::with_capacity(40);
    let mut i: usize = start;
    while i < n
        invariant
            start <= i <= n,
            n == bytes@.len(),
            digits == bytes@.skip(start as int),
            lower@.len() == i - start,
            forall|k: int| 0 <= k < i - start ==> lower@[k] == lower_byte(digits[k]),
        decreases n - i,
    {
        let b: u8 = bytes[i];
        let l: u8 = if CH_UPPER_A <= b && b <= CH_UPPER_Z {
            b + 32
        } else {
            b
        };
        lower.push(l);
        i += 1;
    }
    assert(lower@ =~= lowercase(digits));
    let digest = keccak256(lower.as_slice());
    apply_checksum(lower.as_slice(), &digest)
}

/// The lowercase of a checksummed character is the lowercase character it was made from.
pub proof fn lemma_lower_of_checksum_char(c: u8, digest_nibble: int)
    requires
        is_hex_digit(c),
    ensures
        is_hex_digit(checksum_char(lower_byte(c), digest_nibble)),
        lower_byte(checksum_char(lower_byte(c), digest_nibble)) == lower_byte(c),
{
}

/// Checksumming is idempotent: the checksummed form of an address text is an
/// address text, and checksumming it again gives the same text.
pub proof fn law_checksum_idempotent(text: Seq<u8>)
    requires
        is_address_text(text),
    ensures
        is_address_text(checksum_text(text)),
        checksum_text(checksum_text(text)) == checksum_text(text),
{
    let lower = lowercase(without_0x(text));
    let once = checksum_text(text);
    assert(has_0x(once));
    let digits = without_0x(once);
    assert(digits =~= once.skip(2));
    assert forall|i: int| 0 <= i < 40 implies is_hex_digit(#[trigger] digits[i]) && lower_byte(
        digits[i],
    ) == lower[i] by {
        lemma_lower_of_checksum_char(without_0x(text)[i], nibble(keccak256_digest(lower), i));
    }
    assert(lowercase(digits) =~= lower);
}

/// Checksumming the lowercase hex form of any twenty bytes twice gives the
/// same text as checksumming it once.
pub proof fn law_checksum_round_trip(address: Seq<u8>)
    requires
        address.len() == 20,
    ensures
        is_address_text(hex_encoded(address)),
        checksum_text(checksum_text(hex_encoded(address))) == checksum_text(hex_encoded(address)),
{
    let text = hex_encoded(address);
    assert(!has_0x(text)) by {
        assert(text[1] != CH_LOWER_X);
    }
    assert forall|i: int| 0 <= i < 40 implies is_hex_digit(#[trigger] text[i]) by {}
    law_checksum_idempotent(text);
}

} // verus!
