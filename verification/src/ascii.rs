//! The ASCII characters that the text formats of this crate are made of, and
//! how bytes and the characters of a string stand for one another.

use vstd::prelude::*;
use vstd::utf8::{
    encode_utf8, encode_utf8_valid_utf8, is_ascii_chars, is_ascii_chars_encode_utf8, valid_utf8,
};

verus! {

/// `String::push` appends one character to the end of the string.
pub assume_specification[ String::push ](s: &mut String, c: char)
    ensures
        final(s)@ == old(s)@.push(c),
;

/// The character `0`.
pub const CH_0: u8 = 0x30;

/// The character `9`.
pub const CH_9: u8 = 0x39;

/// The character `A`.
pub const CH_UPPER_A: u8 = 0x41;

/// The character `F`.
pub const CH_UPPER_F: u8 = 0x46;

/// The character `G`.
pub const CH_UPPER_G: u8 = 0x47;

/// The character `P`.
pub const CH_UPPER_P: u8 = 0x50;

/// The character `U`.
pub const CH_UPPER_U: u8 = 0x55;

/// The character `Z`.
pub const CH_UPPER_Z: u8 = 0x5a;

/// The character `a`.
pub const CH_LOWER_A: u8 = 0x61;

/// The character `f`.
pub const CH_LOWER_F: u8 = 0x66;

/// The character `x`.
pub const CH_LOWER_X: u8 = 0x78;

/// The character `z`.
pub const CH_LOWER_Z: u8 = 0x7a;

/// The character `+`.
pub const CH_PLUS: u8 = 0x2b;

/// The comma.
pub const CH_COMMA: u8 = 0x2c;

/// The line feed.
pub const CH_NEWLINE: u8 = 0x0a;

/// The carriage return.
pub const CH_RETURN: u8 = 0x0d;

/// `b` is one of `0..9`.
pub open spec fn is_decimal_digit(b: u8) -> bool {
    CH_0 <= b <= CH_9
}

/// The characters whose code points are the given bytes.
pub open spec fn ascii_text(bytes: Seq<u8>) -> Seq<char> {
    Seq::new(bytes.len(), |i: int| bytes[i] as char)
}

/// Every byte is below 128.
pub open spec fn is_ascii_bytes(bytes: Seq<u8>) -> bool {
    forall|i: int| 0 <= i < bytes.len() ==> #[trigger] bytes[i] < 128
}

/// Every byte is a letter or a decimal digit.
pub open spec fn is_plain(bytes: Seq<u8>) -> bool {
    forall|i: int|
        0 <= i < bytes.len() ==> {
            ||| CH_0 <= #[trigger] bytes[i] <= CH_9
            ||| CH_UPPER_A <= bytes[i] <= CH_UPPER_Z
            ||| CH_LOWER_A <= bytes[i] <= CH_LOWER_Z
        }
}

/// ASCII bytes are the UTF-8 encoding of the text they spell, and so are valid UTF-8.
pub proof fn lemma_ascii_text_encoding(bytes: Seq<u8>)
    requires
        is_ascii_bytes(bytes),
    ensures
        is_ascii_chars(ascii_text(bytes)),
        encode_utf8(ascii_text(bytes)) == bytes,
        valid_utf8(bytes),
{
    let text = ascii_text(bytes);
    assert forall|i: int| 0 <= i < text.len() implies '\0' <= #[trigger] text[i] <= '\u{7f}' by {
        assert(bytes[i] < 128);
    }
    is_ascii_chars_encode_utf8(text);
    assert(encode_utf8(text) =~= bytes);
    encode_utf8_valid_utf8(text);
}

} // verus!
