//! Salt mining for CREATE2 contract addresses.
//!
//! The address of a contract deployed through CREATE2 is the low twenty bytes
//! of `keccak256(0xff ‖ deployer ‖ salt ‖ init_code_hash)`. This crate holds
//! the host side of a miner that searches the low sixty-four bits of the salt
//! for addresses with many leading and trailing `1` hex digits (or with a
//! given hex prefix): the layout of what the device is handed, the meaning of
//! what it hands back, the verification of a reported salt, the text format of
//! the shared result file and the decisions of a device session.
//!
//! The logic here is verified against the contracts it states. What the
//! `hex`, `tiny-keccak`, `rand` and `separator` crates compute is taken on
//! trust, each call behind one small function that says what is believed of
//! it. The device, the clock, the terminal and the file system are driven by
//! the caller.

use vstd::prelude::*;
use vstd::string::*;

pub mod address;
pub mod ascii;
pub mod checksum;
pub mod config;
pub mod decimal;
pub mod errors;
pub mod hexcode;
pub mod hit;
pub mod keccak;
pub mod kernel;
pub mod orchestrator;
pub mod record;
pub mod render;
pub mod session;
pub mod sink;

pub use config::Config;

verus! {

/// Number of candidate salts that one dispatch covers.
pub const WORK_SIZE: u32 = 0x4000000;

/// The eight bytes of `x`, least significant first.
pub open spec fn le_bytes(x: u64) -> Seq<u8> {
    seq![
        (x & 0xff) as u8,
        ((x >> 8) & 0xff) as u8,
        ((x >> 16) & 0xff) as u8,
        ((x >> 24) & 0xff) as u8,
        ((x >> 32) & 0xff) as u8,
        ((x >> 40) & 0xff) as u8,
        ((x >> 48) & 0xff) as u8,
        ((x >> 56) & 0xff) as u8,
    ]
}

/// Convert 64-bit unsigned integer to little-endian fixed array of eight bytes.
pub fn u64_to_le_fixed_8(x: &u64) -> (bytes: [u8; 8])
    ensures
        bytes@ == le_bytes(*x),
{
    let mask: u64 = 0xff;
    let b1: u8 = ((*x >> 56) & mask) as u8;
    let b2: u8 = ((*x >> 48) & mask) as u8;
    let b3: u8 = ((*x >> 40) & mask) as u8;
    let b4: u8 = ((*x >> 32) & mask) as u8;
    let b5: u8 = ((*x >> 24) & mask) as u8;
    let b6: u8 = ((*x >> 16) & mask) as u8;
    let b7: u8 = ((*x >> 8) & mask) as u8;
    let b8: u8 = (*x & mask) as u8;
    let bytes: [u8; 8] = [b8, b7, b6, b5, b4, b3, b2, b1];
    assert(bytes@ =~= le_bytes(*x));
    bytes
}

/// Remove the `0x` prefix from a hex string: the string without its first two
/// characters, which is empty where it has no more than two.
pub fn without_prefix(string: String) -> (rest: String)
    ensures
        rest@ == if string@.len() >= 2 {
            string@.subrange(2, string@.len() as int)
        } else {
            Seq::<char>::empty()
        },
{
    let text = string.as_str();
    let n: usize = text.unicode_len();
    if n >= 2 {
        String::from_str(text.substring_char(2, n))
    } else {
        String::new()
    }
}

/// Convert a vector of at least twenty bytes to a fixed array of its first twenty.
pub fn to_fixed_20(bytes: Vec<u8>) -> (array: [u8; 20])
    requires
        bytes@.len() >= 20,
    ensures
        array@ == bytes@.subrange(0, 20),
{
    let mut array: [u8; 20] = [0; 20];
    let mut i: usize = 0;
    while i < 20
        invariant
            i <= 20,
            bytes@.len() >= 20,
            forall|j: int| 0 <= j < i ==> array@[j] == bytes@[j],
        decreases 20 - i,
    {
        array[i] = bytes[i];
        i += 1;
    }
    assert(array@ =~= bytes@.subrange(0, 20));
    array
}

/// Convert a vector of at least thirty-two bytes to a fixed array of its first thirty-two.
pub fn to_fixed_32(bytes: Vec<u8>) -> (array: [u8; 32])
    requires
        bytes@.len() >= 32,
    ensures
        array@ == bytes@.subrange(0, 32),
{
    let mut array: [u8; 32] = [0; 32];
    let mut i: usize = 0;
    while i < 32
        invariant
            i <= 32,
            bytes@.len() >= 32,
            forall|j: int| 0 <= j < i ==> array@[j] == bytes@[j],
        decreases 32 - i,
    {
        array[i] = bytes[i];
        i += 1;
    }
    assert(array@ =~= bytes@.subrange(0, 32));
    array
}

} // verus!
