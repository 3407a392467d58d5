//! What the device is asked and what it answers.
//!
//! The device is handed a message of fifty-five bytes and a base nonce. Work
//! item `g` of a dispatch derives a salt from the nonce and `g`, hashes the
//! CREATE2 preimage, and reports the salt if the address passes the filter
//! that the last three bytes of the message encode. This module fixes that
//! contract: the message layout, the salt of a work item, the filter, and a
//! reference evaluation of a work item and of a whole dispatch on the host.

use vstd::prelude::*;

use crate::address::{
    address_from_digest, build_preimage, count_leading_ones, count_trailing_ones, digest_address,
    leading_ones, lemma_ones_before_bound, lemma_ones_from_bound, preimage_bytes, trailing_ones,
};
use crate::keccak::{keccak256, keccak256_digest};
use crate::{le_bytes, u64_to_le_fixed_8};

verus! {

/// Length of the message that the device hashes against.
pub const MESSAGE_LEN: usize = 55;

/// Where the message holds the least number of leading `1` digits.
pub const MIN_LEADING_OFFSET: usize = 52;

/// Where the message holds the least number of trailing `1` digits.
pub const MIN_TRAILING_OFFSET: usize = 53;

/// Where the message holds the best score known when it was last refreshed.
pub const BEST_OFFSET: usize = 54;

/// The message: `deployer ‖ init_code_hash ‖ min_leading ‖ min_trailing ‖ best`.
pub open spec fn message_bytes(
    deployer: Seq<u8>,
    init_code_hash: Seq<u8>,
    min_leading: u8,
    min_trailing: u8,
    best: u8,
) -> Seq<u8> {
    deployer + init_code_hash + seq![min_leading, min_trailing, best]
}

/// The deployer address that a message holds.
pub open spec fn message_deployer(message: Seq<u8>) -> Seq<u8> {
    message.subrange(0, 20)
}

/// The init code hash that a message holds.
pub open spec fn message_init_code_hash(message: Seq<u8>) -> Seq<u8> {
    message.subrange(20, 52)
}

/// `n` zero bytes.
pub open spec fn zero_bytes(n: nat) -> Seq<u8> {
    Seq::new(n, |i: int| 0u8)
}

/// The eight bytes of `x`, most significant first.
pub open spec fn be_bytes(x: u64) -> Seq<u8> {
    seq![
        ((x >> 56) & 0xff) as u8,
        ((x >> 48) & 0xff) as u8,
        ((x >> 40) & 0xff) as u8,
        ((x >> 32) & 0xff) as u8,
        ((x >> 24) & 0xff) as u8,
        ((x >> 16) & 0xff) as u8,
        ((x >> 8) & 0xff) as u8,
        (x & 0xff) as u8,
    ]
}

/// `x` with the order of its eight bytes reversed.
pub open spec fn byte_swapped(x: u64) -> u64 {
    ((x & 0xff) << 56) | (((x >> 8) & 0xff) << 48) | (((x >> 16) & 0xff) << 40) | (((x >> 24)
        & 0xff) << 32) | (((x >> 32) & 0xff) << 24) | (((x >> 40) & 0xff) << 16) | (((x >> 48)
        & 0xff) << 8) | ((x >> 56) & 0xff)
}

/// The word that work item `index` forms from the base nonce: the nonce in
/// the high half, the index in the low half.
pub open spec fn work_word(nonce: u32, index: u32) -> u64 {
    ((nonce as u64) << 32) | (index as u64)
}

/// The salt tail of work item `index`, read as a big-endian number.
pub open spec fn salt_tail(nonce: u32, index: u32) -> u64 {
    byte_swapped(work_word(nonce, index))
}

/// The salt with the given tail: twenty-four zero bytes, then the tail in
/// big-endian order.
pub open spec fn salt_of_tail(tail: u64) -> Seq<u8> {
    zero_bytes(24) + be_bytes(tail)
}

/// The salt that a reported word stands for: twenty-four zero bytes, then
/// the word's bytes, least significant first.
pub open spec fn salt_of_word(word: u64) -> Seq<u8> {
    zero_bytes(24) + le_bytes(word)
}

/// The salt that work item `index` tries.
pub open spec fn candidate_salt(nonce: u32, index: u32) -> Seq<u8> {
    salt_of_tail(salt_tail(nonce, index))
}

/// The device's filter on the runs of an address. With both minima at zero
/// every address passes, and the host applies its predicate to what comes back.
pub open spec fn filter_passes(
    min_leading: u8,
    min_trailing: u8,
    best: u8,
    leading: nat,
    trailing: nat,
) -> bool {
    if min_leading == 0 && min_trailing == 0 {
        true
    } else {
        leading >= min_leading && trailing >= min_trailing && leading + trailing > best
    }
}

/// What a winning work item publishes: its word, the two runs it counted, and its digest.
#[derive(Clone, Copy, Debug)]
pub struct Solution {
    /// The nonce of the dispatch above the index of the work item.
    pub word: u64,
    pub leading_ones: u64,
    pub trailing_ones: u64,
    /// The digest of the preimage; the address is its last twenty bytes.
    pub digest: [u8; 32],
}

/// The digest that work item `index` computes.
pub open spec fn candidate_digest(message: Seq<u8>, nonce: u32, index: u32) -> Seq<u8> {
    keccak256_digest(
        preimage_bytes(
            message_deployer(message),
            candidate_salt(nonce, index),
            message_init_code_hash(message),
        ),
    )
}

/// The judgement of a work item whose word and digest are given: what it
/// publishes if its address passes the message's filter, or nothing.
pub open spec fn judged(message: Seq<u8>, word: u64, digest: [u8; 32]) -> Option<Solution> {
    let address = digest_address(digest@);
    if filter_passes(
        message[MIN_LEADING_OFFSET as int],
        message[MIN_TRAILING_OFFSET as int],
        message[BEST_OFFSET as int],
        leading_ones(address),
        trailing_ones(address),
    ) {
        Some(
            Solution {
                word,
                leading_ones: leading_ones(address) as u64,
                trailing_ones: trailing_ones(address) as u64,
                digest,
            },
        )
    } else {
        None
    }
}

/// Work item `index` passes the filter of `message`.
pub open spec fn work_item_passes(message: Seq<u8>, nonce: u32, index: u32) -> bool {
    let address = digest_address(candidate_digest(message, nonce, index));
    filter_passes(
        message[MIN_LEADING_OFFSET as int],
        message[MIN_TRAILING_OFFSET as int],
        message[BEST_OFFSET as int],
        leading_ones(address),
        trailing_ones(address),
    )
}

/// What a work item publishes holds the runs of its address, and these pass
/// the filter: unless both minima are zero, each run is at least its minimum
/// and the score is above the best score that the message carries.
pub proof fn law_published_solution_passes(message: Seq<u8>, word: u64, digest: [u8; 32])
    requires
        judged(message, word, digest) is Some,
    ensures
        ({
            let solution = judged(message, word, digest)->Some_0;
            let address = digest_address(digest@);
            &&& solution.word == word
            &&& solution.digest == digest
            &&& solution.leading_ones == leading_ones(address)
            &&& solution.trailing_ones == trailing_ones(address)
            &&& message[MIN_LEADING_OFFSET as int] != 0 || message[MIN_TRAILING_OFFSET as int]
                != 0 ==> {
                &&& solution.leading_ones >= message[MIN_LEADING_OFFSET as int]
                &&& solution.trailing_ones >= message[MIN_TRAILING_OFFSET as int]
                &&& solution.leading_ones + solution.trailing_ones > message[BEST_OFFSET as int]
            }
        }),
{
    let address = digest_address(digest@);
    lemma_ones_from_bound(address, 0);
    lemma_ones_before_bound(address, 2 * address.len() as int);
}

/// The bytes of a word, least significant first, are those of its byte-swapped form, most significant first.
pub proof fn lemma_swapped_bytes(x: u64)
    ensures
        be_bytes(byte_swapped(x)) == le_bytes(x),
{
    let y = byte_swapped(x);
    assert(((y >> 56) & 0xff) == (x & 0xff)) by (bit_vector)
        requires
            y == byte_swapped(x),
    ;
    assert(((y >> 48) & 0xff) == ((x >> 8) & 0xff)) by (bit_vector)
        requires
            y == byte_swapped(x),
    ;
    assert(((y >> 40) & 0xff) == ((x >> 16) & 0xff)) by (bit_vector)
        requires
            y == byte_swapped(x),
    ;
    assert(((y >> 32) & 0xff) == ((x >> 24) & 0xff)) by (bit_vector)
        requires
            y == byte_swapped(x),
    ;
    assert(((y >> 24) & 0xff) == ((x >> 32) & 0xff)) by (bit_vector)
        requires
            y == byte_swapped(x),
    ;
    assert(((y >> 16) & 0xff) == ((x >> 40) & 0xff)) by (bit_vector)
        requires
            y == byte_swapped(x),
    ;
    assert(((y >> 8) & 0xff) == ((x >> 48) & 0xff)) by (bit_vector)
        requires
            y == byte_swapped(x),
    ;
    assert((y & 0xff) == ((x >> 56) & 0xff)) by (bit_vector)
        requires
            y == byte_swapped(x),
    ;
    assert(be_bytes(y) =~= le_bytes(x));
}

/// The salt of a work item is the salt that its word stands for on the host.
pub proof fn lemma_candidate_salt_of_word(nonce: u32, index: u32)
    ensures
        candidate_salt(nonce, index) == salt_of_word(work_word(nonce, index)),
        candidate_salt(nonce, index).len() == 32,
        candidate_salt(nonce, index).subrange(0, 24) == zero_bytes(24),
{
    lemma_swapped_bytes(work_word(nonce, index));
    assert(candidate_salt(nonce, index).subrange(0, 24) =~= zero_bytes(24));
}

/// No two work items of any dispatches share a salt tail: the tail determines the nonce and the index.
pub proof fn law_salt_tail_injective(nonce1: u32, index1: u32, nonce2: u32, index2: u32)
    requires
        salt_tail(nonce1, index1) == salt_tail(nonce2, index2),
    ensures
        nonce1 == nonce2,
        index1 == index2,
{
    assert(nonce1 == nonce2 && index1 == index2) by (bit_vector)
        requires
            byte_swapped(((nonce1 as u64) << 32) | (index1 as u64)) == byte_swapped(
                ((nonce2 as u64) << 32) | (index2 as u64),
            ),
    ;
}

/// Within one dispatch, distinct work items try distinct salts.
pub proof fn law_salts_distinct_within_dispatch(nonce: u32, index1: u32, index2: u32)
    requires
        index1 != index2,
    ensures
        salt_tail(nonce, index1) != salt_tail(nonce, index2),
        candidate_salt(nonce, index1) != candidate_salt(nonce, index2),
{
    if salt_tail(nonce, index1) == salt_tail(nonce, index2) {
        law_salt_tail_injective(nonce, index1, nonce, index2);
    }
    let w1 = work_word(nonce, index1);
    let w2 = work_word(nonce, index2);
    lemma_candidate_salt_of_word(nonce, index1);
    lemma_candidate_salt_of_word(nonce, index2);
    if candidate_salt(nonce, index1) == candidate_salt(nonce, index2) {
        let s1 = salt_of_word(w1);
        let s2 = salt_of_word(w2);
        assert(le_bytes(w1) =~= s1.subrange(24, 32));
        assert(le_bytes(w2) =~= s2.subrange(24, 32));
        lemma_le_bytes_injective(w1, w2);
        assert(index1 == index2) by (bit_vector)
            requires
                ((nonce as u64) << 32) | (index1 as u64) == ((nonce as u64) << 32) | (
                index2 as u64),
        ;
    }
}

/// A word is determined by its bytes.
pub proof fn lemma_le_bytes_injective(x: u64, y: u64)
    requires
        le_bytes(x) == le_bytes(y),
    ensures
        x == y,
{
    let a = le_bytes(x);
    let b = le_bytes(y);
    assert(a[0] == b[0] && a[1] == b[1] && a[2] == b[2] && a[3] == b[3] && a[4] == b[4] && a[5]
        == b[5] && a[6] == b[6] && a[7] == b[7]);
    assert(x == y) by (bit_vector)
        requires
            (x & 0xff) as u8 == (y & 0xff) as u8,
            ((x >> 8) & 0xff) as u8 == ((y >> 8) & 0xff) as u8,
            ((x >> 16) & 0xff) as u8 == ((y >> 16) & 0xff) as u8,
            ((x >> 24) & 0xff) as u8 == ((y >> 24) & 0xff) as u8,
            ((x >> 32) & 0xff) as u8 == ((y >> 32) & 0xff) as u8,
            ((x >> 40) & 0xff) as u8 == ((y >> 40) & 0xff) as u8,
            ((x >> 48) & 0xff) as u8 == ((y >> 48) & 0xff) as u8,
            ((x >> 56) & 0xff) as u8 == ((y >> 56) & 0xff) as u8,
    ;
}

/// Lays out the message for the device.
pub fn build_message(
    deployer: &[u8; 20],
    init_code_hash: &[u8; 32],
    min_leading: u8,
    min_trailing: u8,
    best: u8,
) -> (message: [u8; 55])
    ensures
        message@ == message_bytes(deployer@, init_code_hash@, min_leading, min_trailing, best),
        message_deployer(message@) == deployer@,
        message_init_code_hash(message@) == init_code_hash@,
{
    let mut message: [u8; 55] = [0; 55];
    let mut i: usize = 0;
    while i < 20
        invariant
            i <= 20,
            forall|k: int| 0 <= k < i ==> message@[k] == deployer@[k],
        decreases 20 - i,
    {
        message[i] = deployer[i];
        i += 1;
    }
    let mut j: usize = 0;
    while j < 32
        invariant
            j <= 32,
            forall|k: int| 0 <= k < 20 ==> message@[k] == deployer@[k],
            forall|k: int| 0 <= k < j ==> message@[20 + k] == init_code_hash@[k],
        decreases 32 - j,
    {
        message[20 + j] = init_code_hash[j];
        j += 1;
    }
    message[MIN_LEADING_OFFSET] = min_leading;
    message[MIN_TRAILING_OFFSET] = min_trailing;
    message[BEST_OFFSET] = best;
    assert(message@ =~= message_bytes(
        deployer@,
        init_code_hash@,
        min_leading,
        min_trailing,
        best,
    ));
    assert(message_deployer(message@) =~= deployer@);
    assert(message_init_code_hash(message@) =~= init_code_hash@);
    message
}

/// The word of work item `index` under the base nonce `nonce`.
pub fn word_of_work_item(nonce: u32, index: u32) -> (word: u64)
    ensures
        word == work_word(nonce, index),
{
    ((nonce as u64) << 32) | (index as u64)
}

/// The salt that a reported word stands for.
pub fn salt_from_word(word: u64) -> (salt: [u8; 32])
    ensures
        salt@ == salt_of_word(word),
        salt@.subrange(0, 24) == zero_bytes(24),
{
    let tail = u64_to_le_fixed_8(&word);
    let mut salt: [u8; 32] = [0; 32];
    let mut i: usize = 0;
    while i < 8
        invariant
            i <= 8,
            forall|k: int| 0 <= k < 24 ==> salt@[k] == 0,
            forall|k: int| 0 <= k < i ==> salt@[24 + k] == tail@[k],
        decreases 8 - i,
    {
        salt[24 + i] = tail[i];
        i += 1;
    }
    assert(salt@ =~= salt_of_word(word));
    assert(salt@.subrange(0, 24) =~= zero_bytes(24));
    salt
}

/// Judges a work item by its digest: the address is taken from the digest,
/// its runs are counted, and the message's filter decides.
pub fn judge(message: &[u8; 55], word: u64, digest: &[u8; 32]) -> (found: Option<Solution>)
    ensures
        found == judged(message@, word, *digest),
{
    let address = address_from_digest(digest);
    let leading: u32 = count_leading_ones(&address);
    let trailing: u32 = count_trailing_ones(&address);
    let min_leading: u8 = message[MIN_LEADING_OFFSET];
    let min_trailing: u8 = message[MIN_TRAILING_OFFSET];
    let best: u8 = message[BEST_OFFSET];
    let passes: bool = (min_leading == 0 && min_trailing == 0) || (leading >= min_leading as u32
        && trailing >= min_trailing as u32 && leading + trailing > best as u32);
    if passes {
        Some(
            Solution {
                word,
                leading_ones: leading as u64,
                trailing_ones: trailing as u64,
                digest: *digest,
            },
        )
    } else {
        None
    }
}

/// Evaluates work item `index` of a dispatch as the device does.
pub fn work_item(message: &[u8; 55], nonce: u32, index: u32) -> (found: Option<Solution>)
    ensures
        found is Some <==> work_item_passes(message@, nonce, index),
        found matches Some(solution) ==> {
            &&& solution.word == work_word(nonce, index)
            &&& solution.digest@ == candidate_digest(message@, nonce, index)
            &&& found == judged(message@, solution.word, solution.digest)
        },
{
    let word = word_of_work_item(nonce, index);
    let salt = salt_from_word(word);
    proof {
        lemma_candidate_salt_of_word(nonce, index);
    }
    let mut deployer: [u8; 20] = [0; 20];
    let mut i: usize = 0;
    while i < 20
        invariant
            i <= 20,
            forall|k: int| 0 <= k < i ==> deployer@[k] == message@[k],
        decreases 20 - i,
    {
        deployer[i] = message[i];
        i += 1;
    }
    let mut init_code_hash: [u8; 32] = [0; 32];
    let mut j: usize = 0;
    while j < 32
        invariant
            j <= 32,
            forall|k: int| 0 <= k < j ==> init_code_hash@[k] == message@[20 + k],
        decreases 32 - j,
    {
        init_code_hash[j] = message[20 + j];
        j += 1;
    }
    assert(deployer@ =~= message_deployer(message@));
    assert(init_code_hash@ =~= message_init_code_hash(message@));
    let preimage = build_preimage(&deployer, &salt, &init_code_hash);
    let digest = keccak256(preimage.as_slice());
    judge(message, word, &digest)
}

/// Evaluates the work items `0..work_size` in order and reports the first that passes.
pub fn dispatch(message: &[u8; 55], nonce: u32, work_size: u32) -> (found: Option<Solution>)
    ensures
        found is None <==> forall|index: u32|
            index < work_size ==> !#[trigger] work_item_passes(message@, nonce, index),
        found matches Some(solution) ==> exists|index: u32|
            {
                &&& index < work_size
                &&& #[trigger] work_item_passes(message@, nonce, index)
                &&& forall|earlier: u32|
                    earlier < index ==> !#[trigger] work_item_passes(message@, nonce, earlier)
                &&& solution.word == work_word(nonce, index)
                &&& solution.digest@ == candidate_digest(message@, nonce, index)
                &&& found == judged(message@, solution.word, solution.digest)
            },
{
    let mut index: u32 = 0;
    while index < work_size
        invariant
            index <= work_size,
            forall|earlier: u32|
                earlier < index ==> !#[trigger] work_item_passes(message@, nonce, earlier),
        decreases work_size - index,
    {
        let found = work_item(message, nonce, index);
        if found.is_some() {
            return found;
        }
        index += 1;
    }
    None
}

} // verus!
