//! CREATE2 addresses: the preimage that is hashed, the address in the digest,
//! and the runs of `1` digits by which an address is scored.

use vstd::prelude::*;

use crate::hexcode::nibble;
use crate::keccak::{keccak256, keccak256_digest};

verus! {

/// The eighty-five bytes that CREATE2 hashes: `0xff ‖ deployer ‖ salt ‖ init_code_hash`.
pub open spec fn preimage_bytes(deployer: Seq<u8>, salt: Seq<u8>, init_code_hash: Seq<u8>) -> Seq<
    u8,
> {
    seq![0xffu8] + deployer + salt + init_code_hash
}

/// The address that a digest holds: its last twenty bytes.
pub open spec fn digest_address(digest: Seq<u8>) -> Seq<u8> {
    digest.subrange(12, 32)
}

/// The address of the contract that `deployer` creates with `salt` and `init_code_hash`.
pub open spec fn create2_address(deployer: Seq<u8>, salt: Seq<u8>, init_code_hash: Seq<u8>) -> Seq<
    u8,
> {
    digest_address(keccak256_digest(preimage_bytes(deployer, salt, init_code_hash)))
}

/// How many hex digits equal to `1` follow one another from digit `from` on.
pub open spec fn ones_from(bytes: Seq<u8>, from: int) -> nat
    decreases 2 * bytes.len() - from,
{
    if 0 <= from < 2 * bytes.len() && nibble(bytes, from) == 1 {
        1 + ones_from(bytes, from + 1)
    } else {
        0
    }
}

/// How many hex digits equal to `1` precede one another up to digit `upto`, which is not counted.
pub open spec fn ones_before(bytes: Seq<u8>, upto: int) -> nat
    decreases upto,
{
    if 0 < upto <= 2 * bytes.len() && nibble(bytes, upto - 1) == 1 {
        1 + ones_before(bytes, upto - 1)
    } else {
        0
    }
}

/// The number of leading hex digits of `bytes` that are `1`.
pub open spec fn leading_ones(bytes: Seq<u8>) -> nat {
    ones_from(bytes, 0)
}

/// The number of trailing hex digits of `bytes` that are `1`.
pub open spec fn trailing_ones(bytes: Seq<u8>) -> nat {
    ones_before(bytes, 2 * bytes.len() as int)
}

/// A run that starts at `from` ends before the last digit's successor.
pub proof fn lemma_ones_from_bound(bytes: Seq<u8>, from: int)
    requires
        0 <= from <= 2 * bytes.len(),
    ensures
        from + ones_from(bytes, from) <= 2 * bytes.len(),
    decreases 2 * bytes.len() - from,
{
    if from < 2 * bytes.len() && nibble(bytes, from) == 1 {
        lemma_ones_from_bound(bytes, from + 1);
    }
}

/// A run that ends at `upto` starts at digit zero or later.
pub proof fn lemma_ones_before_bound(bytes: Seq<u8>, upto: int)
    requires
        0 <= upto <= 2 * bytes.len(),
    ensures
        ones_before(bytes, upto) <= upto,
    decreases upto,
{
    if 0 < upto && nibble(bytes, upto - 1) == 1 {
        lemma_ones_before_bound(bytes, upto - 1);
    }
}

/// Where the digits `from..mid` are all `1`, the run from `from` is that stretch and the run from `mid`.
pub proof fn lemma_ones_from_split(bytes: Seq<u8>, from: int, mid: int)
    requires
        0 <= from <= mid <= 2 * bytes.len(),
        forall|k: int| from <= k < mid ==> nibble(bytes, k) == 1,
    ensures
        ones_from(bytes, from) == (mid - from) + ones_from(bytes, mid),
    decreases mid - from,
{
    if from < mid {
        lemma_ones_from_split(bytes, from + 1, mid);
    }
}

/// Where the digits `mid..upto` are all `1`, the run up to `upto` is that stretch and the run up to `mid`.
pub proof fn lemma_ones_before_split(bytes: Seq<u8>, mid: int, upto: int)
    requires
        0 <= mid <= upto <= 2 * bytes.len(),
        forall|k: int| mid <= k < upto ==> nibble(bytes, k) == 1,
    ensures
        ones_before(bytes, upto) == (upto - mid) + ones_before(bytes, mid),
    decreases upto - mid,
{
    if mid < upto {
        lemma_ones_before_split(bytes, mid, upto - 1);
    }
}

/// The `i`-th hex digit of an address.
pub fn nibble_at(address: &[u8; 20], i: usize) -> (n: u8)
    requires
        i < 40,
    ensures
        n == nibble(address@, i as int),
{
    let byte: u8 = address[i / 2];
    if i % 2 == 0 {
        byte / 16
    } else {
        byte % 16
    }
}

/// Counts the leading hex digits of an address that are `1`.
pub fn count_leading_ones(address: &[u8; 20]) -> (n: u32)
    ensures
        n == leading_ones(address@),
        n <= 40,
{
    let mut n: usize = 0;
    while n < 40 && nibble_at(address, n) == 1
        invariant
            n <= 40,
            forall|k: int| 0 <= k < n ==> nibble(address@, k) == 1,
        decreases 40 - n,
    {
        n += 1;
    }
    proof {
        lemma_ones_from_split(address@, 0, n as int);
    }
    n as u32
}

/// Counts the trailing hex digits of an address that are `1`.
pub fn count_trailing_ones(address: &[u8; 20]) -> (n: u32)
    ensures
        n == trailing_ones(address@),
        n <= 40,
{
    let mut n: usize = 0;
    while n < 40 && nibble_at(address, 39 - n) == 1
        invariant
            n <= 40,
            forall|k: int| 40 - n <= k < 40 ==> nibble(address@, k) == 1,
        decreases 40 - n,
    {
        n += 1;
    }
    proof {
        lemma_ones_before_split(address@, 40 - n as int, 40);
    }
    n as u32
}

/// Lays out the bytes that CREATE2 hashes for `deployer`, `salt` and `init_code_hash`.
pub fn build_preimage(deployer: &[u8; 20], salt: &[u8; 32], init_code_hash: &[u8; 32]) -> (preimage:
    Vec<u8>)
    ensures
        preimage@ == preimage_bytes(deployer@, salt@, init_code_hash@),
        preimage@.len() == 85,
{
    let mut preimage: Vec<u8> = Vec::with_capacity(85);
    preimage.push(0xff);
    let mut i: usize = 0;
    while i < 20
        invariant
            i <= 20,
            preimage@ == seq![0xffu8] + deployer@.subrange(0, i as int),
        decreases 20 - i,
    {
        preimage.push(deployer[i]);
        i += 1;
        assert(preimage@ =~= seq![0xffu8] + deployer@.subrange(0, i as int));
    }
    assert(deployer@.subrange(0, 20) =~= deployer@);
    let mut j: usize = 0;
    while j < 32
        invariant
            j <= 32,
            preimage@ == seq![0xffu8] + deployer@ + salt@.subrange(0, j as int),
        decreases 32 - j,
    {
        preimage.push(salt[j]);
        j += 1;
        assert(preimage@ =~= seq![0xffu8] + deployer@ + salt@.subrange(0, j as int));
    }
    assert(salt@.subrange(0, 32) =~= salt@);
    let mut k: usize = 0;
    while k < 32
        invariant
            k <= 32,
            preimage@ == seq![0xffu8] + deployer@ + salt@ + init_code_hash@.subrange(0, k as int),
        decreases 32 - k,
    {
        preimage.push(init_code_hash[k]);
        k += 1;
        assert(preimage@ =~= seq![0xffu8] + deployer@ + salt@ + init_code_hash@.subrange(
            0,
            k as int,
        ));
    }
    assert(init_code_hash@.subrange(0, 32) =~= init_code_hash@);
    preimage
}

/// Takes the address out of a digest: its last twenty bytes.
pub fn address_from_digest(digest: &[u8; 32]) -> (address: [u8; 20])
    ensures
        address@ == digest_address(digest@),
{
    let mut address: [u8; 20] = [0; 20];
    let mut i: usize = 0;
    while i < 20
        invariant
            i <= 20,
            forall|k: int| 0 <= k < i ==> address@[k] == digest@[12 + k],
        decreases 20 - i,
    {
        address[i] = digest[12 + i];
        i += 1;
    }
    assert(address@ =~= digest_address(digest@));
    address
}

/// Derives the CREATE2 address of `deployer`, `salt` and `init_code_hash`.
pub fn derive_address(deployer: &[u8; 20], salt: &[u8; 32], init_code_hash: &[u8; 32]) -> (address:
    [u8; 20])
    ensures
        address@ == create2_address(deployer@, salt@, init_code_hash@),
{
    let preimage = build_preimage(deployer, salt, init_code_hash);
    let digest = keccak256(preimage.as_slice());
    address_from_digest(&digest)
}

} // verus!
