//! The verifier: the host's own judgement of a salt that the device reported.
//!
//! The address is derived again from the deployer, the salt and the init code
//! hash, and held against what the device sent back and against the
//! predicate of the search. Only what passes becomes a [`Hit`].

use vstd::prelude::*;

use crate::address::{
    address_from_digest, build_preimage, count_leading_ones, count_trailing_ones,
    create2_address, digest_address, leading_ones, lemma_ones_before_bound,
    lemma_ones_from_bound, nibble_at, preimage_bytes, trailing_ones,
};
use crate::ascii::{CH_0, CH_LOWER_A};
use crate::hexcode::{hex_encoded, lower_hex_digit, nibble};
use crate::keccak::{keccak256, keccak256_digest};
use crate::kernel::{salt_from_word, salt_of_word, zero_bytes};

verus! {

/// What an address is searched for.
#[derive(Clone, Debug, PartialEq, Eq)]
pub enum Predicate {
    /// The lowercase hex form of the address begins with these characters.
    PrefixMatch { hex_prefix: Vec<u8> },
    /// The address has at least so many leading and trailing `1` digits, and
    /// more of them in all than the best score known so far.
    VanityOnes { min_leading: u8, min_trailing: u8 },
}

/// Decides whether the lowercase hex form of an address begins with `prefix`.
pub fn has_hex_prefix(address: &[u8; 20], prefix: &[u8]) -> (ok: bool)
    ensures
        ok == prefix@.is_prefix_of(hex_encoded(address@)),
{
    let n: usize = prefix.len();
    if n > 40 {
        return false;
    }
    let mut i: usize = 0;
    while i < n
        invariant
            i <= n <= 40,
            n == prefix@.len(),
            forall|k: int| 0 <= k < i ==> prefix@[k] == hex_encoded(address@)[k],
        decreases n - i,
    {
        let digit: u8 = nibble_at(address, i);
        let c: u8 = if digit < 10 {
            CH_0 + digit
        } else {
            CH_LOWER_A + (digit - 10)
        };
        if prefix[i] != c {
            assert(prefix@[i as int] != hex_encoded(address@).subrange(0, n as int)[i as int]);
            return false;
        }
        i += 1;
    }
    assert(prefix@ =~= hex_encoded(address@).subrange(0, n as int));
    true
}

impl Predicate {
    /// The address satisfies the predicate, `best` being the best score known.
    pub open spec fn satisfied_by(&self, address: Seq<u8>, best: nat) -> bool {
        match self {
            Predicate::PrefixMatch { hex_prefix } => hex_prefix@.is_prefix_of(
                hex_encoded(address),
            ),
            Predicate::VanityOnes { min_leading, min_trailing } => {
                &&& leading_ones(address) >= *min_leading
                &&& trailing_ones(address) >= *min_trailing
                &&& leading_ones(address) + trailing_ones(address) > best
            },
        }
    }

    /// The least number of leading `1` digits that the device is told to ask for.
    pub open spec fn device_min_leading(&self) -> u8 {
        match self {
            Predicate::PrefixMatch { .. } => 0,
            Predicate::VanityOnes { min_leading, .. } => *min_leading,
        }
    }

    /// The least number of trailing `1` digits that the device is told to ask for.
    pub open spec fn device_min_trailing(&self) -> u8 {
        match self {
            Predicate::PrefixMatch { .. } => 0,
            Predicate::VanityOnes { min_trailing, .. } => *min_trailing,
        }
    }

    /// The two minima that go into the message for the device. A prefix is
    /// matched on the host alone: the device is then told to report every address.
    pub fn device_minima(&self) -> (minima: (u8, u8))
        ensures
            minima.0 == self.device_min_leading(),
            minima.1 == self.device_min_trailing(),
    {
        match self {
            Predicate::PrefixMatch { .. } => (0, 0),
            Predicate::VanityOnes { min_leading, min_trailing } => (*min_leading, *min_trailing),
        }
    }

    /// Decides whether an address satisfies the predicate.
    pub fn holds(&self, address: &[u8; 20], best: u32) -> (ok: bool)
        ensures
            ok == self.satisfied_by(address@, best as nat),
    {
        match self {
            Predicate::PrefixMatch { hex_prefix } => has_hex_prefix(address, hex_prefix.as_slice()),
            Predicate::VanityOnes { min_leading, min_trailing } => {
                let leading: u32 = count_leading_ones(address);
                let trailing: u32 = count_trailing_ones(address);
                leading >= *min_leading as u32 && trailing >= *min_trailing as u32 && leading
                    + trailing > best
            },
        }
    }
}

/// A verified find.
#[derive(Clone, Copy, Debug, PartialEq, Eq)]
pub struct Hit {
    /// The address of the contract that the salt gives.
    pub address: [u8; 20],
    /// The salt: twenty-four zero bytes and the eight bytes that were mined.
    pub salt: [u8; 32],
    /// The leading and the trailing `1` digits of the address, taken together.
    pub score: u32,
    pub leading_ones: u32,
    pub trailing_ones: u32,
    /// The platform and the device that found the salt.
    pub platform_id: u32,
    pub device_id: u32,
    /// When it was found, in seconds since 1970.
    pub unix_seconds: u64,
}

impl Hit {
    /// The record is consistent: the address is the CREATE2 address of its
    /// salt under the given deployer and init code hash, the salt varies in
    /// its last eight bytes only, and the runs and the score are those of the
    /// address.
    pub open spec fn valid_for(&self, deployer: Seq<u8>, init_code_hash: Seq<u8>) -> bool {
        &&& self.address@ == create2_address(deployer, self.salt@, init_code_hash)
        &&& self.salt@.subrange(0, 24) == zero_bytes(24)
        &&& self.leading_ones == leading_ones(self.address@)
        &&& self.trailing_ones == trailing_ones(self.address@)
        &&& self.score == self.leading_ones + self.trailing_ones
    }
}

/// A valid find has at most forty `1` digits at either end, and so a score
/// of eighty at most.
pub proof fn law_valid_score_is_bounded(hit: Hit, deployer: Seq<u8>, init_code_hash: Seq<u8>)
    requires
        hit.valid_for(deployer, init_code_hash),
    ensures
        hit.leading_ones <= 40,
        hit.trailing_ones <= 40,
        hit.score <= 80,
{
    lemma_ones_from_bound(hit.address@, 0);
    lemma_ones_before_bound(hit.address@, 40);
}

/// Why a reported salt was not recorded.
#[derive(Clone, Copy, Debug, PartialEq, Eq)]
pub enum MismatchRejected {
    /// The address in the device's digest is not the address that the host derives.
    Digest,
    /// The runs that the device counted are not those of the address.
    Counts,
    /// The address does not satisfy the predicate.
    Predicate,
}

/// The device's digest holds the address that the host's digest holds.
pub open spec fn digest_agrees(digest_output: Seq<u8>, recomputed: Seq<u8>) -> bool {
    digest_output.len() >= 32 && digest_address(digest_output) == digest_address(recomputed)
}

/// The runs reported by the device are those of the address.
pub open spec fn counts_agree(leading: u64, trailing: u64, address: Seq<u8>) -> bool {
    leading == leading_ones(address) && trailing == trailing_ones(address)
}

/// The verdict on a report is the one that the checks give, made in this
/// order: the digest, the counted runs, the predicate. `recomputed` is the
/// digest that the host computed for `salt`.
pub open spec fn is_verdict(
    verdict: Result<Hit, MismatchRejected>,
    recomputed: Seq<u8>,
    salt: Seq<u8>,
    predicate: Predicate,
    best: nat,
    leading: u64,
    trailing: u64,
    digest_output: Seq<u8>,
    platform_id: u32,
    device_id: u32,
    unix_seconds: u64,
) -> bool {
    let address = digest_address(recomputed);
    if !digest_agrees(digest_output, recomputed) {
        verdict == Err::<Hit, MismatchRejected>(MismatchRejected::Digest)
    } else if !counts_agree(leading, trailing, address) {
        verdict == Err::<Hit, MismatchRejected>(MismatchRejected::Counts)
    } else if !predicate.satisfied_by(address, best) {
        verdict == Err::<Hit, MismatchRejected>(MismatchRejected::Predicate)
    } else {
        &&& verdict matches Ok(hit)
        &&& hit.address@ == address
        &&& hit.salt@ == salt
        &&& hit.leading_ones == leading_ones(address)
        &&& hit.trailing_ones == trailing_ones(address)
        &&& hit.score == leading_ones(address) + trailing_ones(address)
        &&& hit.platform_id == platform_id
        &&& hit.device_id == device_id
        &&& hit.unix_seconds == unix_seconds
    }
}

/// The verdict on a report of the device for the given search: the digest
/// is that of the preimage with the salt that the reported word stands for.
pub open spec fn is_verdict_of_report(
    verdict: Result<Hit, MismatchRejected>,
    deployer: Seq<u8>,
    init_code_hash: Seq<u8>,
    predicate: Predicate,
    best: nat,
    word: u64,
    leading: u64,
    trailing: u64,
    digest_output: Seq<u8>,
    platform_id: u32,
    device_id: u32,
    unix_seconds: u64,
) -> bool {
    is_verdict(
        verdict,
        keccak256_digest(preimage_bytes(deployer, salt_of_word(word), init_code_hash)),
        salt_of_word(word),
        predicate,
        best,
        leading,
        trailing,
        digest_output,
        platform_id,
        device_id,
        unix_seconds,
    )
}

/// Every find that a verdict holds is valid for the search, varies in the
/// last eight bytes of its salt only, and satisfies the predicate: its runs
/// are at least the minima asked for, and its score is above the best score
/// that was known at the dispatch.
pub proof fn law_hits_are_valid(
    verdict: Result<Hit, MismatchRejected>,
    deployer: Seq<u8>,
    init_code_hash: Seq<u8>,
    predicate: Predicate,
    best: nat,
    word: u64,
    leading: u64,
    trailing: u64,
    digest_output: Seq<u8>,
    platform_id: u32,
    device_id: u32,
    unix_seconds: u64,
)
    requires
        is_verdict_of_report(
            verdict,
            deployer,
            init_code_hash,
            predicate,
            best,
            word,
            leading,
            trailing,
            digest_output,
            platform_id,
            device_id,
            unix_seconds,
        ),
        verdict is Ok,
    ensures
        verdict->Ok_0.valid_for(deployer, init_code_hash),
        verdict->Ok_0.address@ == digest_address(
            keccak256_digest(preimage_bytes(deployer, verdict->Ok_0.salt@, init_code_hash)),
        ),
        forall|i: int| 0 <= i < 24 ==> verdict->Ok_0.salt@[i] == 0,
        predicate.satisfied_by(verdict->Ok_0.address@, best),
        predicate matches Predicate::VanityOnes { min_leading, min_trailing } ==> {
            &&& verdict->Ok_0.leading_ones >= min_leading
            &&& verdict->Ok_0.trailing_ones >= min_trailing
            &&& verdict->Ok_0.leading_ones + verdict->Ok_0.trailing_ones > best
        },
{
    let hit = verdict->Ok_0;
    assert(hit.salt@.subrange(0, 24) =~= zero_bytes(24));
    assert forall|i: int| 0 <= i < 24 implies hit.salt@[i] == 0 by {
        assert(hit.salt@[i] == zero_bytes(24)[i]);
    }
}

/// Judges a report against the digest that the host computed for the
/// reported salt.
pub fn judge_report(
    recomputed: &[u8; 32],
    salt: &[u8; 32],
    predicate: &Predicate,
    best: u32,
    leading: u64,
    trailing: u64,
    digest_output: &[u8],
    platform_id: u32,
    device_id: u32,
    unix_seconds: u64,
) -> (verdict: Result<Hit, MismatchRejected>)
    ensures
        is_verdict(
            verdict,
            recomputed@,
            salt@,
            *predicate,
            best as nat,
            leading,
            trailing,
            digest_output@,
            platform_id,
            device_id,
            unix_seconds,
        ),
{
    let address = address_from_digest(recomputed);
    if digest_output.len() < 32 {
        return Err(MismatchRejected::Digest);
    }
    let mut i: usize = 0;
    while i < 20
        invariant
            i <= 20,
            digest_output@.len() >= 32,
            address@ == digest_address(recomputed@),
            forall|k: int| 0 <= k < i ==> digest_output@[12 + k] == address@[k],
        decreases 20 - i,
    {
        if digest_output[12 + i] != address[i] {
            assert(digest_address(digest_output@)[i as int] != address@[i as int]);
            return Err(MismatchRejected::Digest);
        }
        i += 1;
    }
    assert(digest_address(digest_output@) =~= address@);
    let counted_leading: u32 = count_leading_ones(&address);
    let counted_trailing: u32 = count_trailing_ones(&address);
    if leading != counted_leading as u64 || trailing != counted_trailing as u64 {
        return Err(MismatchRejected::Counts);
    }
    if !predicate.holds(&address, best) {
        return Err(MismatchRejected::Predicate);
    }
    Ok(
        Hit {
            address,
            salt: *salt,
            score: counted_leading + counted_trailing,
            leading_ones: counted_leading,
            trailing_ones: counted_trailing,
            platform_id,
            device_id,
            unix_seconds,
        },
    )
}

/// Verifies a report of the device: the salt is rebuilt from the reported
/// word, the address is derived from it, and the report is judged against it.
pub fn verify(
    deployer: &[u8; 20],
    init_code_hash: &[u8; 32],
    predicate: &Predicate,
    best: u32,
    word: u64,
    leading: u64,
    trailing: u64,
    digest_output: &[u8],
    platform_id: u32,
    device_id: u32,
    unix_seconds: u64,
) -> (verdict: Result<Hit, MismatchRejected>)
    ensures
        is_verdict_of_report(
            verdict,
            deployer@,
            init_code_hash@,
            *predicate,
            best as nat,
            word,
            leading,
            trailing,
            digest_output@,
            platform_id,
            device_id,
            unix_seconds,
        ),
        verdict matches Ok(hit) ==> hit.valid_for(deployer@, init_code_hash@)
            && predicate.satisfied_by(hit.address@, best as nat),
{
    let salt = salt_from_word(word);
    let preimage = build_preimage(deployer, &salt, init_code_hash);
    let recomputed = keccak256(preimage.as_slice());
    judge_report(
        &recomputed,
        &salt,
        predicate,
        best,
        leading,
        trailing,
        digest_output,
        platform_id,
        device_id,
        unix_seconds,
    )
}

} // verus!
