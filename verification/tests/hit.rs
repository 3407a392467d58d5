use create2gpu::address::{count_leading_ones, count_trailing_ones, derive_address};
use create2gpu::hit::{has_hex_prefix, judge_report, verify, Hit, MismatchRejected, Predicate};
use create2gpu::kernel::{build_message, dispatch, salt_from_word};
use tiny_keccak::Keccak;

fn keccak_of(code: &[u8]) -> [u8; 32] {
    let mut hasher = Keccak::new_keccak256();
    hasher.update(code);
    let mut digest = [0u8; 32];
    hasher.finalize(&mut digest);
    digest
}

fn digest_for(deployer: &[u8; 20], salt: &[u8; 32], init_code_hash: &[u8; 32]) -> [u8; 32] {
    let mut hasher = Keccak::new_keccak256();
    hasher.update(&[0xff]);
    hasher.update(deployer);
    hasher.update(salt);
    hasher.update(init_code_hash);
    let mut digest = [0u8; 32];
    hasher.finalize(&mut digest);
    digest
}

fn twenty_bytes(text: &str) -> [u8; 20] {
    let bytes = hex::decode(text).unwrap();
    let mut out = [0u8; 20];
    out.copy_from_slice(&bytes);
    out
}

fn state_holding(digest: &[u8; 32]) -> Vec<u8> {
    let mut state = vec![0u8; 200];
    state[..32].copy_from_slice(digest);
    state
}

const NO_MINIMA: Predicate = Predicate::VanityOnes { min_leading: 0, min_trailing: 0 };

#[test]
fn prefix_is_matched_against_lowercase_hex() {
    let address = twenty_bytes("dead00000000000000000000000000000000beef");
    assert!(has_hex_prefix(&address, b""));
    assert!(has_hex_prefix(&address, b"d"));
    assert!(has_hex_prefix(&address, b"dead"));
    assert!(has_hex_prefix(&address, b"dead0"));
    assert!(has_hex_prefix(&address, b"dead00000000000000000000000000000000beef"));
    assert!(!has_hex_prefix(&address, b"DEAD"));
    assert!(!has_hex_prefix(&address, b"deae"));
    assert!(!has_hex_prefix(&address, b"0xdead"));
    assert!(!has_hex_prefix(&address, b"dead00000000000000000000000000000000beef0"));
    assert!(!has_hex_prefix(&address, b"beef"));
}

#[test]
fn predicate_of_ones_asks_for_both_minima_and_more_than_the_best() {
    let address = twenty_bytes("1111a00000000000000000000000000000000111");
    let predicate = Predicate::VanityOnes { min_leading: 4, min_trailing: 3 };
    assert!(predicate.holds(&address, 0));
    assert!(predicate.holds(&address, 6));
    assert!(!predicate.holds(&address, 7));
    assert!(!predicate.holds(&address, 8));
    assert!(!Predicate::VanityOnes { min_leading: 5, min_trailing: 3 }.holds(&address, 0));
    assert!(!Predicate::VanityOnes { min_leading: 4, min_trailing: 4 }.holds(&address, 0));
    assert!(NO_MINIMA.holds(&address, 6));
    assert!(!NO_MINIMA.holds(&[0u8; 20], 0));
    assert!(!NO_MINIMA.holds(&address, u32::MAX));
}

#[test]
fn predicate_of_a_prefix_ignores_the_best_score() {
    let address = twenty_bytes("dead00000000000000000000000000000000beef");
    let predicate = Predicate::PrefixMatch { hex_prefix: b"dead".to_vec() };
    assert!(predicate.holds(&address, 0));
    assert!(predicate.holds(&address, 1000));
    assert!(!Predicate::PrefixMatch { hex_prefix: b"beef".to_vec() }.holds(&address, 0));
}

#[test]
fn device_is_told_the_minima_of_ones_and_nothing_of_a_prefix() {
    assert_eq!(Predicate::VanityOnes { min_leading: 4, min_trailing: 9 }.device_minima(), (4, 9));
    assert_eq!(Predicate::PrefixMatch { hex_prefix: b"dead".to_vec() }.device_minima(), (0, 0));
}

#[test]
fn verifies_a_published_address() {
    let deployer = twenty_bytes("00000000000000000000000000000000deadbeef");
    let init_code_hash = keccak_of(&[0xde, 0xad, 0xbe, 0xef]);
    let word: u64 = 0xbebafeca00000000;
    let salt = salt_from_word(word);
    assert_eq!(
        hex::encode(salt),
        "00000000000000000000000000000000000000000000000000000000cafebabe"
    );
    let digest = digest_for(&deployer, &salt, &init_code_hash);
    let predicate = Predicate::PrefixMatch { hex_prefix: b"60f3f6".to_vec() };
    let hit = verify(
        &deployer,
        &init_code_hash,
        &predicate,
        0,
        word,
        0,
        0,
        &state_holding(&digest),
        3,
        4,
        1717000000,
    )
    .unwrap();
    assert_eq!(
        hit,
        Hit {
            address: twenty_bytes("60f3f640a8508fc6a86d45df051962668e1e8ac7"),
            salt,
            score: 0,
            leading_ones: 0,
            trailing_ones: 0,
            platform_id: 3,
            device_id: 4,
            unix_seconds: 1717000000,
        }
    );
}

#[test]
fn every_hit_has_the_address_of_its_salt() {
    let deployer = [0x5au8; 20];
    let init_code_hash = [0xa5u8; 32];
    let predicate = Predicate::VanityOnes { min_leading: 1, min_trailing: 0 };
    let message = build_message(&deployer, &init_code_hash, 1, 0, 0);
    let mut hits = 0;
    for nonce in 0..20u32 {
        let found = dispatch(&message, nonce, 256).unwrap();
        let hit = verify(
            &deployer,
            &init_code_hash,
            &predicate,
            0,
            found.word,
            found.leading_ones,
            found.trailing_ones,
            &state_holding(&found.digest),
            0,
            0,
            1,
        )
        .unwrap();
        assert_eq!(hit.address, derive_address(&deployer, &hit.salt, &init_code_hash));
        assert_eq!(&hit.salt[..24], &[0u8; 24][..]);
        assert_eq!(hit.leading_ones, count_leading_ones(&hit.address));
        assert_eq!(hit.trailing_ones, count_trailing_ones(&hit.address));
        assert_eq!(hit.score, hit.leading_ones + hit.trailing_ones);
        assert!(hit.leading_ones >= 1);
        assert!(hit.score > 0);
        hits += 1;
    }
    assert_eq!(hits, 20);
}

#[test]
fn a_corrupted_digest_is_rejected() {
    let deployer = [0x5au8; 20];
    let init_code_hash = [0xa5u8; 32];
    let message = build_message(&deployer, &init_code_hash, 1, 0, 0);
    let found = dispatch(&message, 1, 4096).unwrap();
    let predicate = Predicate::VanityOnes { min_leading: 1, min_trailing: 0 };
    for place in 12..32 {
        let mut state = state_holding(&found.digest);
        state[place] ^= 0x01;
        let verdict = verify(
            &deployer,
            &init_code_hash,
            &predicate,
            0,
            found.word,
            found.leading_ones,
            found.trailing_ones,
            &state,
            0,
            0,
            1,
        );
        assert_eq!(verdict, Err(MismatchRejected::Digest));
    }
    let mut state = state_holding(&found.digest);
    state[0] ^= 0xff;
    state[11] ^= 0xff;
    state[32] ^= 0xff;
    assert!(verify(
        &deployer,
        &init_code_hash,
        &predicate,
        0,
        found.word,
        found.leading_ones,
        found.trailing_ones,
        &state,
        0,
        0,
        1
    )
    .is_ok());
}

#[test]
fn a_short_digest_is_rejected() {
    let deployer = [0x5au8; 20];
    let init_code_hash = [0xa5u8; 32];
    let salt = salt_from_word(9);
    let digest = digest_for(&deployer, &salt, &init_code_hash);
    assert_eq!(
        verify(&deployer, &init_code_hash, &NO_MINIMA, 0, 9, 0, 0, &digest[..31], 0, 0, 1),
        Err(MismatchRejected::Digest)
    );
    assert_eq!(
        verify(&deployer, &init_code_hash, &NO_MINIMA, 0, 9, 0, 0, &[], 0, 0, 1),
        Err(MismatchRejected::Digest)
    );
}

#[test]
fn a_wrong_word_is_rejected() {
    let deployer = [0x5au8; 20];
    let init_code_hash = [0xa5u8; 32];
    let digest = digest_for(&deployer, &salt_from_word(9), &init_code_hash);
    assert_eq!(
        verify(&deployer, &init_code_hash, &NO_MINIMA, 0, 10, 0, 0, &digest, 0, 0, 1),
        Err(MismatchRejected::Digest)
    );
}

#[test]
fn miscounted_runs_are_rejected() {
    let mut recomputed = [0u8; 32];
    recomputed[12] = 0x11;
    recomputed[31] = 0x01;
    let salt = [0u8; 32];
    let verdict =
        judge_report(&recomputed, &salt, &NO_MINIMA, 0, 2, 1, &recomputed, 0, 0, 1).unwrap();
    assert_eq!((verdict.leading_ones, verdict.trailing_ones, verdict.score), (2, 1, 3));
    assert_eq!(
        judge_report(&recomputed, &salt, &NO_MINIMA, 0, 3, 1, &recomputed, 0, 0, 1),
        Err(MismatchRejected::Counts)
    );
    assert_eq!(
        judge_report(&recomputed, &salt, &NO_MINIMA, 0, 2, 0, &recomputed, 0, 0, 1),
        Err(MismatchRejected::Counts)
    );
    assert_eq!(
        judge_report(&recomputed, &salt, &NO_MINIMA, 0, 2 + (1 << 32), 1, &recomputed, 0, 0, 1),
        Err(MismatchRejected::Counts)
    );
}

#[test]
fn an_address_that_misses_the_predicate_is_rejected() {
    let mut recomputed = [0u8; 32];
    recomputed[12] = 0x11;
    recomputed[31] = 0x01;
    let salt = [0u8; 32];
    let predicate = Predicate::VanityOnes { min_leading: 2, min_trailing: 1 };
    assert!(judge_report(&recomputed, &salt, &predicate, 2, 2, 1, &recomputed, 0, 0, 1).is_ok());
    assert_eq!(
        judge_report(&recomputed, &salt, &predicate, 3, 2, 1, &recomputed, 0, 0, 1),
        Err(MismatchRejected::Predicate)
    );
    let predicate = Predicate::VanityOnes { min_leading: 3, min_trailing: 1 };
    assert_eq!(
        judge_report(&recomputed, &salt, &predicate, 0, 2, 1, &recomputed, 0, 0, 1),
        Err(MismatchRejected::Predicate)
    );
    let predicate = Predicate::PrefixMatch { hex_prefix: b"12".to_vec() };
    assert_eq!(
        judge_report(&recomputed, &salt, &predicate, 0, 2, 1, &recomputed, 0, 0, 1),
        Err(MismatchRejected::Predicate)
    );
}

#[test]
fn the_digest_is_checked_before_the_runs_and_the_runs_before_the_predicate() {
    let mut recomputed = [0u8; 32];
    recomputed[12] = 0x11;
    let mut other = recomputed;
    other[20] = 1;
    let salt = [0u8; 32];
    let predicate = Predicate::VanityOnes { min_leading: 9, min_trailing: 9 };
    assert_eq!(
        judge_report(&recomputed, &salt, &predicate, 0, 7, 7, &other, 0, 0, 1),
        Err(MismatchRejected::Digest)
    );
    assert_eq!(
        judge_report(&recomputed, &salt, &predicate, 0, 7, 7, &recomputed, 0, 0, 1),
        Err(MismatchRejected::Counts)
    );
    assert_eq!(
        judge_report(&recomputed, &salt, &predicate, 0, 2, 0, &recomputed, 0, 0, 1),
        Err(MismatchRejected::Predicate)
    );
}
