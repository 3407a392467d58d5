use create2gpu::address::{count_leading_ones, count_trailing_ones};
use create2gpu::kernel::{
    build_message, dispatch, judge, salt_from_word, word_of_work_item, work_item, BEST_OFFSET,
    MESSAGE_LEN, MIN_LEADING_OFFSET, MIN_TRAILING_OFFSET,
};
use std::collections::HashSet;
use tiny_keccak::Keccak;

fn reference_digest(deployer: &[u8], salt: &[u8; 32], init_code_hash: &[u8]) -> [u8; 32] {
    let mut hasher = Keccak::new_keccak256();
    hasher.update(&[0xff]);
    hasher.update(deployer);
    hasher.update(salt);
    hasher.update(init_code_hash);
    let mut digest = [0u8; 32];
    hasher.finalize(&mut digest);
    digest
}

#[test]
fn message_is_laid_out_as_the_device_reads_it() {
    let deployer = [0xaau8; 20];
    let init_code_hash = [0xbbu8; 32];
    let message = build_message(&deployer, &init_code_hash, 4, 5, 17);
    assert_eq!(message.len(), 55);
    assert_eq!(MESSAGE_LEN, 55);
    assert_eq!(&message[0..20], &deployer[..]);
    assert_eq!(&message[20..52], &init_code_hash[..]);
    assert_eq!(message[52], 4);
    assert_eq!(message[53], 5);
    assert_eq!(message[54], 17);
    assert_eq!((MIN_LEADING_OFFSET, MIN_TRAILING_OFFSET, BEST_OFFSET), (52, 53, 54));
}

#[test]
fn word_holds_the_nonce_above_the_index() {
    assert_eq!(word_of_work_item(0, 0), 0);
    assert_eq!(word_of_work_item(1, 0), 1u64 << 32);
    assert_eq!(word_of_work_item(0, 1), 1);
    assert_eq!(word_of_work_item(0xdeadbeef, 0x01020304), 0xdeadbeef01020304);
    assert_eq!(word_of_work_item(u32::MAX, u32::MAX), u64::MAX);
}

#[test]
fn salt_is_zeros_and_the_tail_in_big_endian_order() {
    let nonce: u32 = 0xa1b2c3d4;
    let index: u32 = 0x01020304;
    let salt = salt_from_word(word_of_work_item(nonce, index));
    assert_eq!(&salt[0..24], &[0u8; 24][..]);
    let tail = ((nonce as u64) << 32 | index as u64).swap_bytes();
    assert_eq!(&salt[24..32], &tail.to_be_bytes()[..]);
    assert_eq!(&salt[24..32], &[0x04, 0x03, 0x02, 0x01, 0xd4, 0xc3, 0xb2, 0xa1][..]);
    assert_eq!(salt_from_word(0), [0u8; 32]);
}

#[test]
fn salts_within_a_dispatch_are_distinct() {
    for nonce in [0u32, 1, 0x80000000, u32::MAX] {
        let mut seen = HashSet::new();
        for index in (0u32..2000).chain(u32::MAX - 2000..=u32::MAX) {
            let salt = salt_from_word(word_of_work_item(nonce, index));
            assert!(seen.insert(salt));
        }
        assert_eq!(seen.len(), 4001);
    }
}

#[test]
fn judge_applies_the_filter_of_the_message() {
    let mut digest = [0u8; 32];
    digest[12] = 0x11;
    digest[13] = 0x1f;
    digest[31] = 0x11;
    let address_runs = (3u64, 2u64);

    let message = build_message(&[0u8; 20], &[0u8; 32], 3, 2, 4);
    let found = judge(&message, 77, &digest).unwrap();
    assert_eq!(found.word, 77);
    assert_eq!((found.leading_ones, found.trailing_ones), address_runs);
    assert_eq!(found.digest, digest);

    let message = build_message(&[0u8; 20], &[0u8; 32], 3, 2, 5);
    assert!(judge(&message, 77, &digest).is_none());
    let message = build_message(&[0u8; 20], &[0u8; 32], 4, 2, 0);
    assert!(judge(&message, 77, &digest).is_none());
    let message = build_message(&[0u8; 20], &[0u8; 32], 3, 3, 0);
    assert!(judge(&message, 77, &digest).is_none());
    let message = build_message(&[0u8; 20], &[0u8; 32], 0, 1, 4);
    assert!(judge(&message, 77, &digest).is_some());
    let message = build_message(&[0u8; 20], &[0u8; 32], 1, 0, 5);
    assert!(judge(&message, 77, &digest).is_none());
}

#[test]
fn judge_lets_everything_pass_where_both_minima_are_zero() {
    let message = build_message(&[0u8; 20], &[0u8; 32], 0, 0, 200);
    let found = judge(&message, 5, &[0u8; 32]).unwrap();
    assert_eq!((found.word, found.leading_ones, found.trailing_ones), (5, 0, 0));
}

#[test]
fn work_item_hashes_the_preimage_of_its_salt() {
    let deployer = [0x42u8; 20];
    let init_code_hash = [0x24u8; 32];
    let message = build_message(&deployer, &init_code_hash, 0, 0, 0);
    for (nonce, index) in [(0u32, 0u32), (1, 2), (0xdeadbeef, 0xcafebabe), (u32::MAX, u32::MAX)] {
        let found = work_item(&message, nonce, index).unwrap();
        let salt = salt_from_word(found.word);
        assert_eq!(found.word, ((nonce as u64) << 32) | index as u64);
        assert_eq!(found.digest, reference_digest(&deployer, &salt, &init_code_hash));
        let mut address = [0u8; 20];
        address.copy_from_slice(&found.digest[12..32]);
        assert_eq!(found.leading_ones, count_leading_ones(&address) as u64);
        assert_eq!(found.trailing_ones, count_trailing_ones(&address) as u64);
    }
}

#[test]
fn dispatch_reports_the_first_work_item_that_passes() {
    let deployer = [0x42u8; 20];
    let init_code_hash = [0x24u8; 32];
    let message = build_message(&deployer, &init_code_hash, 1, 1, 0);
    let nonce = 12345;
    let found = dispatch(&message, nonce, 1 << 14).unwrap();
    assert!(found.leading_ones >= 1 && found.trailing_ones >= 1);
    let winner = (found.word & 0xffff_ffff) as u32;
    assert_eq!(found.word >> 32, nonce as u64);
    for index in 0..winner {
        assert!(work_item(&message, nonce, index).is_none());
    }
    assert_eq!(work_item(&message, nonce, winner).unwrap().digest, found.digest);
    assert!(dispatch(&message, nonce, winner).is_none());
    assert!(dispatch(&message, nonce, 0).is_none());
}

#[test]
fn dispatch_never_reports_a_score_at_or_below_the_best() {
    let message = build_message(&[7u8; 20], &[9u8; 32], 1, 0, 2);
    for nonce in 0..4u32 {
        if let Some(found) = dispatch(&message, nonce, 1 << 12) {
            assert!(found.leading_ones >= 1);
            assert!(found.leading_ones + found.trailing_ones > 2);
        }
    }
}
