use create2gpu::{to_fixed_20, to_fixed_32, u64_to_le_fixed_8, without_prefix, WORK_SIZE};

#[test]
fn le_bytes_of_a_word_come_least_significant_first() {
    assert_eq!(
        u64_to_le_fixed_8(&0x0102030405060708),
        [0x08, 0x07, 0x06, 0x05, 0x04, 0x03, 0x02, 0x01]
    );
    assert_eq!(u64_to_le_fixed_8(&0), [0u8; 8]);
    assert_eq!(u64_to_le_fixed_8(&u64::MAX), [0xffu8; 8]);
    assert_eq!(u64_to_le_fixed_8(&1), [1, 0, 0, 0, 0, 0, 0, 0]);
    assert_eq!(u64_to_le_fixed_8(&0x8000000000000000), [0, 0, 0, 0, 0, 0, 0, 0x80]);
}

#[test]
fn le_bytes_agree_with_std() {
    let mut x: u64 = 0x9e3779b97f4a7c15;
    for _ in 0..1000 {
        x = x.wrapping_mul(6364136223846793005).wrapping_add(1442695040888963407);
        assert_eq!(u64_to_le_fixed_8(&x), x.to_le_bytes());
    }
}

#[test]
fn fixed_arrays_take_the_first_bytes() {
    let bytes: Vec<u8> = (0u8..40).collect();
    let twenty = to_fixed_20(bytes.clone());
    assert_eq!(&twenty[..], &bytes[..20]);
    let thirty_two = to_fixed_32(bytes.clone());
    assert_eq!(&thirty_two[..], &bytes[..32]);
    let exact: Vec<u8> = (100u8..120).collect();
    assert_eq!(&to_fixed_20(exact.clone())[..], &exact[..]);
}

#[test]
fn without_prefix_drops_two_characters() {
    assert_eq!(without_prefix("0xabcdef".to_string()), "abcdef");
    assert_eq!(without_prefix("0x1".to_string()), "1");
    assert_eq!(without_prefix("0x".to_string()), "");
    assert_eq!(without_prefix("a".to_string()), "");
    assert_eq!(without_prefix(String::new()), "");
    assert_eq!(without_prefix("é€x".to_string()), "x");
}

#[test]
fn work_size_is_two_to_the_twenty_six() {
    assert_eq!(WORK_SIZE, 1u32 << 26);
}
