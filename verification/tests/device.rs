use create2gpu::kernel::{build_message, work_item};

const ROUND_CONSTANTS: [u64; 24] = [
    0x0000000000000001, 0x0000000000008082, 0x800000000000808a, 0x8000000080008000,
    0x000000000000808b, 0x0000000080000001, 0x8000000080008081, 0x8000000000008009,
    0x000000000000008a, 0x0000000000000088, 0x0000000080008009, 0x000000008000000a,
    0x000000008000808b, 0x800000000000008b, 0x8000000000008089, 0x8000000000008003,
    0x8000000000008002, 0x8000000000000080, 0x000000000000800a, 0x800000008000000a,
    0x8000000080008081, 0x8000000000008080, 0x0000000080000001, 0x8000000080008008,
];
const ROTATIONS: [u32; 24] =
    [1, 3, 6, 10, 15, 21, 28, 36, 45, 55, 2, 14, 27, 41, 56, 8, 25, 43, 62, 18, 39, 61, 20, 44];
const LANES: [usize; 24] =
    [10, 7, 11, 17, 18, 3, 5, 16, 8, 21, 24, 4, 15, 23, 19, 13, 12, 2, 20, 14, 22, 9, 6, 1];

fn permute(a: &mut [u64; 25]) {
    let mut c = [0u64; 5];
    for round in 0..24 {
        for x in 0..5 {
            c[x] = a[x] ^ a[x + 5] ^ a[x + 10] ^ a[x + 15] ^ a[x + 20];
        }
        for x in 0..5 {
            let t = c[(x + 4) % 5] ^ c[(x + 1) % 5].rotate_left(1);
            for y in [0, 5, 10, 15, 20] {
                a[y + x] ^= t;
            }
        }
        let mut last = a[1];
        for i in 0..24 {
            let t = a[LANES[i]];
            a[LANES[i]] = last.rotate_left(ROTATIONS[i]);
            last = t;
        }
        for y in [0, 5, 10, 15, 20] {
            for x in 0..5 {
                c[x] = a[y + x];
            }
            for x in 0..5 {
                a[y + x] = c[x] ^ ((!c[(x + 1) % 5]) & c[(x + 2) % 5]);
            }
        }
        a[0] ^= ROUND_CONSTANTS[round];
    }
}

/// One work item as the device runs it: the block is filled byte by byte,
/// absorbed lane by lane, permuted, and judged by the last three bytes of the message.
fn device_work_item(message: &[u8; 55], nonce: u32, index: u32) -> Option<(u64, u64, u64, Vec<u8>)> {
    let word = ((nonce as u64) << 32) | index as u64;
    let mut block = [0u8; 136];
    block[0] = 0xff;
    block[1..21].copy_from_slice(&message[..20]);
    for i in 0..8 {
        block[45 + i] = ((word >> (8 * i)) & 0xff) as u8;
    }
    block[53..85].copy_from_slice(&message[20..52]);
    block[85] ^= 0x01;
    block[135] ^= 0x80;

    let mut state = [0u64; 25];
    for lane in 0..17 {
        for byte in 0..8 {
            state[lane] |= (block[8 * lane + byte] as u64) << (8 * byte);
        }
    }
    permute(&mut state);
    let state_byte = |place: usize| ((state[place >> 3] >> (8 * (place & 7))) & 0xff) as u8;

    let digit = |i: usize| {
        let byte = state_byte(12 + (i >> 1));
        if i & 1 == 0 {
            byte >> 4
        } else {
            byte & 0x0f
        }
    };
    let mut leading = 0;
    while leading < 40 && digit(leading) == 1 {
        leading += 1;
    }
    let mut trailing = 0;
    while trailing < 40 && digit(39 - trailing) == 1 {
        trailing += 1;
    }

    let min_leading = message[52] as usize;
    let min_trailing = message[53] as usize;
    let best = message[54] as usize;
    let passes = (min_leading == 0 && min_trailing == 0)
        || (leading >= min_leading && trailing >= min_trailing && leading + trailing > best);
    if passes {
        Some((word, leading as u64, trailing as u64, (0..200).map(state_byte).collect()))
    } else {
        None
    }
}

#[test]
fn the_work_item_of_the_device_agrees_with_the_work_item_of_the_host() {
    let mut seed: u64 = 99;
    let mut next = move || {
        seed = seed.wrapping_mul(6364136223846793005).wrapping_add(1442695040888963407);
        (seed >> 33) as u32
    };
    let mut published = 0;
    for round in 0..3000 {
        let mut deployer = [0u8; 20];
        let mut init_code_hash = [0u8; 32];
        for byte in deployer.iter_mut() {
            *byte = next() as u8;
        }
        for byte in init_code_hash.iter_mut() {
            *byte = next() as u8;
        }
        let (min_leading, min_trailing, best) = if round % 3 == 0 {
            (0, 0, 0)
        } else {
            ((next() % 2) as u8, (next() % 2) as u8, (next() % 2) as u8)
        };
        let message = build_message(&deployer, &init_code_hash, min_leading, min_trailing, best);
        let (nonce, index) = (next(), next());
        let on_host = work_item(&message, nonce, index);
        let on_device = device_work_item(&message, nonce, index);
        assert_eq!(on_host.is_some(), on_device.is_some());
        if let (Some(host), Some(device)) = (on_host, on_device) {
            assert_eq!(host.word, device.0);
            assert_eq!(host.leading_ones, device.1);
            assert_eq!(host.trailing_ones, device.2);
            assert_eq!(&host.digest[..], &device.3[..32]);
            assert_eq!(device.3.len(), 200);
            published += 1;
        }
    }
    assert!(published > 1000);
}
