use native_benchmark::lanes::{
    add_ints, and_ints, broadcast_bytes, broadcast_ints, greater_than_ints, load_bytes, load_ints,
    store_bytes, store_ints, sub_ints, xor_bytes, BYTE_LANES, INT_LANES,
};
use native_benchmark::words::{broadcast_word, load_word, store_word};

#[test]
fn lane_counts() {
    assert_eq!(BYTE_LANES, 32);
    assert_eq!(INT_LANES, 8);
}

#[test]
fn broadcast_fills_every_lane() {
    assert_eq!(broadcast_bytes(0x3C), [0x3Cu8; 32]);
    assert_eq!(broadcast_ints(-97), [-97i32; 8]);
}

#[test]
fn byte_block_load_xor_store() {
    let mut buf: Vec<u8> = (0u8..40).collect();
    let block = load_bytes(&buf, 3);
    let want: Vec<u8> = (3u8..35).collect();
    assert_eq!(block.to_vec(), want);
    let xored = xor_bytes(&block, &broadcast_bytes(0xFF));
    let flipped: Vec<u8> = (3u8..35).map(|b| !b).collect();
    assert_eq!(xored.to_vec(), flipped);
    store_bytes(&mut buf, 3, &xored);
    let mut after: Vec<u8> = (0u8..40).collect();
    after[3..35].copy_from_slice(&flipped);
    assert_eq!(buf, after);
}

#[test]
fn int_block_load_and_store() {
    let mut buf: Vec<i32> = (0..12).collect();
    let block = load_ints(&buf, 2);
    assert_eq!(block, [2, 3, 4, 5, 6, 7, 8, 9]);
    store_ints(&mut buf, 4, &[-1, -2, -3, -4, -5, -6, -7, -8]);
    assert_eq!(buf, vec![0, 1, 2, 3, -1, -2, -3, -4, -5, -6, -7, -8]);
}

#[test]
fn int_lane_arithmetic() {
    let x = [1, -1, i32::MAX, i32::MIN, 0, 100, 96, 97];
    let y = [2, -1, 1, -1, 0, -100, 1, 97];
    assert_eq!(add_ints(&x, &y), [3, -2, i32::MIN, i32::MAX, 0, 0, 97, 194]);
    assert_eq!(sub_ints(&x, &y), [-1, 0, i32::MAX - 1, i32::MIN + 1, 0, 200, 95, 0]);
    assert_eq!(sub_ints(&[i32::MIN; 8], &[1; 8]), [i32::MAX; 8]);
}

#[test]
fn int_lane_compare_and_mask() {
    let x = [1, -1, 5, 5, 0, i32::MAX, i32::MIN, 97];
    let y = [0, 0, 5, 4, 0, i32::MIN, i32::MAX, 96];
    let mask = greater_than_ints(&x, &y);
    assert_eq!(mask, [-1, 0, 0, -1, 0, -1, 0, -1]);
    assert_eq!(and_ints(&broadcast_ints(97), &mask), [97, 0, 0, 97, 0, 97, 0, 97]);
    assert_eq!(and_ints(&[0x0F0F; 8], &[0x00FF; 8]), [0x000F; 8]);
}

#[test]
fn word_broadcast_repeats_the_key() {
    assert_eq!(broadcast_word(0xAF), 0xAFAF_AFAF_AFAF_AFAF);
    assert_eq!(broadcast_word(0x00), 0);
    assert_eq!(broadcast_word(0x01), 0x0101_0101_0101_0101);
    assert_eq!(broadcast_word(0xFF), u64::MAX);
    for key in 0u8..=255 {
        assert_eq!(broadcast_word(key), u64::from_le_bytes([key; 8]));
    }
}

#[test]
fn word_load_is_little_endian() {
    let buf = [0xEEu8, 0x01, 0x02, 0x03, 0x04, 0x05, 0x06, 0x07, 0x08, 0xEE];
    assert_eq!(load_word(&buf, 1), 0x0807_0605_0403_0201);
    assert_eq!(load_word(&buf, 0), 0x0706_0504_0302_01EE);
}

#[test]
fn word_store_is_little_endian() {
    let mut buf = [0xEEu8; 11];
    store_word(&mut buf, 2, 0x0807_0605_0403_0201);
    assert_eq!(buf, [0xEE, 0xEE, 1, 2, 3, 4, 5, 6, 7, 8, 0xEE]);
}

#[test]
fn word_store_then_load_round_trips() {
    let mut buf = [0u8; 16];
    for &w in [0u64, 1, u64::MAX, 0x0123_4567_89AB_CDEF, 1 << 63].iter() {
        store_word(&mut buf, 5, w);
        assert_eq!(load_word(&buf, 5), w);
        assert_eq!(&buf[5..13], &w.to_le_bytes()[..]);
    }
}
