//! Eight bytes handled as one 64-bit machine word, little-endian: byte `i`
//! of the buffer is bits `8*i .. 8*i+8` of the word.

use vstd::prelude::*;

verus! {

/// The eight bytes of `w`, least significant first.
pub open spec fn bytes_of(w: u64) -> Seq<u8> {
    seq![
        (w & 0xff) as u8,
        ((w >> 8) & 0xff) as u8,
        ((w >> 16) & 0xff) as u8,
        ((w >> 24) & 0xff) as u8,
        ((w >> 32) & 0xff) as u8,
        ((w >> 40) & 0xff) as u8,
        ((w >> 48) & 0xff) as u8,
        ((w >> 56) & 0xff) as u8,
    ]
}

/// The word whose bytes, least significant first, are `b0` to `b7`.
pub open spec fn pack(b0: u8, b1: u8, b2: u8, b3: u8, b4: u8, b5: u8, b6: u8, b7: u8) -> u64 {
    (b0 as u64) | (b1 as u64) << 8 | (b2 as u64) << 16 | (b3 as u64) << 24 | (b4 as u64) << 32 | (
    b5 as u64) << 40 | (b6 as u64) << 48 | (b7 as u64) << 56
}

/// Packing eight bytes and taking the word apart again gives the same bytes.
pub proof fn lemma_bytes_of_pack(b0: u8, b1: u8, b2: u8, b3: u8, b4: u8, b5: u8, b6: u8, b7: u8)
    ensures
        bytes_of(pack(b0, b1, b2, b3, b4, b5, b6, b7)) == seq![b0, b1, b2, b3, b4, b5, b6, b7],
{
    let w = pack(b0, b1, b2, b3, b4, b5, b6, b7);
    assert((w & 0xff) as u8 == b0 && ((w >> 8) & 0xff) as u8 == b1 && ((w >> 16) & 0xff) as u8
        == b2 && ((w >> 24) & 0xff) as u8 == b3) by (bit_vector)
        requires
            w == (b0 as u64) | (b1 as u64) << 8 | (b2 as u64) << 16 | (b3 as u64) << 24 | (
            b4 as u64) << 32 | (b5 as u64) << 40 | (b6 as u64) << 48 | (b7 as u64) << 56,
    ;
    assert(((w >> 32) & 0xff) as u8 == b4 && ((w >> 40) & 0xff) as u8 == b5 && ((w >> 48)
        & 0xff) as u8 == b6 && ((w >> 56) & 0xff) as u8 == b7) by (bit_vector)
        requires
            w == (b0 as u64) | (b1 as u64) << 8 | (b2 as u64) << 16 | (b3 as u64) << 24 | (
            b4 as u64) << 32 | (b5 as u64) << 40 | (b6 as u64) << 48 | (b7 as u64) << 56,
    ;
    assert(bytes_of(w) =~= seq![b0, b1, b2, b3, b4, b5, b6, b7]);
}

/// XOR of two words is XOR of their bytes, position by position.
pub proof fn lemma_bytes_of_xor(w: u64, k: u64)
    ensures
        forall|i: int| 0 <= i < 8 ==> bytes_of(w ^ k)[i] == bytes_of(w)[i] ^ bytes_of(k)[i],
{
    assert(((w ^ k) & 0xff) as u8 == (w & 0xff) as u8 ^ (k & 0xff) as u8) by (bit_vector);
    assert((((w ^ k) >> 8) & 0xff) as u8 == ((w >> 8) & 0xff) as u8 ^ ((k >> 8) & 0xff) as u8)
        by (bit_vector);
    assert((((w ^ k) >> 16) & 0xff) as u8 == ((w >> 16) & 0xff) as u8 ^ ((k >> 16) & 0xff) as u8)
        by (bit_vector);
    assert((((w ^ k) >> 24) & 0xff) as u8 == ((w >> 24) & 0xff) as u8 ^ ((k >> 24) & 0xff) as u8)
        by (bit_vector);
    assert((((w ^ k) >> 32) & 0xff) as u8 == ((w >> 32) & 0xff) as u8 ^ ((k >> 32) & 0xff) as u8)
        by (bit_vector);
    assert((((w ^ k) >> 40) & 0xff) as u8 == ((w >> 40) & 0xff) as u8 ^ ((k >> 40) & 0xff) as u8)
        by (bit_vector);
    assert((((w ^ k) >> 48) & 0xff) as u8 == ((w >> 48) & 0xff) as u8 ^ ((k >> 48) & 0xff) as u8)
        by (bit_vector);
    assert((((w ^ k) >> 56) & 0xff) as u8 == ((w >> 56) & 0xff) as u8 ^ ((k >> 56) & 0xff) as u8)
        by (bit_vector);
}

/// The word whose eight byte lanes all hold `key`.
pub fn broadcast_word(key: u8) -> (w: u64)
    ensures
        w == pack(key, key, key, key, key, key, key, key),
        forall|i: int| 0 <= i < 8 ==> bytes_of(w)[i] == key,
{
    let k: u64 = key as u64;
    proof {
        lemma_bytes_of_pack(key, key, key, key, key, key, key, key);
    }
    k | k << 8 | k << 16 | k << 24 | k << 32 | k << 40 | k << 48 | k << 56
}

/// Loads the eight bytes of `data` that start at offset `at` as one word.
pub fn load_word(data: &[u8], at: usize) -> (w: u64)
    requires
        at + 8 <= data@.len(),
    ensures
        bytes_of(w) == data@.subrange(at as int, at + 8),
{
    let len: usize = data.len();
    let b0: u8 = data[at];
    let b1: u8 = data[at + 1];
    let b2: u8 = data[at + 2];
    let b3: u8 = data[at + 3];
    let b4: u8 = data[at + 4];
    let b5: u8 = data[at + 5];
    let b6: u8 = data[at + 6];
    let b7: u8 = data[at + 7];
    proof {
        lemma_bytes_of_pack(b0, b1, b2, b3, b4, b5, b6, b7);
        assert(seq![b0, b1, b2, b3, b4, b5, b6, b7] =~= data@.subrange(at as int, at + 8));
    }
    (b0 as u64) | (b1 as u64) << 8 | (b2 as u64) << 16 | (b3 as u64) << 24 | (b4 as u64) << 32 | (
    b5 as u64) << 40 | (b6 as u64) << 48 | (b7 as u64) << 56
}

/// Stores the eight bytes of `w` over the bytes of `data` that start at
/// offset `at`; every other byte of `data` keeps its value.
pub fn store_word(data: &mut [u8], at: usize, w: u64)
    requires
        at + 8 <= old(data)@.len(),
    ensures
        final(data)@.len() == old(data)@.len(),
        forall|k: int| 0 <= k < old(data)@.len() ==> final(data)@[k] == (if at <= k < at + 8 {
            bytes_of(w)[k - at]
        } else {
            old(data)@[k]
        }),
{
    let len: usize = data.len();
    data[at] = (w & 0xff) as u8;
    data[at + 1] = ((w >> 8) & 0xff) as u8;
    data[at + 2] = ((w >> 16) & 0xff) as u8;
    data[at + 3] = ((w >> 24) & 0xff) as u8;
    data[at + 4] = ((w >> 32) & 0xff) as u8;
    data[at + 5] = ((w >> 40) & 0xff) as u8;
    data[at + 6] = ((w >> 48) & 0xff) as u8;
    data[at + 7] = ((w >> 56) & 0xff) as u8;
}

} // verus!
