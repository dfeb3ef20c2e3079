//! Byte-wise masking of a caller-owned buffer with a one-byte key, in three
//! traversal strategies that all produce the same bytes.

use vstd::prelude::*;
use crate::lanes::{broadcast_bytes, load_bytes, store_bytes, xor_bytes, BYTE_LANES};
use crate::words::{broadcast_word, bytes_of, lemma_bytes_of_xor, load_word, store_word};

verus! {

/// The buffer `s` with every byte replaced by `byte XOR key`.
pub open spec fn masked(s: Seq<u8>, key: u8) -> Seq<u8> {
    Seq::new(s.len(), |i: int| s[i] ^ key)
}

/// The buffer `s` with its first `n` bytes masked and the rest untouched:
/// what a kernel has written after finishing `n` bytes.
spec fn masked_upto(s: Seq<u8>, key: u8, n: int) -> Seq<u8> {
    Seq::new(s.len(), |i: int| if i < n { s[i] ^ key } else { s[i] })
}

/// Masking is an involution: masking a buffer twice with the same key gives
/// the buffer back.
pub proof fn lemma_mask_involution(s: Seq<u8>, key: u8)
    ensures
        masked(masked(s, key), key) == s,
{
    assert forall|i: int| 0 <= i < s.len() implies masked(masked(s, key), key)[i] == s[i] by {
        let x: u8 = s[i];
        assert((x ^ key) ^ key == x) by (bit_vector);
    }
    assert(masked(masked(s, key), key) =~= s);
}

/// Scalar masking kernel: replaces every byte of `data` by `byte XOR key`,
/// one byte at a time. An empty buffer is left as it is.
pub fn process_secure_vector(data: &mut [u8], key: u8)
    ensures
        final(data)@ == masked(old(data)@, key),
{
    let len: usize = data.len();
    let mut i: usize = 0;
    while i < len
        invariant
            i <= len,
            len == old(data)@.len(),
            data@ == masked_upto(old(data)@, key, i as int),
        decreases len - i,
    {
        data[i] = data[i] ^ key;
        i += 1;
        assert(data@ =~= masked_upto(old(data)@, key, i as int));
    }
    assert(data@ =~= masked(old(data)@, key));
}

/// The address at which the buffer starts, as `<[u8]>::as_ptr` reports it.
/// Nothing is claimed of the number: it differs from run to run.
#[verifier::external_body]
fn start_address(data: &[u8]) -> (addr: usize) {
    data.as_ptr() as usize
}

/// Whether the address `addr` lies on an 8-byte boundary.
pub open spec fn word_aligned(addr: int) -> bool {
    addr % 8 == 0
}

/// How many leading bytes of a buffer of `len` bytes at address `addr` are
/// handled singly: the distance from `addr` to the next 8-byte boundary,
/// or the whole buffer where it ends before that.
pub fn leading_bytes(addr: usize, len: usize) -> (n: usize)
    ensures
        n <= len,
        n < 8,
        n < len ==> word_aligned(addr + n),
        forall|m: int| 0 <= m < n ==> !#[trigger] word_aligned(addr + m),
{
    let gap: usize = (8 - addr % 8) % 8;
    if gap < len {
        gap
    } else {
        len
    }
}

/// Word-parallel masking kernel: the same masking as
/// [`process_secure_vector`], with the aligned middle of the buffer done
/// eight bytes at a time.
///
/// Leading bytes are masked singly until the address reaches an 8-byte
/// boundary or the buffer ends; then whole words are XOR-ed against the key
/// broadcast into all eight byte lanes; then the fewer than eight trailing
/// bytes are masked singly. Where the buffer lies in memory decides only how
/// the work is divided, never the bytes that result.
pub fn swar_process_secure_vector(data: &mut [u8], key: u8)
    ensures
        final(data)@ == masked(old(data)@, key),
{
    let addr: usize = start_address(data);
    mask_words_from(data, addr, key);
}

/// The word-parallel traversal for a buffer that starts at address `addr`.
///
/// The result is the masked buffer whatever `addr` is.
pub fn mask_words_from(data: &mut [u8], addr: usize, key: u8)
    ensures
        final(data)@ == masked(old(data)@, key),
{
    let len: usize = data.len();
    let head: usize = leading_bytes(addr, len);
    let mut offset: usize = 0;
    while offset < head
        invariant
            offset <= head <= len,
            len == old(data)@.len(),
            data@ == masked_upto(old(data)@, key, offset as int),
        decreases len - offset,
    {
        data[offset] = data[offset] ^ key;
        offset += 1;
        assert(data@ =~= masked_upto(old(data)@, key, offset as int));
    }

    let key64: u64 = broadcast_word(key);
    let len64: usize = (len - offset) / 8;
    let mut chunk: usize = 0;
    while chunk < len64
        invariant
            chunk <= len64,
            offset + 8 * len64 <= len,
            len == old(data)@.len(),
            forall|i: int| 0 <= i < 8 ==> bytes_of(key64)[i] == key,
            data@ == masked_upto(old(data)@, key, offset + 8 * chunk),
        decreases len64 - chunk,
    {
        let at: usize = offset + 8 * chunk;
        let word: u64 = load_word(data, at);
        proof {
            lemma_bytes_of_xor(word, key64);
        }
        store_word(data, at, word ^ key64);
        chunk += 1;
        assert(data@ =~= masked_upto(old(data)@, key, offset + 8 * chunk));
    }

    offset += len64 * 8;
    while offset < len
        invariant
            offset <= len,
            len == old(data)@.len(),
            data@ == masked_upto(old(data)@, key, offset as int),
        decreases len - offset,
    {
        data[offset] = data[offset] ^ key;
        offset += 1;
        assert(data@ =~= masked_upto(old(data)@, key, offset as int));
    }
    assert(data@ =~= masked(old(data)@, key));
}

/// Vector masking kernel: the same masking, done in blocks of 32 byte lanes
/// with a byte-at-a-time tail for what is left over.
///
/// The key is broadcast once over all lanes. While at least 32 bytes remain,
/// a block is loaded from any offset, XOR-ed lane-wise against the broadcast
/// key and stored back in place. The lanes are plain arrays: the kernel runs
/// on every processor and probes no capability.
pub fn process_vector_avx2(data: &mut [u8], key: u8)
    ensures
        final(data)@ == masked(old(data)@, key),
{
    let len: usize = data.len();
    let key_vec = broadcast_bytes(key);
    let mut i: usize = 0;
    while len - i >= BYTE_LANES
        invariant
            i <= len,
            len == old(data)@.len(),
            forall|j: int| 0 <= j < 32 ==> key_vec@[j] == key,
            data@ == masked_upto(old(data)@, key, i as int),
        decreases len - i,
    {
        let block = load_bytes(data, i);
        let xored = xor_bytes(&block, &key_vec);
        store_bytes(data, i, &xored);
        i += BYTE_LANES;
        assert(data@ =~= masked_upto(old(data)@, key, i as int));
    }
    while i < len
        invariant
            i <= len,
            len == old(data)@.len(),
            data@ == masked_upto(old(data)@, key, i as int),
        decreases len - i,
    {
        data[i] = data[i] ^ key;
        i += 1;
        assert(data@ =~= masked_upto(old(data)@, key, i as int));
    }
    assert(data@ =~= masked(old(data)@, key));
}

/// The three kernels agree: the bytes that the scalar, the word-parallel
/// and the vector kernel leave in a buffer are the same, for every buffer,
/// every key and every address at which the buffer may lie.
pub proof fn lemma_mask_variants_agree(
    input: Seq<u8>,
    key: u8,
    scalar: Seq<u8>,
    swar: Seq<u8>,
    vector: Seq<u8>,
)
    requires
        scalar == masked(input, key),
        swar == masked(input, key),
        vector == masked(input, key),
    ensures
        scalar == swar,
        swar == vector,
        scalar.len() == input.len(),
{
}

} // verus!
