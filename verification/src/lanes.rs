//! Fixed-width lane-parallel operations: a block of 32 byte lanes or of
//! 8 lanes of 32-bit integers is loaded from a buffer at any offset,
//! combined lane by lane, and stored back.

use vstd::prelude::*;

verus! {

/// Number of byte lanes in one block.
pub const BYTE_LANES: usize = 32;

/// Number of 32-bit integer lanes in one block.
pub const INT_LANES: usize = 8;

/// A block whose 32 lanes all hold `key`.
pub fn broadcast_bytes(key: u8) -> (v: [u8; 32])
    ensures
        forall|j: int| 0 <= j < 32 ==> v@[j] == key,
{
    [key; 32]
}

/// Loads the 32 bytes of `data` that start at offset `at`; the offset need
/// not be aligned.
pub fn load_bytes(data: &[u8], at: usize) -> (v: [u8; 32])
    requires
        at + 32 <= data@.len(),
    ensures
        v@ == data@.subrange(at as int, at + 32),
{
    let len: usize = data.len();
    let mut v: [u8; 32] = [0u8; 32];
    let mut j: usize = 0;
    while j < 32
        invariant
            j <= 32,
            at + 32 <= len,
            len == data@.len(),
            forall|k: int| 0 <= k < j ==> v@[k] == data@[at + k],
        decreases 32 - j,
    {
        v[j] = data[at + j];
        j += 1;
    }
    assert(v@ =~= data@.subrange(at as int, at + 32));
    v
}

/// Lane-wise XOR of two byte blocks.
pub fn xor_bytes(x: &[u8; 32], y: &[u8; 32]) -> (v: [u8; 32])
    ensures
        forall|j: int| 0 <= j < 32 ==> v@[j] == x@[j] ^ y@[j],
{
    let mut v: [u8; 32] = [0u8; 32];
    let mut j: usize = 0;
    while j < 32
        invariant
            j <= 32,
            forall|k: int| 0 <= k < j ==> v@[k] == x@[k] ^ y@[k],
        decreases 32 - j,
    {
        v[j] = x[j] ^ y[j];
        j += 1;
    }
    v
}

/// Stores the block `v` over the 32 bytes of `data` that start at offset
/// `at`; every other byte of `data` keeps its value.
pub fn store_bytes(data: &mut [u8], at: usize, v: &[u8; 32])
    requires
        at + 32 <= old(data)@.len(),
    ensures
        final(data)@.len() == old(data)@.len(),
        forall|k: int| 0 <= k < old(data)@.len() ==> final(data)@[k] == (if at <= k < at + 32 {
            v@[k - at]
        } else {
            old(data)@[k]
        }),
{
    let len: usize = data.len();
    let mut j: usize = 0;
    while j < 32
        invariant
            j <= 32,
            at + 32 <= len,
            len == old(data)@.len(),
            data@.len() == old(data)@.len(),
            forall|k: int| 0 <= k < old(data)@.len() ==> data@[k] == (if at <= k < at + j {
                v@[k - at]
            } else {
                old(data)@[k]
            }),
        decreases 32 - j,
    {
        data[at + j] = v[j];
        j += 1;
    }
}

/// The value of `x` reduced into the range of `i32` by two's complement
/// wrap-around, as lane arithmetic does it.
pub open spec fn wrap_i32(x: int) -> int {
    if x > i32::MAX as int {
        x - 0x1_0000_0000
    } else if x < i32::MIN as int {
        x + 0x1_0000_0000
    } else {
        x
    }
}

/// A block whose 8 lanes all hold `x`.
pub fn broadcast_ints(x: i32) -> (v: [i32; 8])
    ensures
        forall|j: int| 0 <= j < 8 ==> v@[j] == x,
{
    [x; 8]
}

/// Loads the 8 integers of `data` that start at index `at`; the index need
/// not be aligned.
pub fn load_ints(data: &[i32], at: usize) -> (v: [i32; 8])
    requires
        at + 8 <= data@.len(),
    ensures
        v@ == data@.subrange(at as int, at + 8),
{
    let len: usize = data.len();
    let mut v: [i32; 8] = [0i32; 8];
    let mut j: usize = 0;
    while j < 8
        invariant
            j <= 8,
            at + 8 <= len,
            len == data@.len(),
            forall|k: int| 0 <= k < j ==> v@[k] == data@[at + k],
        decreases 8 - j,
    {
        v[j] = data[at + j];
        j += 1;
    }
    assert(v@ =~= data@.subrange(at as int, at + 8));
    v
}

/// Lane-wise sum of two integer blocks; a lane that overflows wraps around.
pub fn add_ints(x: &[i32; 8], y: &[i32; 8]) -> (v: [i32; 8])
    ensures
        forall|j: int| 0 <= j < 8 ==> v@[j] == wrap_i32(x@[j] + y@[j]),
{
    let mut v: [i32; 8] = [0i32; 8];
    let mut j: usize = 0;
    while j < 8
        invariant
            j <= 8,
            forall|k: int| 0 <= k < j ==> v@[k] == wrap_i32(x@[k] + y@[k]),
        decreases 8 - j,
    {
        v[j] = x[j].wrapping_add(y[j]);
        j += 1;
    }
    v
}

/// Lane-wise difference of two integer blocks; a lane that overflows wraps
/// around.
pub fn sub_ints(x: &[i32; 8], y: &[i32; 8]) -> (v: [i32; 8])
    ensures
        forall|j: int| 0 <= j < 8 ==> v@[j] == wrap_i32(x@[j] - y@[j]),
{
    let mut v: [i32; 8] = [0i32; 8];
    let mut j: usize = 0;
    while j < 8
        invariant
            j <= 8,
            forall|k: int| 0 <= k < j ==> v@[k] == wrap_i32(x@[k] - y@[k]),
        decreases 8 - j,
    {
        v[j] = x[j].wrapping_sub(y[j]);
        j += 1;
    }
    v
}

/// Lane-wise signed greater-than: a lane of the result has all bits set
/// (the value -1) where `x` is greater than `y`, and is 0 elsewhere.
pub fn greater_than_ints(x: &[i32; 8], y: &[i32; 8]) -> (mask: [i32; 8])
    ensures
        forall|j: int| 0 <= j < 8 ==> mask@[j] == (if x@[j] > y@[j] {
            -1i32
        } else {
            0i32
        }),
{
    let mut mask: [i32; 8] = [0i32; 8];
    let mut j: usize = 0;
    while j < 8
        invariant
            j <= 8,
            forall|k: int| 0 <= k < j ==> mask@[k] == (if x@[k] > y@[k] {
                -1i32
            } else {
                0i32
            }),
        decreases 8 - j,
    {
        mask[j] = if x[j] > y[j] {
            -1
        } else {
            0
        };
        j += 1;
    }
    mask
}

/// Lane-wise bitwise AND of two integer blocks.
pub fn and_ints(x: &[i32; 8], y: &[i32; 8]) -> (v: [i32; 8])
    ensures
        forall|j: int| 0 <= j < 8 ==> v@[j] == x@[j] & y@[j],
{
    let mut v: [i32; 8] = [0i32; 8];
    let mut j: usize = 0;
    while j < 8
        invariant
            j <= 8,
            forall|k: int| 0 <= k < j ==> v@[k] == x@[k] & y@[k],
        decreases 8 - j,
    {
        v[j] = x[j] & y[j];
        j += 1;
    }
    v
}

/// Stores the block `v` over the 8 integers of `data` that start at index
/// `at`; every other element of `data` keeps its value.
pub fn store_ints(data: &mut [i32], at: usize, v: &[i32; 8])
    requires
        at + 8 <= old(data)@.len(),
    ensures
        final(data)@.len() == old(data)@.len(),
        forall|k: int| 0 <= k < old(data)@.len() ==> final(data)@[k] == (if at <= k < at + 8 {
            v@[k - at]
        } else {
            old(data)@[k]
        }),
{
    let len: usize = data.len();
    let mut j: usize = 0;
    while j < 8
        invariant
            j <= 8,
            at + 8 <= len,
            len == old(data)@.len(),
            data@.len() == old(data)@.len(),
            forall|k: int| 0 <= k < old(data)@.len() ==> data@[k] == (if at <= k < at + j {
                v@[k - at]
            } else {
                old(data)@[k]
            }),
        decreases 8 - j,
    {
        data[at + j] = v[j];
        j += 1;
    }
}

} // verus!
