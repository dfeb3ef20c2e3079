//! Element-wise modular addition of two integer buffers, `a[i] = (a[i] +
//! b[i]) mod q`, in scalar, branchless and lane-parallel form.
//!
//! The operands are taken as already reduced, so the sum lies below `2q`
//! and one subtraction of `q` brings it back into `[0, q)`.

use vstd::prelude::*;
use crate::lanes::{
    add_ints, and_ints, broadcast_ints, greater_than_ints, load_ints, store_ints, sub_ints,
    INT_LANES,
};

verus! {

/// One reduction step: `sum - q` where `sum` has reached `q`, else `sum`.
pub open spec fn reduce_once(sum: int, q: int) -> int {
    if sum >= q {
        sum - q
    } else {
        sum
    }
}

/// What the kernels ask of their caller: a positive modulus, buffers of
/// equal length, every operand in `[0, q)`, and every sum `a[i] + b[i]`
/// within the 32-bit range in which it is computed.
pub open spec fn operands_reduced(a: Seq<i32>, b: Seq<i32>, q: i32) -> bool {
    &&& q > 0
    &&& a.len() == b.len()
    &&& forall|i: int|
        0 <= i < a.len() ==> 0 <= #[trigger] a[i] < q && 0 <= b[i] < q && a[i] + b[i] <= i32::MAX
}

/// The buffer `a` after the addition: element `i` is `a[i] + b[i]`, reduced
/// once by `q`.
pub open spec fn mod_added(a: Seq<i32>, b: Seq<i32>, q: i32) -> Seq<i32> {
    Seq::new(a.len(), |i: int| reduce_once(a[i] + b[i], q as int) as i32)
}

/// The buffer `a` with its first `n` elements added and reduced and the
/// rest untouched.
spec fn mod_added_upto(a: Seq<i32>, b: Seq<i32>, q: i32, n: int) -> Seq<i32> {
    Seq::new(
        a.len(),
        |i: int|
            if i < n {
                reduce_once(a[i] + b[i], q as int) as i32
            } else {
                a[i]
            },
    )
}

/// With a modulus of at most `2^30` no sum of two operands below it leaves
/// the 32-bit range: operands in `[0, q)` are then all that is asked.
pub proof fn lemma_small_modulus_fits(a: Seq<i32>, b: Seq<i32>, q: i32)
    requires
        0 < q <= 0x4000_0000,
        a.len() == b.len(),
        forall|i: int| 0 <= i < a.len() ==> 0 <= #[trigger] a[i] < q && 0 <= b[i] < q,
    ensures
        operands_reduced(a, b, q),
{
}

/// Tells whether `a`, `b` and `q` meet what the kernels ask of their caller,
/// so that a caller who cannot know may test before it calls.
pub fn operands_are_reduced(a: &[i32], b: &[i32], q: i32) -> (ok: bool)
    ensures
        ok == operands_reduced(a@, b@, q),
{
    let len: usize = a.len();
    if q <= 0 || b.len() != len {
        return false;
    }
    let mut i: usize = 0;
    while i < len
        invariant
            i <= len,
            q > 0,
            len == a@.len(),
            len == b@.len(),
            forall|k: int|
                0 <= k < i ==> 0 <= #[trigger] a@[k] < q && 0 <= b@[k] < q && a@[k] + b@[k]
                    <= i32::MAX,
        decreases len - i,
    {
        let x: i32 = a[i];
        let y: i32 = b[i];
        if x < 0 || x >= q || y < 0 || y >= q || x > i32::MAX - y {
            assert(!(0 <= a@[i as int] < q && 0 <= b@[i as int] < q && a@[i as int] + b@[i as int]
                <= i32::MAX));
            return false;
        }
        i += 1;
    }
    true
}

/// For a sum of two reduced operands, one reduction step is the remainder
/// modulo `q`.
pub proof fn lemma_reduce_once_is_mod(x: int, y: int, q: int)
    requires
        q > 0,
        0 <= x < q,
        0 <= y < q,
    ensures
        reduce_once(x + y, q) == (x + y) % q,
        0 <= reduce_once(x + y, q) < q,
{
    let s = x + y;
    if s >= q {
        assert((s - q) % q == s - q) by (nonlinear_arith)
            requires
                0 <= s - q < q,
        ;
        assert(s % q == (s - q) % q) by (nonlinear_arith)
            requires
                q > 0,
        ;
    } else {
        assert(s % q == s) by (nonlinear_arith)
            requires
                0 <= s < q,
        ;
    }
}

/// On reduced operands every element of the result is the remainder of the
/// exact sum modulo `q`, and so lies in `[0, q)` again.
pub proof fn lemma_mod_added_is_mod(a: Seq<i32>, b: Seq<i32>, q: i32)
    requires
        operands_reduced(a, b, q),
    ensures
        mod_added(a, b, q).len() == a.len(),
        forall|i: int|
            0 <= i < a.len() ==> #[trigger] mod_added(a, b, q)[i] == (a[i] + b[i]) % (q as int),
        forall|i: int| 0 <= i < a.len() ==> 0 <= #[trigger] mod_added(a, b, q)[i] < q,
{
    assert forall|i: int| 0 <= i < a.len() implies #[trigger] mod_added(a, b, q)[i] == (a[i]
        + b[i]) % (q as int) && 0 <= mod_added(a, b, q)[i] < q by {
        assert(0 <= a[i] < q);
        lemma_reduce_once_is_mod(a[i] as int, b[i] as int, q as int);
    }
}

/// Scalar modular-add kernel: for each index, adds `b[i]` to `a[i]` and
/// subtracts `q` once if the sum has reached it. `b` is only read.
pub fn poly_modular_add(a: &mut [i32], b: &[i32], q: i32)
    requires
        operands_reduced(old(a)@, b@, q),
    ensures
        final(a)@ == mod_added(old(a)@, b@, q),
        forall|i: int|
            0 <= i < old(a)@.len() ==> #[trigger] final(a)@[i] == (old(a)@[i] + b@[i]) % (q as int),
{
    let len: usize = a.len();
    let mut i: usize = 0;
    while i < len
        invariant
            i <= len,
            len == old(a)@.len(),
            operands_reduced(old(a)@, b@, q),
            a@ == mod_added_upto(old(a)@, b@, q, i as int),
        decreases len - i,
    {
        assert(0 <= old(a)@[i as int] < q);
        let sum: i32 = a[i] + b[i];
        a[i] = if sum >= q {
            sum - q
        } else {
            sum
        };
        i += 1;
        assert(a@ =~= mod_added_upto(old(a)@, b@, q, i as int));
    }
    assert(a@ =~= mod_added(old(a)@, b@, q));
    proof {
        lemma_mod_added_is_mod(old(a)@, b@, q);
    }
}

/// Branchless modular-add kernel: the same result as [`poly_modular_add`],
/// with the conditional subtraction replaced by a comparison that yields 0
/// or 1, multiplied by `q`.
pub fn bless_poly_modular_add(a: &mut [i32], b: &[i32], q: i32)
    requires
        operands_reduced(old(a)@, b@, q),
    ensures
        final(a)@ == mod_added(old(a)@, b@, q),
        forall|i: int|
            0 <= i < old(a)@.len() ==> #[trigger] final(a)@[i] == (old(a)@[i] + b@[i]) % (q as int),
{
    let len: usize = a.len();
    let mut i: usize = 0;
    while i < len
        invariant
            i <= len,
            len == old(a)@.len(),
            operands_reduced(old(a)@, b@, q),
            a@ == mod_added_upto(old(a)@, b@, q, i as int),
        decreases len - i,
    {
        assert(0 <= old(a)@[i as int] < q);
        let sum: i32 = a[i] + b[i];
        let fired: i32 = (sum >= q) as i32;
        assert(fired * q == (if sum >= q {
            q as int
        } else {
            0
        })) by (nonlinear_arith)
            requires
                fired == (if sum >= q {
                    1int
                } else {
                    0
                }),
        ;
        let sub: i32 = fired * q;
        a[i] = sum - sub;
        i += 1;
        assert(a@ =~= mod_added_upto(old(a)@, b@, q, i as int));
    }
    assert(a@ =~= mod_added(old(a)@, b@, q));
    proof {
        lemma_mod_added_is_mod(old(a)@, b@, q);
    }
}

/// A lane of `q` under an all-ones mask is `q`; under a zero mask it is 0.
proof fn lemma_and_mask(q: i32)
    ensures
        q & -1i32 == q,
        q & 0i32 == 0,
{
    assert(q & -1i32 == q) by (bit_vector);
    assert(q & 0i32 == 0) by (bit_vector);
}

/// Vector modular-add kernel: the same result as [`poly_modular_add`],
/// computed 8 lanes at a time with a scalar tail.
///
/// Each block is the lane-wise sum of `a` and `b`; a signed greater-than
/// against `q - 1` marks the lanes that have reached `q`; the mask, AND-ed
/// with a broadcast `q`, is the subtrahend of each lane. The lanes are plain
/// arrays: the kernel runs on every processor and probes no capability.
pub fn poly_add_avx2(a: &mut [i32], b: &[i32], q: i32)
    requires
        operands_reduced(old(a)@, b@, q),
    ensures
        final(a)@ == mod_added(old(a)@, b@, q),
        forall|i: int|
            0 <= i < old(a)@.len() ==> #[trigger] final(a)@[i] == (old(a)@[i] + b@[i]) % (q as int),
{
    let len: usize = a.len();
    let q_vec = broadcast_ints(q);
    let mut i: usize = 0;
    while len - i >= INT_LANES
        invariant
            i <= len,
            len == old(a)@.len(),
            operands_reduced(old(a)@, b@, q),
            forall|j: int| 0 <= j < 8 ==> q_vec@[j] == q,
            a@ == mod_added_upto(old(a)@, b@, q, i as int),
        decreases len - i,
    {
        let a_val = load_ints(a, i);
        let b_val = load_ints(b, i);
        let sum = add_ints(&a_val, &b_val);
        let q_minus_1 = broadcast_ints(q - 1);
        let mask = greater_than_ints(&sum, &q_minus_1);
        let sub = and_ints(&q_vec, &mask);
        let res = sub_ints(&sum, &sub);
        proof {
            lemma_and_mask(q);
            assert forall|j: int| 0 <= j < 8 implies res@[j] == reduce_once(
                old(a)@[i + j] + b@[i + j],
                q as int,
            ) by {
                assert(0 <= old(a)@[i + j] < q);
                assert(a_val@[j] == old(a)@[i + j]);
                assert(b_val@[j] == b@[i + j]);
            }
        }
        store_ints(a, i, &res);
        i += INT_LANES;
        assert(a@ =~= mod_added_upto(old(a)@, b@, q, i as int));
    }
    while i < len
        invariant
            i <= len,
            len == old(a)@.len(),
            operands_reduced(old(a)@, b@, q),
            a@ == mod_added_upto(old(a)@, b@, q, i as int),
        decreases len - i,
    {
        assert(0 <= old(a)@[i as int] < q);
        let sum: i32 = a[i] + b[i];
        a[i] = if sum >= q {
            sum - q
        } else {
            sum
        };
        i += 1;
        assert(a@ =~= mod_added_upto(old(a)@, b@, q, i as int));
    }
    assert(a@ =~= mod_added(old(a)@, b@, q));
    proof {
        lemma_mod_added_is_mod(old(a)@, b@, q);
    }
}

/// The three kernels agree: on reduced operands the scalar, the branchless
/// and the vector kernel leave the same elements in `a`, each the remainder
/// of the exact sum modulo `q`.
pub proof fn lemma_mod_add_variants_agree(
    a: Seq<i32>,
    b: Seq<i32>,
    q: i32,
    scalar: Seq<i32>,
    branchless: Seq<i32>,
    vector: Seq<i32>,
)
    requires
        operands_reduced(a, b, q),
        scalar == mod_added(a, b, q),
        branchless == mod_added(a, b, q),
        vector == mod_added(a, b, q),
    ensures
        scalar == branchless,
        branchless == vector,
        scalar.len() == a.len(),
        forall|i: int| 0 <= i < a.len() ==> #[trigger] scalar[i] == (a[i] + b[i]) % (q as int),
{
    lemma_mod_added_is_mod(a, b, q);
}

} // verus!
