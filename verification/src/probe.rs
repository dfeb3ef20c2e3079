//! The trivial arithmetic probe: the cheapest real computation a host can
//! ask for, used as the baseline for call latency.

use vstd::prelude::*;
use jni::sys::jlong;

verus! {

/// The value of `x` reduced into the range of `i64` by two's complement
/// wrap-around.
pub open spec fn wrap_i64(x: int) -> int {
    if x > i64::MAX as int {
        x - 0x1_0000_0000_0000_0000
    } else if x < i64::MIN as int {
        x + 0x1_0000_0000_0000_0000
    } else {
        x
    }
}

/// Returns the sum of `a` and `b`.
///
/// The sum is exact whenever it fits in 64 bits. At the signed-overflow
/// boundary the probe wraps around in two's complement instead of failing,
/// so it is total and never panics.
pub fn bench_add_numbers(a: i64, b: i64) -> (sum: i64)
    ensures
        sum as int == wrap_i64(a + b),
        i64::MIN <= a + b <= i64::MAX ==> sum as int == a + b,
{
    a.wrapping_add(b)
}

/// The same addition as [`bench_add_numbers`], on the 64-bit integers of
/// the managed-runtime bridge. The bridge's environment and class handles
/// play no part in the sum and are not taken.
pub fn jni_add_numbers_impl(a: jlong, b: jlong) -> (sum: jlong)
    ensures
        sum as int == wrap_i64(a + b),
        i64::MIN <= a + b <= i64::MAX ==> sum as int == a + b,
{
    bench_add_numbers(a, b)
}

} // verus!
