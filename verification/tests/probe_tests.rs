use native_benchmark::probe::{bench_add_numbers, jni_add_numbers_impl};

#[test]
fn probe_adds_small_values() {
    assert_eq!(bench_add_numbers(0, 0), 0);
    assert_eq!(bench_add_numbers(2, 3), 5);
    assert_eq!(bench_add_numbers(-7, 3), -4);
    assert_eq!(bench_add_numbers(-7, -8), -15);
    assert_eq!(bench_add_numbers(123_456_789_012, 987_654_321_098), 1_111_111_110_110);
}

#[test]
fn probe_is_exact_up_to_the_boundary() {
    assert_eq!(bench_add_numbers(i64::MAX, 0), i64::MAX);
    assert_eq!(bench_add_numbers(i64::MAX - 1, 1), i64::MAX);
    assert_eq!(bench_add_numbers(i64::MIN, 0), i64::MIN);
    assert_eq!(bench_add_numbers(i64::MIN + 1, -1), i64::MIN);
    assert_eq!(bench_add_numbers(i64::MAX, i64::MIN), -1);
}

#[test]
fn probe_wraps_past_the_boundary() {
    assert_eq!(bench_add_numbers(i64::MAX, 1), i64::MIN);
    assert_eq!(bench_add_numbers(i64::MIN, -1), i64::MAX);
    assert_eq!(bench_add_numbers(i64::MAX, i64::MAX), -2);
    assert_eq!(bench_add_numbers(i64::MIN, i64::MIN), 0);
}

#[test]
fn bridge_probe_matches_the_plain_probe() {
    let values: [i64; 7] = [0, 1, -1, 42, i64::MAX, i64::MIN, -9_000_000_000];
    for &a in values.iter() {
        for &b in values.iter() {
            assert_eq!(jni_add_numbers_impl(a, b), bench_add_numbers(a, b));
            assert_eq!(jni_add_numbers_impl(a, b), a.wrapping_add(b));
        }
    }
}
