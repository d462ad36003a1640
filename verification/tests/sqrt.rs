use bezier::sqrt::isqrt;

#[test]
fn roots_of_small_numbers() {
    let expected = [0u64, 1, 1, 1, 2, 2, 2, 2, 2, 3, 3, 3, 3, 3, 3, 3, 4, 4];
    for (n, r) in expected.iter().enumerate() {
        assert_eq!(isqrt(n as u128), *r, "root of {}", n);
    }
}

#[test]
fn roots_around_perfect_squares() {
    for r in [5u128, 1000, 65536, 655_360, 4_294_967_295, 4_294_967_296, 6_074_000_999] {
        assert_eq!(isqrt(r * r - 1), (r - 1) as u64);
        assert_eq!(isqrt(r * r), r as u64);
        assert_eq!(isqrt(r * r + 1), r as u64);
        assert_eq!(isqrt(r * r + 2 * r), r as u64);
        assert_eq!(isqrt(r * r + 2 * r + 1), (r + 1) as u64);
    }
}

#[test]
fn root_of_the_largest_input() {
    assert_eq!(isqrt(u128::MAX), u64::MAX);
    let top = u64::MAX as u128;
    assert_eq!(isqrt(top * top), u64::MAX);
    assert_eq!(isqrt(top * top - 1), u64::MAX - 1);
}

#[test]
fn root_brackets_its_argument() {
    let mut n: u128 = 1;
    for _ in 0..120 {
        let r = isqrt(n) as u128;
        assert!(r * r <= n);
        assert!((r + 1).checked_mul(r + 1).map_or(true, |s| n < s));
        n = n * 2 + (n % 7);
    }
}
