use sdr_core::gcd::reduce;

#[test]
fn reduce_cancels_common_factors() {
    assert_eq!(reduce(6, 4), (3, 2));
    assert_eq!(reduce(4, 6), (2, 3));
    assert_eq!(reduce(12, 8), (3, 2));
    assert_eq!(reduce(7, 7), (1, 1));
    assert_eq!(reduce(1, 1), (1, 1));
    assert_eq!(reduce(13, 5), (13, 5));
    assert_eq!(reduce(1 << 20, 1 << 10), (1024, 1));
    assert_eq!(reduce(3, 1 << 10), (3, 1024));
    // a realistic synthesizer ratio: both sides divisible by 6400
    assert_eq!(reduce(81_300_000 >> 5, 25_000_000 >> 5), (813, 250));
}

#[test]
fn reduce_keeps_zeros_unchanged() {
    assert_eq!(reduce(0, 5), (0, 5));
    assert_eq!(reduce(5, 0), (5, 0));
    assert_eq!(reduce(0, 0), (0, 0));
}

#[test]
fn reduce_preserves_the_ratio() {
    let mut a: u32 = 17;
    let mut b: u32 = 39;
    for _ in 0..50 {
        a = a.wrapping_mul(2654435761).wrapping_add(11) % 1_000_000 + 1;
        b = b.wrapping_mul(2246822519).wrapping_add(7) % 1_000_000 + 1;
        let (x, y) = reduce(a, b);
        // same fraction
        assert_eq!((x as u64) * (b as u64), (y as u64) * (a as u64));
        // nothing left to cancel
        let (mut u, mut v) = (x as u64, y as u64);
        while v != 0 {
            let t = u % v;
            u = v;
            v = t;
        }
        assert_eq!(u, 1, "common factor of {} and {} left over", x, y);
    }
}
