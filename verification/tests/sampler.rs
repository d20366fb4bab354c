use xoro_rand::uniform_int_distribution;
use xoro_rand::unsafe_uniform_int_distribution;
use xoro_rand::xoro_shiro_128_plus;
use xoro_rand::RandomGenerator;

#[test]
fn range_correctness_small_ranges() {
    let mut g = xoro_shiro_128_plus(1);
    for _ in 0..1000 {
        let r = unsafe_uniform_int_distribution(-5, 17, &mut g);
        assert!((-5..=17).contains(&r));
    }
    for _ in 0..1000 {
        let r = unsafe_uniform_int_distribution(0, 2, &mut g);
        assert!((0..=2).contains(&r));
    }
    for _ in 0..1000 {
        let r = unsafe_uniform_int_distribution(i64::MIN, i64::MIN + 10, &mut g);
        assert!(r >= i64::MIN && r <= i64::MIN + 10);
    }
}

#[test]
fn single_value_range() {
    let mut g = xoro_shiro_128_plus(3);
    assert_eq!(unsafe_uniform_int_distribution(9, 9, &mut g), 9);
    assert_eq!(unsafe_uniform_int_distribution(-4, -4, &mut g), -4);
}

#[test]
fn sampler_advances_the_generator() {
    let mut g = xoro_shiro_128_plus(8);
    let mut untouched = g.clone();
    let _ = unsafe_uniform_int_distribution(0, 999, &mut g);
    // Exactly one draw was consumed, so skipping one draw of the
    // untouched clone realigns the two streams.
    let _ = untouched.unsafeNext();
    assert_eq!(g.unsafeNext(), untouched.unsafeNext());
}

#[test]
fn full_cardinality_range_returns_shifted_draw() {
    // With the range size equal to the native cardinality nothing is
    // rejected and the sample is exactly the first draw shifted to zero.
    let mut g = xoro_shiro_128_plus(9);
    let mut mirror = g.clone();
    let r = unsafe_uniform_int_distribution(0, 0xffff_ffff, &mut g);
    let expected = (mirror.unsafeNext() as i64) - (i32::MIN as i64);
    assert_eq!(r, expected);
}

#[test]
fn uniformity_range_three() {
    // 100_000 samples over {0, 1, 2}: each frequency close to 1/3.
    let mut g = xoro_shiro_128_plus(2024);
    let mut counts = [0u32; 3];
    for _ in 0..100_000 {
        let r = unsafe_uniform_int_distribution(0, 2, &mut g);
        counts[r as usize] += 1;
    }
    for &c in counts.iter() {
        assert!(
            (32_000..=35_000).contains(&c),
            "frequency out of tolerance: {:?}",
            counts
        );
    }
}

#[test]
fn wide_range_correctness() {
    // Range size above 2^32 exercises the multi-draw aggregation path.
    let mut g = xoro_shiro_128_plus(77);
    for _ in 0..200 {
        let r = unsafe_uniform_int_distribution(0, 10_000_000_000, &mut g);
        assert!((0..=10_000_000_000).contains(&r));
    }
    for _ in 0..200 {
        let r = unsafe_uniform_int_distribution(-10_000_000_000, 10_000_000_000, &mut g);
        assert!((-10_000_000_000..=10_000_000_000).contains(&r));
    }
}

#[test]
fn wide_range_matches_digit_aggregation() {
    // Mirror the two-draw aggregation by hand and compare.
    let mut g = xoro_shiro_128_plus(123);
    let mut mirror = g.clone();
    let r = unsafe_uniform_int_distribution(0, 10_000_000_000, &mut g);

    let nv: i128 = 1 << 32;
    let rs: i128 = 10_000_000_001;
    let final_num_values: i128 = nv * nv;
    let max_accepted = rs * (final_num_values / rs);
    let expected = loop {
        let d0 = (mirror.unsafeNext() as i64 as i128) - (i32::MIN as i128);
        let d1 = (mirror.unsafeNext() as i64 as i128) - (i32::MIN as i128);
        let value = d0 * nv + d1;
        if value < max_accepted {
            break (value % rs) as i64;
        }
    };
    assert_eq!(r, expected);
}

#[test]
fn checked_sampler_accepts_valid_input() {
    let mut g = xoro_shiro_128_plus(5);
    match uniform_int_distribution(10, 20, &mut g) {
        Ok(v) => assert!((10..=20).contains(&v)),
        Err(_) => panic!("valid input was rejected"),
    }
}

#[test]
fn checked_sampler_rejects_reversed_bounds() {
    let mut g = xoro_shiro_128_plus(5);
    assert!(uniform_int_distribution(3, 2, &mut g).is_err());
}

#[test]
fn checked_sampler_rejects_overflowing_range() {
    let mut g = xoro_shiro_128_plus(5);
    assert!(uniform_int_distribution(i64::MIN, i64::MAX, &mut g).is_err());
    assert!(uniform_int_distribution(-2, i64::MAX, &mut g).is_err());
}

#[test]
fn checked_sampler_leaves_generator_untouched_on_error() {
    let mut g = xoro_shiro_128_plus(6);
    let mut mirror = g.clone();
    let _ = uniform_int_distribution(3, 2, &mut g);
    assert_eq!(g.unsafeNext(), mirror.unsafeNext());
}

#[test]
fn checked_sampler_matches_unchecked() {
    let mut a = xoro_shiro_128_plus(31);
    let mut b = xoro_shiro_128_plus(31);
    let checked = uniform_int_distribution(-100, 100, &mut a);
    let unchecked = unsafe_uniform_int_distribution(-100, 100, &mut b);
    match checked {
        Ok(v) => assert_eq!(v, unchecked),
        Err(_) => panic!("valid input was rejected"),
    }
}
