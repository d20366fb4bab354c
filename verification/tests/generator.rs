use xoro_rand::xoro_shiro_128_plus;
use xoro_rand::RandomGenerator;

#[test]
fn golden_sequence_seed_zero() {
    // Regression lock for the bit-level algorithm: seed 0 gives the
    // state (0xffff_ffff_ffff_ffff, 0), and the first four outputs are
    // fixed. The values were derived by hand from the seeding and update
    // formulas.
    let mut g = xoro_shiro_128_plus(0);
    let got = [g.unsafeNext(), g.unsafeNext(), g.unsafeNext(), g.unsafeNext()];
    assert_eq!(got, [-1, -65537, -16777216, -67101666]);
}

#[test]
fn fixed_bounds() {
    let g = xoro_shiro_128_plus(1);
    assert_eq!(g.min(), i32::MIN);
    assert_eq!(g.max(), i32::MAX);
}

#[test]
fn determinism_same_seed_same_stream() {
    let mut a = xoro_shiro_128_plus(42);
    let mut b = xoro_shiro_128_plus(42);
    for _ in 0..100 {
        assert_eq!(a.unsafeNext(), b.unsafeNext());
    }
}

#[test]
fn seed_uses_low_32_bits_only() {
    let mut a = xoro_shiro_128_plus(2);
    let mut b = xoro_shiro_128_plus(0x1_0000_0002);
    for _ in 0..20 {
        assert_eq!(a.unsafeNext(), b.unsafeNext());
    }
}

#[test]
fn different_seeds_differ() {
    let mut a = xoro_shiro_128_plus(1);
    let mut b = xoro_shiro_128_plus(2);
    let va: Vec<i32> = (0..8).map(|_| a.unsafeNext()).collect();
    let vb: Vec<i32> = (0..8).map(|_| b.unsafeNext()).collect();
    assert_ne!(va, vb);
}

#[test]
fn clone_independence() {
    // A control generator shows what g1 would produce had the clone
    // never been touched.
    let mut control = xoro_shiro_128_plus(7);
    let control_first = control.unsafeNext();

    let mut g1 = xoro_shiro_128_plus(7);
    let mut g2 = g1.clone();
    let _ = g2.unsafeNext();
    assert_eq!(g1.unsafeNext(), control_first);
}

#[test]
fn clone_starts_at_identical_state() {
    let mut g1 = xoro_shiro_128_plus(99);
    let _ = g1.unsafeNext();
    let mut g2 = g1.clone();
    for _ in 0..20 {
        assert_eq!(g1.unsafeNext(), g2.unsafeNext());
    }
}

#[test]
fn pure_next_leaves_receiver_unchanged() {
    let g = xoro_shiro_128_plus(5);
    let (v1, mut advanced) = g.next();
    let (v2, _) = g.next();
    assert_eq!(v1, v2);

    // The advanced generator continues the stream of a fresh one.
    let mut fresh = xoro_shiro_128_plus(5);
    assert_eq!(fresh.unsafeNext(), v1);
    assert_eq!(fresh.unsafeNext(), advanced.unsafeNext());
}

#[test]
fn jump_is_reproducible() {
    let a = xoro_shiro_128_plus(42);
    let b = xoro_shiro_128_plus(42);
    let mut ja = a.jump();
    let mut jb = b.jump();
    for _ in 0..20 {
        assert_eq!(ja.unsafeNext(), jb.unsafeNext());
    }
}

#[test]
fn jump_leaves_receiver_unchanged() {
    let g = xoro_shiro_128_plus(42);
    let _ = g.jump();
    let mut after = g;
    let mut fresh = xoro_shiro_128_plus(42);
    for _ in 0..10 {
        assert_eq!(after.unsafeNext(), fresh.unsafeNext());
    }
}

#[test]
fn jump_stream_differs_from_original() {
    let g = xoro_shiro_128_plus(42);
    let mut jumped = g.jump();
    let mut original = g;
    let pj: Vec<i32> = (0..16).map(|_| jumped.unsafeNext()).collect();
    let po: Vec<i32> = (0..16).map(|_| original.unsafeNext()).collect();
    assert_ne!(pj, po);
}

#[test]
fn unsafe_jump_matches_pure_jump() {
    let g = xoro_shiro_128_plus(13);
    let mut pure = g.jump();
    let mut inplace = g;
    inplace.unsafeJump();
    for _ in 0..20 {
        assert_eq!(pure.unsafeNext(), inplace.unsafeNext());
    }
}
