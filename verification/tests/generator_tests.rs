use chunk_random::chunk_random::{ChunkRandom, Lcg, LcgType};
use chunk_random::java_random::{JavaRandom, MASK48, MULTIPLIER};

// the modular multiplicative inverse of MULTIPLIER modulo 2^48
const INVERSE_MULTIPLIER: i64 = 0xDFE0_5BCB_1365;

#[test]
fn test_random() {
    let mut cr = ChunkRandom::default();
    cr.get_random(94824734);
    assert_eq!(cr.get_seed_state(), 25153900403);
    cr.rand.next_long();
    assert_eq!(cr.get_seed_state(), 135493623266021);
}

#[test]
fn test_seed_scramble() {
    assert_eq!(JavaRandom::get_random(94824734).get_seed_state(), 25153900403);
    assert_eq!(
        JavaRandom::get_random(-1).get_seed_state(),
        (-1i64 ^ 0x5DEECE66D) & MASK48
    );
    assert_eq!(JavaRandom::get_random(0).get_seed_state(), 0x5DEECE66D);
    assert_eq!(
        JavaRandom::get_random(i64::MIN).get_seed_state(),
        (i64::MIN ^ 0x5DEECE66D) & MASK48
    );
}

#[test]
fn test_set_and_get_seed_state() {
    let mut r = JavaRandom::get_random(1);
    r.set_seed_state(-42);
    assert_eq!(r.get_seed_state(), -42);
    r.set_seed_state(25153900403);
    assert_eq!(r.get_seed_state(), 25153900403);
}

#[test]
fn test_next_long_value() {
    let mut r = JavaRandom::get_random(94824734);
    assert_eq!(r.next_long(), -833763595170148024);
    assert_eq!(r.get_seed_state(), 135493623266021);
}

#[test]
fn test_next_int_pow2_paths_agree() {
    // the fast and general draws share the power-of-two path
    let mut a = JavaRandom::get_random(94824734);
    let mut b = JavaRandom::get_random(94824734);
    assert_eq!(a.next_int(16), b.next_int_fast(16));
    assert_eq!(a.get_seed_state(), b.get_seed_state());

    let mut a = JavaRandom::get_random(-5);
    let mut b = JavaRandom::get_random(-5);
    for bound in [1, 2, 4, 64, 1 << 30] {
        assert_eq!(a.next_int(bound), b.next_int_fast(bound));
        assert_eq!(a.get_seed_state(), b.get_seed_state());
    }
}

#[test]
fn test_next_int_pow2_value() {
    let mut r = JavaRandom::get_random(94824734);
    assert_eq!(r.next_int(16), 15);
    assert_eq!(r.get_seed_state(), 268752753911298);
}

#[test]
fn test_next_int_general_value() {
    let mut r = JavaRandom::get_random(94824734);
    assert_eq!(r.next_int(10), 0);
    assert_eq!(r.get_seed_state(), 268752753911298);
}

#[test]
fn test_next_int_fast_general_value() {
    // for a non-power-of-two bound the fast draw keeps one biased draw
    let mut r = JavaRandom::get_random(94824734);
    assert_eq!(r.next_int_fast(10), 0);
    assert_eq!(r.get_seed_state(), 268752753911298);
}

#[test]
fn test_next_int_stays_in_bound() {
    let mut r = JavaRandom::get_random(987654321);
    for bound in [1, 3, 7, 10, 16, 100, 1000003, i32::MAX] {
        for _ in 0..200 {
            let v = r.next_int(bound);
            assert!(0 <= v && v < bound);
            let w = r.next_int_fast(bound);
            assert!(0 <= w && w < bound);
        }
    }
}

#[test]
fn test_draw_24_bits_in_unit_interval() {
    // next_float is the 24-bit draw scaled into [0.0, 1.0)
    let mut r = JavaRandom::get_random(94824734);
    let first = (r.random_next(24) as f32) / ((1i32 << 24) as f32);
    assert_eq!(first, 16018912.0f32 / 16777216.0f32);
    let mut r = JavaRandom::get_random(-271828);
    for _ in 0..2000 {
        let f = (r.random_next(24) as f32) / ((1i32 << 24) as f32);
        assert!(0.0 <= f && f < 1.0);
    }
}

#[test]
fn test_population_seed_value() {
    let mut cr = ChunkRandom::default();
    let s = cr.set_population_seed(94824734, 12, -7);
    assert_eq!(s, 2035471132750013245);
    assert_eq!(cr.get_seed_state(), 125551101379920);

    // zero coordinates give back the world seed, unmasked
    let s = cr.set_population_seed(-123456789, 0, 0);
    assert_eq!(s, -123456789);
    assert_eq!(cr.get_seed_state(), 281449849214086);
}

#[test]
fn test_population_seed_idempotent() {
    let mut a = ChunkRandom::default();
    let mut b = ChunkRandom::default();
    b.set_seed_state(-99999);
    let s1 = a.set_population_seed(94824734, 12, -7);
    let s2 = b.set_population_seed(94824734, 12, -7);
    assert_eq!(s1, s2);
    assert_eq!(a.get_seed_state(), b.get_seed_state());
    let s3 = a.set_population_seed(94824734, 12, -7);
    assert_eq!(s1, s3);
    assert_eq!(a.get_seed_state(), b.get_seed_state());
}

#[test]
fn test_decorator_seed_value() {
    let mut cr = ChunkRandom::default();
    let s = cr.set_decorator_seed(2035471132750013245, 5, 3);
    assert_eq!(s, 2035471132750043250);
    assert_eq!(cr.get_seed_state(), 125551101361695);
}

#[test]
fn test_decorator_seed_idempotent() {
    let mut a = ChunkRandom::default();
    let mut b = ChunkRandom::default();
    b.set_seed_state(424242);
    let s1 = a.set_decorator_seed(-1000, -3, 2);
    let s2 = b.set_decorator_seed(-1000, -3, 2);
    assert_eq!(s1, s2);
    assert_eq!(a.get_seed_state(), b.get_seed_state());
    let s3 = a.set_decorator_seed(-1000, -3, 2);
    assert_eq!(s1, s3);
    assert_eq!(a.get_seed_state(), b.get_seed_state());
}

#[test]
fn test_generalized_forward_step() {
    let forward = Lcg {
        multiplier: MULTIPLIER,
        addend: 0xB,
        modulus: MASK48,
        lcg_type: LcgType::Forward,
    };
    let mut cr = ChunkRandom::default();
    cr.set_seed_state(25153900403);
    let extracted = cr.random_next(32, &forward);
    assert_eq!(cr.get_seed_state(), 268752753911298);
    assert_eq!(extracted, -194125715);
}

#[test]
fn test_generalized_reverse_step() {
    let reverse = Lcg {
        multiplier: INVERSE_MULTIPLIER,
        addend: 0xB,
        modulus: MASK48,
        lcg_type: LcgType::Reverse,
    };
    let mut cr = ChunkRandom::default();
    cr.set_seed_state(268752753911298);
    let extracted = cr.random_next(32, &reverse);
    assert_eq!(cr.get_seed_state(), 25153900403);
    assert_eq!(extracted, 383818);
}

#[test]
fn test_canonical_step_matches_generalized_forward() {
    let forward = Lcg {
        multiplier: MULTIPLIER,
        addend: 0xB,
        modulus: MASK48,
        lcg_type: LcgType::Forward,
    };
    let mut plain = JavaRandom::get_random(94824734);
    let mut general = ChunkRandom::default();
    general.set_seed_state(plain.get_seed_state());
    for _ in 0..16 {
        assert_eq!(plain.random_next(32), general.random_next(32, &forward));
        assert_eq!(plain.get_seed_state(), general.get_seed_state());
    }
}

#[test]
fn test_reverse_inverts_forward() {
    let forward = Lcg {
        multiplier: MULTIPLIER,
        addend: 0xB,
        modulus: MASK48,
        lcg_type: LcgType::Forward,
    };
    let reverse = Lcg {
        multiplier: INVERSE_MULTIPLIER,
        addend: 0xB,
        modulus: MASK48,
        lcg_type: LcgType::Reverse,
    };
    for start in [0i64, 1, 25153900403, MASK48, 0x8000_0000_0000 - 1] {
        let mut cr = ChunkRandom::default();
        cr.set_seed_state(start);
        cr.random_next(1, &forward);
        cr.random_next(1, &reverse);
        assert_eq!(cr.get_seed_state(), start);
    }
}
