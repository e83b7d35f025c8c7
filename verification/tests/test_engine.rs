use vrd::random::Random;

fn expected_seed_words(seed: u32) -> [u32; 624] {
    let mut words = [0u32; 624];
    words[0] = seed;
    for i in 1..624 {
        let prev = words[i - 1] as u64;
        words[i] = ((1812433253u64 * (prev ^ (prev >> 30)) + i as u64) % (1u64 << 32)) as u32;
    }
    words
}

#[test]
fn seeding_follows_the_recurrence() {
    let rng = Random::from_seed(1);
    assert_eq!(rng.mt[0], 1);
    assert_eq!(rng.mt[1], 1812433254);
    assert_eq!(rng.mt[2], 3713160357);
    assert_eq!(rng.mt[3], 3109174145);
    assert_eq!(rng.mti, 624);
    for seed in [0u32, 1, 42, 5489, 0x8000_0000, u32::MAX] {
        let mut rng = Random::new();
        rng.seed(seed);
        assert_eq!(rng.mt, expected_seed_words(seed));
        assert_eq!(rng.mti(), 624);
    }
}

#[test]
fn seeding_wraps_instead_of_overflowing() {
    let rng = Random::from_seed(u32::MAX);
    assert_eq!(rng.mt[1], 1812433253u32.wrapping_mul(u32::MAX ^ 3).wrapping_add(1));
}

#[test]
fn seed_42_first_draws() {
    let mut rng = Random::new();
    rng.seed(42);
    assert_eq!(rng.rand(), 1608637542);
    assert_eq!(rng.rand(), 3421126067);
    assert_eq!(rng.rand(), 4083286876);
}

#[test]
fn seed_5489_first_draws() {
    let mut rng = Random::from_seed(5489);
    let draws: Vec<u32> = (0..5).map(|_| rng.rand()).collect();
    assert_eq!(
        draws,
        vec![3499211612, 581869302, 3890346734, 3586334585, 545404204]
    );
}

#[test]
fn same_seed_same_sequence() {
    for seed in [0u32, 7, 42, 123456789, u32::MAX] {
        let mut a = Random::new();
        let mut b = Random::from_seed(99);
        b.rand();
        a.seed(seed);
        b.seed(seed);
        assert_eq!(a, b);
        for _ in 0..2000 {
            assert_eq!(a.rand(), b.rand());
        }
        assert_eq!(a, b);
    }
}

#[test]
fn different_seeds_differ() {
    let mut a = Random::from_seed(1);
    let mut b = Random::from_seed(2);
    let xs: Vec<u32> = (0..8).map(|_| a.rand()).collect();
    let ys: Vec<u32> = (0..8).map(|_| b.rand()).collect();
    assert_ne!(xs, ys);
}

#[test]
fn regeneration_boundary() {
    let mut rng = Random::from_seed(42);
    assert_eq!(rng.mti(), 624);
    rng.rand();
    assert_eq!(rng.mti(), 1);
    let twisted_once = rng.mt;
    for k in 2..=624 {
        rng.rand();
        assert_eq!(rng.mti(), k);
        assert_eq!(rng.mt, twisted_once);
    }
    assert_eq!(rng.mti(), 624);
    let mut expected = rng.clone();
    expected.twist();
    assert_eq!(rng.rand(), 108880612);
    assert_eq!(rng.mti(), 1);
    assert_eq!(rng.mt, expected.mt);
    assert_ne!(rng.mt, twisted_once);
}

#[test]
fn twist_values() {
    let mut rng = Random::from_seed(42);
    rng.twist();
    assert_eq!(rng.mti(), 0);
    assert_eq!(rng.mt[0], 723970371);
    assert_eq!(rng.mt[1], 1229153189);
    assert_eq!(rng.mt[623], 4088152671);
}

#[test]
fn twist_follows_the_recurrence() {
    let rng = Random::from_seed(2024);
    let old = rng.mt;
    let mut twisted = rng.clone();
    twisted.twist();
    let new = twisted.mt;
    let mix = |hi: u32, lo: u32| {
        let x = (hi & 0x8000_0000) | (lo & 0x7fff_ffff);
        if x % 2 != 0 {
            (x >> 1) ^ 0x9908_b0df
        } else {
            x >> 1
        }
    };
    for i in 0..227 {
        assert_eq!(new[i], old[i + 397] ^ mix(old[i], old[i + 1]));
    }
    for i in 227..623 {
        assert_eq!(new[i], new[i - 227] ^ mix(old[i], old[i + 1]));
    }
    assert_eq!(new[623], new[396] ^ mix(old[623], new[0]));
}

#[test]
fn twist_of_seed_zero_is_not_all_zero() {
    let mut rng = Random::from_seed(0);
    rng.twist();
    assert!(rng.mt.iter().any(|&x| x != 0));
    assert_eq!(&rng.mt[..3], &[2443250962, 1093594115, 1878467924]);
}

#[test]
fn twist_changes_a_seeded_state() {
    for seed in [1u32, 2, 42, 5489, 0xdead_beef, u32::MAX] {
        let mut rng = Random::from_seed(seed);
        let before = rng.mt;
        rng.twist();
        assert_ne!(rng.mt, before);
        assert!(rng.mt.iter().any(|&x| x != 0));
    }
}

#[test]
fn twist_of_zero_words_stays_zero() {
    let mut rng = Random { mt: [0; 624], mti: 5 };
    rng.twist();
    assert_eq!(rng.mt, [0u32; 624]);
    assert_eq!(rng.mti, 0);
}

#[test]
fn unseeded_marker_reseeds_with_default() {
    let mut rng = Random::from_seed(0);
    rng.set_mti(626);
    assert_eq!(rng.rand(), 3499211612);
    assert_eq!(rng.mti(), 1);
    let mut fresh = Random::from_seed(5489);
    fresh.rand();
    assert_eq!(rng, fresh);
}

#[test]
fn cursor_past_the_end_only_twists() {
    let mut a = Random::from_seed(42);
    let mut b = Random::from_seed(42);
    a.set_mti(625);
    assert_eq!(a.rand(), b.rand());
    let mut c = Random::from_seed(42);
    c.set_mti(usize::MAX);
    assert_eq!(c.rand(), 1608637542);
    assert_eq!(c.mti(), 1);
}

#[test]
fn cursor_inside_reads_without_twisting() {
    let mut rng = Random::from_seed(42);
    rng.set_mti(10);
    let before = rng.mt;
    let y = rng.rand();
    assert_eq!(rng.mt, before);
    assert_eq!(rng.mti(), 11);
    let mut t = before[10];
    t ^= t >> 11;
    t ^= (t << 7) & 0x9d2c_5680;
    t ^= (t << 15) & 0xefc6_0000;
    t ^= t >> 18;
    assert_eq!(y, t);
}

#[test]
fn index_stays_in_bounds_after_draws() {
    let mut rng = Random::from_seed(3);
    for _ in 0..3000 {
        rng.rand();
        assert!(1 <= rng.mti() && rng.mti() <= 624);
    }
}

#[test]
fn new_generators_are_seeded_states() {
    let rng = Random::new();
    let again = Random::from_seed(rng.mt[0]);
    assert_eq!(rng, again);
    let rng = Random::default();
    let again = Random::from_seed(rng.mt[0]);
    assert_eq!(rng, again);
}

#[test]
fn clone_continues_the_same_sequence() {
    let mut rng = Random::from_seed(42);
    rng.integer(1, 10).unwrap();
    rng.rand();
    rng.u64();
    let mut cloned = rng.clone();
    assert_eq!(rng, cloned);
    assert_eq!(rng.rand(), cloned.rand());
    assert_eq!(rng.integer(1, 100), cloned.integer(1, 100));
    rng.rand();
    assert_ne!(rng, cloned);
}
