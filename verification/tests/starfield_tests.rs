use solar_raster::starfield::hash;

#[test]
fn hash_matches_known_values() {
    assert_eq!(hash(0), 0);
    assert_eq!(hash(1), 0x31251ba7);
    assert_eq!(hash(12345), 0x68296f19);
    assert_eq!(hash(u32::MAX), 0x2028884f);
    // The seed of star 7 in the starfield's seeding scheme.
    assert_eq!(hash(7 * 1000 + 12345), 0x232def8f);
}

#[test]
fn hash_is_deterministic() {
    for seed in [0u32, 1, 2, 42, 12345, 999_999, u32::MAX] {
        assert_eq!(hash(seed), hash(seed));
    }
}

#[test]
fn hash_matches_reference_rounds() {
    // The three xor-shift rounds and two multiplications, written out.
    fn reference(seed: u32) -> u32 {
        let mut x = seed;
        x ^= x >> 16;
        x = x.wrapping_mul(0x45d9f3b);
        x ^= x >> 16;
        x = x.wrapping_mul(0x45d9f3b);
        x ^= x >> 16;
        x
    }
    for seed in (0..100_000).step_by(7919) {
        assert_eq!(hash(seed), reference(seed));
    }
}
