use shardbench::rng::splitmix64;

/// Reference computation of one draw, written out independently.
fn reference_draw(state: &mut u64) -> u64 {
    *state = state.wrapping_add(0x9E3779B97F4A7C15);
    let mut z = *state;
    z = (z ^ (z >> 30)).wrapping_mul(0xBF58476D1CE4E5B9);
    z = (z ^ (z >> 27)).wrapping_mul(0x94D049BB133111EB);
    z ^ (z >> 31)
}

#[test]
fn same_seed_same_sequence() {
    let mut a = splitmix64(42);
    let mut b = splitmix64(42);
    for _ in 0..64 {
        assert_eq!(a.next(), b.next());
    }
}

#[test]
fn matches_reference_formula() {
    for seed in [0u64, 1, 42, u64::MAX, 0xDEADBEEF] {
        let mut rng = splitmix64(seed);
        let mut state = seed;
        for _ in 0..32 {
            assert_eq!(rng.next(), reference_draw(&mut state));
        }
    }
}

#[test]
fn different_seeds_diverge() {
    let mut a = splitmix64(42);
    let mut b = splitmix64(43);
    let draws_a: Vec<u64> = (0..8).map(|_| a.next()).collect();
    let draws_b: Vec<u64> = (0..8).map(|_| b.next()).collect();
    assert_ne!(draws_a, draws_b);
}
