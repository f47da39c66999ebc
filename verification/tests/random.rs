use board_plugin::RandomSource;

#[test]
fn same_seed_gives_same_numbers() {
    let mut a = RandomSource::from_seed(42);
    let mut b = RandomSource::from_seed(42);
    for _ in 0..100 {
        assert_eq!(a.next_u64(), b.next_u64());
    }
}

#[test]
fn seed_zero_gives_the_known_sequence() {
    let mut rng = RandomSource::from_seed(0);
    assert_eq!(rng.next_u64(), 0xE220_A839_7B1D_CDAF);
    assert_eq!(rng.next_u64(), 0x6E78_9E6A_A1B9_65F4);
    assert_eq!(rng.next_u64(), 0x06C4_5D18_8009_454F);
}

#[test]
fn next_below_is_the_remainder_of_the_next_number() {
    let mut raw = RandomSource::from_seed(7);
    let mut bounded = RandomSource::from_seed(7);
    for bound in [1u32, 2, 3, 10, 1000, u32::MAX] {
        let expected = (raw.next_u64() % bound as u64) as u32;
        let got = bounded.next_below(bound);
        assert_eq!(got, expected);
        assert!(got < bound);
    }
}

#[test]
fn next_below_one_is_zero() {
    let mut rng = RandomSource::from_seed(123);
    for _ in 0..20 {
        assert_eq!(rng.next_below(1), 0);
    }
}
