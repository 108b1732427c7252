//! Crosscutting behaviour: single-point ranges and the byte stream of
//! the generic fills.

use smallrand::ranges::GenerateRange;
use smallrand::smallrng::SmallRng;

#[test]
fn single_point_range_consumes_nothing() {
    // Drawing from a one-value range returns that value and leaves the
    // generator untouched: both generators must stay in step.
    let mut with_point = SmallRng::from_seed(42);
    let mut without = SmallRng::from_seed(42);
    assert_eq!(7u8, with_point.range(GenerateRange::new(7u8, 7)));
    assert_eq!(
        -3i64,
        with_point.range(GenerateRange::new(-3i64, -3))
    );
    assert_eq!(with_point.random::<u64>(), without.random::<u64>());
}

#[test]
fn fill_u8_expands_words_little_endian() {
    // The byte fill is the little-endian expansion of the generator's
    // 64-bit draws, cut to the requested length.
    let mut byte_rng = SmallRng::from_seed(9);
    let mut bytes = vec![0u8; 11];
    byte_rng.fill_u8(&mut bytes);

    let mut word_rng = SmallRng::from_seed(9);
    let mut expected = Vec::new();
    expected.extend_from_slice(&word_rng.random::<u64>().to_le_bytes());
    expected.extend_from_slice(&word_rng.random::<u64>().to_le_bytes());
    expected.truncate(11);
    assert_eq!(bytes, expected);
}
