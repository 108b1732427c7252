//! Normalization of caller bounds into inclusive ranges.

use smallrand::ranges::GenerateRange;

#[test]
fn integer_conversions() {
    assert_eq!(
        GenerateRange { start: 2_u8, end_inclusive: 41 },
        GenerateRange::<u8>::half_open(2, 42)
    );
    assert_eq!(
        GenerateRange { start: 2_u8, end_inclusive: 42 },
        GenerateRange::new(2_u8, 42)
    );
}
