//! Range derivation over a deterministic counting generator: exact
//! uniformity of the rejection-sampled ranges, bound handling, float
//! mantissa saturation, and shuffling.

use smallrand::ranges::GenerateRange;
use smallrand::rng;
use smallrand::rng::{MantissaDraw, Rng};

struct CountingRng(pub u64);

impl CountingRng {
    fn new() -> Self {
        // Start near the maximum so that the uniformity tests hit the
        // area where draws must be discarded:
        Self(18446744073709550681)
    }
}

impl Rng for CountingRng {
    type Model = ();

    fn random_u32(&mut self) -> u32 {
        self.random_u64() as u32
    }

    fn random_u64(&mut self) -> u64 {
        let result = self.0;
        self.0 = self.0.wrapping_add(1);
        result
    }
}

#[test]
fn rng_test_range_u8_is_uniform() {
    const START: u8 = 13;
    const END: u8 = 42;
    const LEN: usize = (END - START) as usize;

    // Eight-bit ranges are generated from 16-bit draws. Starting the
    // counting generator at zero and drawing twice as many range
    // values as the sampler can produce from all possible 16-bit
    // draws covers every outcome, so the histogram must be exactly
    // flat:
    let mut rng = CountingRng(0);
    let iterations: usize = 2 * ((1 << 16) / LEN) * LEN;

    let mut count: [usize; LEN] = [0; LEN];
    for _i in 0..iterations {
        let value = rng::range(&mut rng, GenerateRange::<u8>::half_open(START, END));
        assert!(value >= START);
        assert!(value < END);
        let inx = (value - START) as usize;
        count[inx] += 1;
    }
    for i in 0..LEN {
        assert_eq!(count[0], count[i]);
    }
}

#[test]
fn rng_test_range_i8_is_uniform() {
    const START: i8 = -127;
    const END: i8 = 126;
    const LEN: usize = ((END as isize) - (START as isize)) as usize;

    let mut rng = CountingRng(0);
    let iterations: usize = 2 * ((1 << 16) / LEN) * LEN;

    let mut count: [usize; LEN] = [0; LEN];
    for _ in 0..iterations {
        let value = rng::range(&mut rng, GenerateRange::<i8>::half_open(START, END));
        assert!(value >= START);
        assert!(value < END);
        let inx = (value as isize).wrapping_sub(START as isize) as usize;
        count[inx] += 1;
    }
    for i in 0..LEN {
        assert_eq!(count[0], count[i]);
    }
}

#[test]
fn rng_test_unbounded_range_u8() {
    let mut rng = CountingRng::new();
    let mut count: [u8; 256] = [0; 256];
    for _ in 0..100 * 256 {
        let value: u8 = rng::range(&mut rng, GenerateRange::<u8>::unbounded());
        count[value as usize] += 1;
    }
    for i in 0..256 {
        assert_eq!(count[0], count[i], "failed for {i}");
    }
}

#[test]
fn rng_test_range_boundaries() {
    let mut rng = CountingRng::new();
    let _: u8 = rng::range(&mut rng, GenerateRange::new(0u8, 255));
    let _: u8 = rng::range(&mut rng, GenerateRange::<u8>::up_to_inclusive(255));
    assert_eq!(255u8, rng::range(&mut rng, GenerateRange::new(255u8, 255)));
    assert_eq!(0u8, rng::range(&mut rng, GenerateRange::new(0u8, 0)));
}

struct CountingRng128 {
    next: u128,
    high: bool,
}

impl CountingRng128 {
    fn new() -> Self {
        // Start near the maximum so that the uniformity test hits the
        // area where draws must be discarded:
        Self { next: u128::MAX - 100, high: true }
    }
}

impl Rng for CountingRng128 {
    type Model = ();

    fn random_u32(&mut self) -> u32 {
        unreachable!()
    }

    fn random_u64(&mut self) -> u64 {
        let random = if self.high {
            (self.next >> 64) as u64
        } else {
            let low = self.next as u64;
            self.next = self.next.wrapping_add(1);
            low
        };
        self.high = !self.high;
        random
    }
}

#[test]
fn test_range_u128_is_uniform() {
    let mut rng = CountingRng128::new();
    const START: u128 = 13;
    const END: u128 = 42;
    const LEN: usize = (END - START) as usize;
    let mut count: [u8; LEN] = [0; LEN];
    for _ in 0..100 * LEN {
        let value = rng::range(&mut rng, GenerateRange::<u128>::half_open(START, END));
        assert!(value >= START);
        assert!(value < END);
        let inx = (value - START) as usize;
        count[inx] += 1;
    }
    for i in 0..LEN {
        assert_eq!(count[0], count[i]);
    }
}

struct FloatRangeGenerator(u128);

impl FloatRangeGenerator {
    fn new(leading_zeros: usize) -> Self {
        Self(
            ((1_u128 << 127) >> leading_zeros)
                | (0xDEADBEEFDEADBEEF0000000000000000_u128 >> (leading_zeros + 1)),
        )
    }
}

impl Rng for FloatRangeGenerator {
    type Model = ();

    fn random_u32(&mut self) -> u32 {
        0
    }

    fn random_u64(&mut self) -> u64 {
        let random = self.0 >> 64;
        self.0 = self.0 << 64;
        random as u64
    }
}

#[test]
fn test_float_ranges() {
    for leading_zeros in 0..64 {
        let mut rng = FloatRangeGenerator::new(leading_zeros);
        let value: f64 = match rng::mantissa_draw(&mut rng, 52) {
            MantissaDraw::Single(v) => (v as f64) / 2_f64.powi(64),
            MantissaDraw::Double(v) => (v as f64) / 2_f64.powi(128),
        };
        let bytes = value.to_ne_bytes();

        // The draw must always fill the mantissa, so the distinctive
        // pattern must land in the same place whatever the number of
        // leading zero bits:
        assert_eq!(bytes[5], 0xea);
        assert_eq!(bytes[4], 0xdb);
        assert_eq!(bytes[3], 0xee);
        assert_eq!(bytes[2], 0xfd);
    }
}

#[test]
fn rng_test_shuffle() {
    let mut rng = CountingRng::new();
    let mut numbers = vec![1, 2, 3, 4, 5];
    rng::shuffle(&mut rng, &mut numbers);
    assert_eq!(numbers, vec![5, 1, 2, 3, 4]);
}

#[test]
fn rng_test_shuffle_empty_slice() {
    let mut rng = CountingRng::new();
    let mut numbers: Vec<u8> = vec![];
    rng::shuffle(&mut rng, &mut numbers);
    assert_eq!(numbers, vec![]);
}
