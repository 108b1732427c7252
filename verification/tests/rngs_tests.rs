//! Range bound handling over a 32-bit counting generator.

use smallrand::ranges::GenerateRange;
use smallrand::rng;
use smallrand::rng::Rng;

struct CountingRng {
    next: u32,
}

impl CountingRng {
    fn new() -> Self {
        Self { next: 0 }
    }
}

impl Rng for CountingRng {
    type Model = ();

    fn random_u32(&mut self) -> u32 {
        let result = self.next;
        self.next = self.next.wrapping_add(1);
        result
    }

    fn random_u64(&mut self) -> u64 {
        self.random_u32() as u64
    }
}

#[test]
fn rngs_test_unbounded_range_u8() {
    let mut rng = CountingRng::new();
    let mut count: [u8; 256] = [0; 256];
    for _ in 0..100 * 256 {
        let value: u8 = rng::range(&mut rng, GenerateRange::<u8>::unbounded());
        count[value as usize] += 1;
    }
    for i in 0..256 {
        assert_eq!(count[0], count[i], "failed for {i}");
    }
}

#[test]
fn rngs_test_range_boundaries() {
    let mut rng = CountingRng::new();
    let _: u8 = rng::range(&mut rng, GenerateRange::new(0u8, 255));
    let _: u8 = rng::range(&mut rng, GenerateRange::<u8>::up_to_inclusive(255));
    assert_eq!(255u8, rng::range(&mut rng, GenerateRange::new(255u8, 255)));
    assert_eq!(0u8, rng::range(&mut rng, GenerateRange::new(0u8, 0)));
}

#[test]
fn rngs_test_shuffle_empty_slice() {
    let mut rng = CountingRng::new();
    let mut numbers: Vec<u8> = vec![];
    rng::shuffle(&mut rng, &mut numbers);
    assert_eq!(numbers, vec![]);
}
