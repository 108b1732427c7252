//! The default-generator facade: forwarding of every derived
//! operation, and the effect of entropy and nonce on seeding.

use smallrand::entropy::SplitMix;
use smallrand::ranges::GenerateRange;
use smallrand::rng::Rng;
use smallrand::stdrng::StdRng;

#[test]
fn stdrng_test_forwarding() {
    // Exercise the forwarding paths; the functions forwarded to are
    // covered by the ChaCha tests.
    let mut rng =
        StdRng::from_entropy_and_nonce(&mut SplitMix::new(12345678), [1, 2, 3, 4, 5, 6, 7, 8])
            .unwrap();
    assert_ne!(rng.random_u32(), rng.random_u32());
    assert_ne!(rng.random_u64(), rng.random_u64());
    assert_ne!(rng.random::<u16>(), rng.random::<u16>());
    assert_ne!(rng.random::<u32>(), rng.random::<u32>());
    assert_ne!(rng.random::<u64>(), rng.random::<u64>());

    assert_ne!(
        rng.range(GenerateRange::<u32>::half_open(0, 12452)),
        rng.range(GenerateRange::<u32>::half_open(0, 12452))
    );

    {
        let i = rng.iter::<u128>(3);
        assert_ne!(i[1], i[2]);
    }

    let mut a1 = vec![0_u8; 32];
    let mut a2 = vec![0_u8; 32];
    rng.fill(&mut a1);
    rng.fill(&mut a2);
    assert_ne!(a1, a2);

    a2 = a1.clone();
    rng.fill_u8(&mut a1);
    rng.fill_u8(&mut a2);
    assert_ne!(a1, a2);

    a2 = a1.clone();
    rng.shuffle(&mut a2);
    assert_ne!(a1, a2);
}

#[test]
fn same_entropy_and_nonce_generates_same_values() {
    let mut rng1 =
        StdRng::from_entropy_and_nonce(&mut SplitMix::new(12345678), [1, 2, 3, 4, 5, 6, 7, 8])
            .unwrap();
    let mut rng2 =
        StdRng::from_entropy_and_nonce(&mut SplitMix::new(12345678), [1, 2, 3, 4, 5, 6, 7, 8])
            .unwrap();
    assert_eq!(rng1.random_u64(), rng2.random_u64());
}

#[test]
fn same_entropy_and_different_nonce_produces_different_values() {
    let mut rng1 = StdRng::from_entropy(&mut SplitMix::new(12345678)).unwrap();
    let mut rng2 = StdRng::from_entropy(&mut SplitMix::new(12345678)).unwrap();
    assert_ne!(rng1.random_u64(), rng2.random_u64());
}

#[test]
fn different_entropy_and_same_nonce_produces_different_values() {
    let mut rng1 =
        StdRng::from_entropy_and_nonce(&mut SplitMix::new(12345678), [1, 2, 3, 4, 5, 6, 7, 8])
            .unwrap();
    let mut rng2 =
        StdRng::from_entropy_and_nonce(&mut SplitMix::new(87654321), [1, 2, 3, 4, 5, 6, 7, 8])
            .unwrap();
    assert_ne!(rng1.random_u64(), rng2.random_u64());
}
