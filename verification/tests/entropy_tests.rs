//! Entropy sources and random devices: deterministic SplitMix output,
//! platform-source smoke tests, and seed extraction.

use smallrand::devices;
use smallrand::devices::{RandomDevice, SplitMixDevice};
use smallrand::entropy;
use smallrand::entropy::{EntropySource, GetRandom, HashMapEntropy, SplitMix};

#[test]
fn generate_64_bit_seed_with_gev_random() {
    let seed1: u64 = entropy::seed(&mut GetRandom::new()).unwrap();
    let seed2: u64 = entropy::seed(&mut GetRandom::new()).unwrap();
    assert_ne!(seed1, seed2);
}

#[test]
fn devices_generate_64_bit_seed_with_gev_random() {
    let seed1: u64 = devices::seed(&mut GetRandom::new()).unwrap();
    let seed2: u64 = devices::seed(&mut GetRandom::new()).unwrap();
    assert_ne!(seed1, seed2);
}

#[test]
fn test_splitmix() {
    let mut dev = SplitMixDevice::new(42);
    let output = dev.seed_bytes(12).unwrap();
    assert_eq!(output, vec![189, 215, 50, 38, 47, 235, 110, 149, 40, 239, 227, 51]);
}

#[test]
fn test_splitmix_1() {
    let mut dev = SplitMix::new(42);
    let mut output = vec![0u8; 12];
    dev.fill(&mut output).unwrap();
    assert_eq!(output, vec![189, 215, 50, 38, 47, 235, 110, 149, 40, 239, 227, 51]);
}

#[test]
fn test_splitmix_2() {
    let mut dev = SplitMix::new(1234567);
    assert_eq!(entropy::seed::<u64, _>(&mut dev).unwrap(), 6457827717110365317);
    assert_eq!(entropy::seed::<u64, _>(&mut dev).unwrap(), 3203168211198807973);
    assert_eq!(entropy::seed::<u64, _>(&mut dev).unwrap(), 9817491932198370423);
    assert_eq!(entropy::seed::<u64, _>(&mut dev).unwrap(), 4593380528125082431);
    assert_eq!(entropy::seed::<u64, _>(&mut dev).unwrap(), 16408922859458223821);
}

#[test]
fn test_hash_map_entropy_smoke_test() {
    let mut dev = HashMapEntropy::new();
    let s1: u64 = entropy::seed(&mut dev).unwrap();
    let s2: u64 = entropy::seed(&mut dev).unwrap();
    assert_ne!(s1, s2);
}
