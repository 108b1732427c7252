//! Output conformance of the PCG generator against the reference
//! vectors, and its typed draw paths.

use smallrand::devices::RandomDevice;
use smallrand::entropy::EntropyError;
use smallrand::pcg::PcgXsl128_64;

struct DummyDevice;

impl RandomDevice for DummyDevice {
    type Model = ();

    fn seed_bytes(&mut self, count: usize) -> Result<Vec<u8>, EntropyError> {
        Ok(vec![42u8; count])
    }
}

fn pcg() -> PcgXsl128_64 {
    PcgXsl128_64::new(&mut DummyDevice {}).unwrap()
}

#[test]
fn test_pcg_output() {
    // These test vectors are from the PCG reference implementation:
    let mut rng = PcgXsl128_64::new_with_increment(42, 54);
    assert_eq!(
        vec![
            0x86b1da1d72062b68_u64,
            0x1304aa46c9853d39,
            0xa3670e9e0dd50358,
            0xf9090e529a7dae00,
            0xc85b9fd837996f2c,
            0x606121f8e3919196,
        ],
        rng.iter::<u64>(6)
    );
}

#[test]
fn test_pcg_output_with_default_increment() {
    let reference = vec![
        6238911245709606319_u64,
        5238302247168832727,
        4297377549515893626,
        7003277208431798990,
        10313739050882324746,
        7614407471834827897,
    ];
    let mut rng = pcg();
    assert_eq!(reference, rng.iter::<u64>(6));
    rng = pcg();
    for r in reference {
        assert_eq!(r, rng.random::<u64>());
    }
}

#[test]
fn pcg_generate_bools() {
    let mut rng = pcg();
    assert_eq!(vec![true, true, false, false, false, true], rng.iter::<bool>(6));
}

#[test]
fn pcg_generate_u8() {
    let mut rng = pcg();
    assert_eq!(vec![175_u8, 215, 122, 206, 10, 121], rng.iter::<u8>(6));
}

#[test]
fn pcg_generate_u8_fast() {
    let mut rng = pcg();
    assert_eq!(vec![175, 253, 181, 9, 185, 16], rng.iter_u8(6));
}

#[test]
fn pcg_generate_u16() {
    let mut rng = pcg();
    assert_eq!(vec![64943_u16, 62679, 11130, 43726, 22794, 35961], rng.iter::<u16>(6));
}

#[test]
fn pcg_generate_u32() {
    let mut rng = pcg();
    assert_eq!(
        vec![162921903_u32, 3701535959, 3768724346, 539667150, 2984925450, 3050015865],
        rng.iter::<u32>(6)
    );
}

#[test]
fn pcg_generate_u128() {
    let mut rng = pcg();
    assert_eq!(
        vec![
            115087599048193556605888723764539094231_u128,
            79272623844024785956538378246444198606,
            190254904714650299646906997679195917433,
            195815291615320330060185591365323202247,
            266585136419131235011947267918666247456,
            314161403799413480381367577600824184889
        ],
        rng.iter::<u128>(6)
    );
}
