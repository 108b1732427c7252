//! Output conformance of the xoshiro256++ generator and its derived
//! draw, fill and range paths.

use smallrand::devices::RandomDevice;
use smallrand::ranges::GenerateRange;
use smallrand::entropy::EntropyError;
use smallrand::rng::MantissaDraw;
use smallrand::xoshiro::Xoshiro256pp;

struct DummyDevice;

impl RandomDevice for DummyDevice {
    type Model = ();

    fn seed_bytes(&mut self, count: usize) -> Result<Vec<u8>, EntropyError> {
        let mut out = Vec::new();
        let mut i: usize = 0;
        while i < count {
            out.push((i + 42) as u8);
            i += 1;
        }
        Ok(out)
    }
}

fn xoshiro() -> Xoshiro256pp {
    Xoshiro256pp::from_device(&mut DummyDevice {}).unwrap()
}

#[test]
fn test_xoshiro_output() {
    // These test vectors match the values generated by the reference
    // xoshiro256++ implementation:
    let mut rng = Xoshiro256pp::from_state([1, 2, 3, 4]);
    assert_eq!(
        vec![
            41943041,
            58720359,
            3588806011781223,
            3591011842654386,
            9228616714210784205,
            9973669472204895162,
            14011001112246962877,
            12406186145184390807,
            15849039046786891736,
            10450023813501588000,
        ],
        rng.iter::<u64>(10)
    );
}

#[test]
fn test_xoshiro_from_seed() {
    let mut rng = Xoshiro256pp::from_seed(0u64);
    assert_eq!(
        vec![
            5987356902031041503,
            7051070477665621255,
            6633766593972829180,
            211316841551650330,
            9136120204379184874,
            379361710973160858,
            15813423377499357806,
            15596884590815070553,
            5439680534584881407,
            1369371744833522710,
        ],
        rng.iter::<u64>(10)
    );
}

#[test]
fn test_xoshiro_range() {
    // The ranged draw follows the width split: an eight-bit range is
    // sampled with Lemire's method from a 16-bit draw, here the low
    // 16 bits (9183) of the generator's first word; the candidate is
    // the high half of 9183 * 31, which is 4.
    let mut rng = Xoshiro256pp::from_seed(0u64);
    assert_eq!(rng.range(GenerateRange::<u8>::half_open(11, 42)), 15)
}

#[test]
fn test_xoshiro_random() {
    let mut rng = Xoshiro256pp::from_seed(0u64);
    assert_eq!(rng.random::<u64>(), 5987356902031041503)
}

#[test]
fn xoshiro_generate_bools() {
    let mut rng = xoshiro();
    assert_eq!(vec![true, true, false, true, true, true], rng.iter::<bool>(6));
}

#[test]
fn xoshiro_generate_u8() {
    let mut rng = xoshiro();
    assert_eq!(vec![93, 199, 18, 93, 255, 159], rng.iter::<u8>(6));
}

#[test]
fn xoshiro_generate_u8_fast() {
    let mut rng = xoshiro();
    assert_eq!(vec![93, 91, 89, 95, 93, 91], rng.iter_u8(6));
}

#[test]
fn xoshiro_generate_u16() {
    let mut rng = xoshiro();
    assert_eq!(vec![23389, 17863, 786, 12381, 18687, 18079], rng.iter::<u16>(6));
}

#[test]
fn xoshiro_generate_u32() {
    let mut rng = xoshiro();
    assert_eq!(
        vec![1599691613, 1187268039, 3807576850, 1187065949, 2131446015, 3237824159],
        rng.iter::<u32>(6)
    );
}

#[test]
fn xoshiro_generate_u128() {
    let mut rng = xoshiro();
    assert_eq!(
        vec![
            116106803150699428516699394013734913479,
            216263115653590202844377321789695537245,
            328425740128965645684326511152092497567,
            254561204173543679954141383040234184739,
            40455170329874112030313783831106647436,
            309825739868400302084046781679576737863
        ],
        rng.iter::<u128>(6)
    );
}

#[test]
fn xoshiro_generate_usize() {
    let mut rng = xoshiro();
    assert_eq!(
        vec![
            6294162410816756573,
            4666366678484141511,
            11723646991005319954,
            3577826909737791581,
            17803995047399213311,
            17636447047143736991
        ],
        rng.iter::<usize>(6)
    );
}

#[test]
fn xoshiro_fill_u32() {
    let mut rng = xoshiro();
    let mut data = vec![0_u32; 4];
    rng.fill(&mut data);
    assert_eq!(vec![1599691613, 1187268039, 3807576850, 1187065949], data);
}

#[test]
fn xoshiro_fill_u8() {
    let mut rng = xoshiro();
    let mut data = vec![0_u8; 4];
    rng.fill_u8(&mut data);
    assert_eq!(vec![93, 91, 89, 95], data);
}

/// The float value drawn from `rng` for a 52-bit mantissa over the
/// half-open range `start..end`.
fn f64_range(rng: &mut Xoshiro256pp, start: f64, end: f64) -> f64 {
    let normalized = match smallrand::rng::mantissa_draw(rng, 52) {
        MantissaDraw::Single(v) => (v as f64) / 2_f64.powi(64),
        MantissaDraw::Double(v) => (v as f64) / 2_f64.powi(128),
    };
    normalized * (end - start) + start
}

/// The float value drawn from `rng` for a 23-bit mantissa over the
/// half-open range `start..end`.
fn f32_range(rng: &mut Xoshiro256pp, start: f32, end: f32) -> f32 {
    let normalized = match smallrand::rng::mantissa_draw(rng, 23) {
        MantissaDraw::Single(v) => (v as f32) / 2_f32.powi(64),
        MantissaDraw::Double(v) => (v as f32) / 2_f32.powi(128),
    };
    normalized * (end - start) + start
}

#[test]
fn xoshiro_bounded_range_f64() {
    let mut rng = xoshiro();
    let mut min = 42_f64;
    let mut max = 4_f64;
    for _ in 0..100 * 256 {
        let value: f64 = f64_range(&mut rng, 4.0, 42.0);
        assert!(value >= 4.0);
        assert!(value <= 42.0);
        min = min.min(value);
        max = max.max(value);
    }
    assert!(min < 4.01);
    assert!(max >= 41.99);
}

#[test]
fn xoshiro_bounded_range_f32() {
    let mut rng = xoshiro();
    let mut min = 42_f32;
    let mut max = 4_f32;
    for _ in 0..100 * 256 {
        let value: f32 = f32_range(&mut rng, 4.0, 42.0);
        assert!(value >= 4.0);
        assert!(value <= 42.0);
        min = min.min(value);
        max = max.max(value);
    }
    assert!(min < 4.01);
    assert!(max >= 41.99);
}
