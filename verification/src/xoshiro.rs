//! The xoshiro256++ bit generator and the SplitMix64 seed expander.

use crate::devices::{FromRaw, RandomDevice};
use crate::entropy::{spec_u64_from_be, EntropyError, GetRandom};
use crate::ranges::GenerateRange;
use crate::rng;
use crate::rng::{RangeFromRng, Rng, ValueFromRng};
use vstd::prelude::*;

verus! {

/// Additive constant of the SplitMix64 state transition.
pub const SPLITMIX_GAMMA: u64 = 0x9e37_79b9_7f4a_7c15;
/// First multiplicative mixing constant of SplitMix64.
pub const SPLITMIX_MIX1: u64 = 0xbf58_476d_1ce4_e5b9;
/// Second multiplicative mixing constant of SplitMix64.
pub const SPLITMIX_MIX2: u64 = 0x94d0_49bb_1331_11eb;

/// Rotates `x` left by `k` bits, for `0 < k < 64`.
pub open spec fn spec_rotl64(x: u64, k: u64) -> u64
    recommends
        0 < k < 64,
{
    (x << k) | (x >> (64 - k) as u64)
}

/// One SplitMix64 step: the output word and the successor state.
pub open spec fn spec_splitmix_next(state: u64) -> (u64, u64) {
    let s = state.wrapping_add(SPLITMIX_GAMMA);
    let z1 = (s ^ (s >> 30)).wrapping_mul(SPLITMIX_MIX1);
    let z2 = (z1 ^ (z1 >> 27)).wrapping_mul(SPLITMIX_MIX2);
    (z2 ^ (z2 >> 31), s)
}

/// The first `n` SplitMix64 outputs from `state`.
pub open spec fn spec_splitmix_words(state: u64, n: nat) -> Seq<u64>
    decreases n,
{
    if n == 0 {
        Seq::empty()
    } else {
        let (word, next) = spec_splitmix_next(state);
        seq![word] + spec_splitmix_words(next, (n - 1) as nat)
    }
}

/// The SplitMix64 algorithm: a fast bit mixer used to expand a single
/// 64-bit seed into as many apparently independent words as needed.
pub struct SplitMix64 {
    state: u64,
}

impl SplitMix64 {
    /// The current state, as contracts see it.
    pub closed spec fn view_state(&self) -> u64 {
        self.state
    }

    /// Creates a SplitMix64 expander seeded with `state`.
    pub fn new(state: u64) -> (r: Self)
        ensures
            r.view_state() == state,
    {
        Self { state }
    }

    /// Produces the next output word and advances the state.
    pub fn next(&mut self) -> (r: u64)
        ensures
            (r, final(self).view_state()) == spec_splitmix_next(old(self).view_state()),
    {
        self.state = self.state.wrapping_add(SPLITMIX_GAMMA);
        let mut z: u64 = self.state;
        z = (z ^ (z >> 30)).wrapping_mul(SPLITMIX_MIX1);
        z = (z ^ (z >> 27)).wrapping_mul(SPLITMIX_MIX2);
        z ^ (z >> 31)
    }
}

/// The xoshiro256++ state transition and output function, as one step:
/// the output word is computed before the state advances, and the shift
/// of the third word uses the value of the second word from before the
/// transition.
pub open spec fn spec_xoshiro_step(m: (u64, u64, u64, u64)) -> (u64, (u64, u64, u64, u64)) {
    let (s0, s1, s2, s3) = m;
    let result = spec_rotl64(s0.wrapping_add(s3), 23).wrapping_add(s0);
    let t = s1 << 17;
    let s2a = s2 ^ s0;
    let s3a = s3 ^ s1;
    let s1b = s1 ^ s2a;
    let s0b = s0 ^ s3a;
    let s2b = s2a ^ t;
    let s3b = spec_rotl64(s3a, 45);
    (result, (s0b, s1b, s2b, s3b))
}

/// Holds when the four state words `m` were read from a device, eight
/// big-endian bytes each, carrying the device from `pre` to `post`.
pub open spec fn spec_device_seeded<T: RandomDevice>(
    pre: T::Model,
    post: T::Model,
    m: (u64, u64, u64, u64),
) -> bool {
    exists|
        d0: Seq<u8>,
        d1: Seq<u8>,
        d2: Seq<u8>,
        d3: Seq<u8>,
        m1: T::Model,
        m2: T::Model,
        m3: T::Model,
    |
        d0.len() == 8 && d1.len() == 8 && d2.len() == 8 && d3.len() == 8
            && #[trigger] T::seed_ok(pre, m1, d0) && #[trigger] T::seed_ok(m1, m2, d1)
            && #[trigger] T::seed_ok(m2, m3, d2) && #[trigger] T::seed_ok(m3, post, d3) && m == (
            spec_u64_from_be(d0),
            spec_u64_from_be(d1),
            spec_u64_from_be(d2),
            spec_u64_from_be(d3),
        )
}

/// The state that `from_seed` builds: four SplitMix64 outputs.
pub open spec fn spec_xoshiro_from_seed(seed: u64) -> (u64, u64, u64, u64) {
    let (w0, e1) = spec_splitmix_next(seed);
    let (w1, e2) = spec_splitmix_next(e1);
    let (w2, e3) = spec_splitmix_next(e2);
    let (w3, _) = spec_splitmix_next(e3);
    (w0, w1, w2, w3)
}

/// An xoshiro256++ random generator: 256 bits of state, 64-bit outputs.
/// Fast and statistically strong, but not cryptographically secure: the
/// internal state can be reconstructed from enough observed output.
pub struct Xoshiro256pp {
    s0: u64,
    s1: u64,
    s2: u64,
    s3: u64,
}

impl Rng for Xoshiro256pp {
    type Model = (u64, u64, u64, u64);

    closed spec fn model(&self) -> (u64, u64, u64, u64) {
        (self.s0, self.s1, self.s2, self.s3)
    }

    open spec fn step32(m: (u64, u64, u64, u64)) -> (u32, (u64, u64, u64, u64)) {
        let (w, m2) = spec_xoshiro_step(m);
        (w as u32, m2)
    }

    open spec fn step64(m: (u64, u64, u64, u64)) -> (u64, (u64, u64, u64, u64)) {
        spec_xoshiro_step(m)
    }

    /// The 32-bit output is the low half of the next 64-bit output.
    fn random_u32(&mut self) -> (r: u32) {
        #[verifier::truncate] (self.next_random() as u32)
    }

    fn random_u64(&mut self) -> (r: u64) {
        self.next_random()
    }
}

impl Xoshiro256pp {
    /// Creates an xoshiro256++ generator seeded from the operating
    /// system's entropy facility.
    pub fn new() -> (r: Result<Self, EntropyError>)
        ensures
            match r {
                Ok(g) => spec_device_seeded::<GetRandom>((), (), g.model()),
                Err(e) => e == EntropyError::Unavailable || e == EntropyError::AllZeros,
            },
    {
        let mut device = GetRandom::new();
        match Self::from_device(&mut device) {
            Ok(g) => Ok(g),
            Err(e) => Err(e),
        }
    }

    /// Creates an xoshiro256++ generator with a seed of four words read
    /// from a random device, eight big-endian bytes each.
    pub fn from_device<T: RandomDevice>(random_device: &mut T) -> (r: Result<
        Self,
        EntropyError,
    >)
        ensures
            match r {
                Ok(g) => spec_device_seeded::<T>(
                    old(random_device).model(),
                    final(random_device).model(),
                    g.model(),
                ),
                Err(e) => exists|mi: T::Model|
                    #[trigger] T::seed_err(mi, final(random_device).model(), e),
            },
    {
        let ghost m0 = random_device.model();
        let s0 = match u64::from_raw(random_device) {
            Ok(v) => v,
            Err(e) => {
                return Err(e);
            },
        };
        let ghost m1 = random_device.model();
        let s1 = match u64::from_raw(random_device) {
            Ok(v) => v,
            Err(e) => {
                return Err(e);
            },
        };
        let ghost m2 = random_device.model();
        let s2 = match u64::from_raw(random_device) {
            Ok(v) => v,
            Err(e) => {
                return Err(e);
            },
        };
        let ghost m3 = random_device.model();
        let s3 = match u64::from_raw(random_device) {
            Ok(v) => v,
            Err(e) => {
                return Err(e);
            },
        };
        proof {
            let m4 = random_device.model();
            let d0 = choose|data: Seq<u8>|
                data.len() == <u64 as FromRaw>::width() && #[trigger] T::seed_ok(m0, m1, data)
                    && s0 == <u64 as FromRaw>::of_bytes(data);
            let d1 = choose|data: Seq<u8>|
                data.len() == <u64 as FromRaw>::width() && #[trigger] T::seed_ok(m1, m2, data)
                    && s1 == <u64 as FromRaw>::of_bytes(data);
            let d2 = choose|data: Seq<u8>|
                data.len() == <u64 as FromRaw>::width() && #[trigger] T::seed_ok(m2, m3, data)
                    && s2 == <u64 as FromRaw>::of_bytes(data);
            let d3 = choose|data: Seq<u8>|
                data.len() == <u64 as FromRaw>::width() && #[trigger] T::seed_ok(m3, m4, data)
                    && s3 == <u64 as FromRaw>::of_bytes(data);
            assert(spec_device_seeded::<T>(m0, m4, (s0, s1, s2, s3)));
        }
        Ok(Self { s0, s1, s2, s3 })
    }

    /// Draws one typed value; see the crate's value codec.
    pub fn random<T: ValueFromRng>(&mut self) -> (v: T)
        ensures
            v == rng::spec_value_of::<T, Self>(old(self).model()),
            final(self).model() == rng::spec_after_value::<T, Self>(old(self).model()),
    {
        rng::random(self)
    }

    /// Draws one value uniformly from `bounds`; an inverted range is a
    /// usage error, excluded by the precondition.
    pub fn range<T: RangeFromRng>(&mut self, bounds: GenerateRange<T>) -> (v: T)
        requires
            bounds.start.le_spec(bounds.end_inclusive),
        ensures
            bounds.start.le_spec(v),
            v.le_spec(bounds.end_inclusive),
            bounds.start == bounds.end_inclusive ==> v == bounds.start && final(self).model()
                == old(self).model(),
            v == T::range_value(
                rng::spec_range_words32::<Self>(old(self).model()),
                rng::spec_range_words64::<Self>(old(self).model()),
                bounds,
            ),
            final(self).model() == rng::spec_after64::<Self>(
                rng::spec_after32::<Self>(
                    old(self).model(),
                    T::range_consumed32(
                        rng::spec_range_words32::<Self>(old(self).model()),
                        rng::spec_range_words64::<Self>(old(self).model()),
                        bounds,
                    ),
                ),
                T::range_consumed64(
                    rng::spec_range_words32::<Self>(old(self).model()),
                    rng::spec_range_words64::<Self>(old(self).model()),
                    bounds,
                ),
            ),
    {
        rng::range(self, bounds)
    }

    /// Draws `count` typed values, in draw order.
    pub fn iter<T: ValueFromRng>(&mut self, count: usize) -> (values: Vec<T>)
        ensures
            values@ == rng::spec_typed_stream::<T, Self>(old(self).model(), count as nat),
            final(self).model() == rng::spec_after_values::<T, Self>(
                old(self).model(),
                count as nat,
            ),
    {
        rng::iter(self, count)
    }

    /// Draws `count` bytes: the little-endian expansion of consecutive
    /// 64-bit draws.
    pub fn iter_u8(&mut self, count: usize) -> (values: Vec<u8>)
        ensures
            values@ == rng::spec_bytes_of_words(
                rng::spec_words64::<Self>(
                    old(self).model(),
                    rng::spec_words_for_bytes(count as nat),
                ),
            ).take(count as int),
            final(self).model() == rng::spec_after64::<Self>(
                old(self).model(),
                rng::spec_words_for_bytes(count as nat),
            ),
    {
        rng::iter_u8(self, count)
    }

    /// Overwrites every element of `destination` with a fresh draw, in
    /// index order.
    pub fn fill<T: ValueFromRng>(&mut self, destination: &mut Vec<T>)
        ensures
            final(destination)@ == rng::spec_typed_stream::<T, Self>(
                old(self).model(),
                old(destination)@.len(),
            ),
            final(self).model() == rng::spec_after_values::<T, Self>(
                old(self).model(),
                old(destination)@.len(),
            ),
    {
        rng::fill(self, destination)
    }

    /// Overwrites `destination` with fresh bytes: the little-endian
    /// expansion of consecutive 64-bit draws, cut to length.
    pub fn fill_u8(&mut self, destination: &mut Vec<u8>)
        ensures
            final(destination)@ == rng::spec_bytes_of_words(
                rng::spec_words64::<Self>(
                    old(self).model(),
                    rng::spec_words_for_bytes(old(destination)@.len()),
                ),
            ).take(old(destination)@.len() as int),
            final(self).model() == rng::spec_after64::<Self>(
                old(self).model(),
                rng::spec_words_for_bytes(old(destination)@.len()),
            ),
    {
        rng::fill_u8(self, destination)
    }

    /// Rearranges the elements of `target` in place; the result holds
    /// exactly the elements it started with.
    pub fn shuffle<T>(&mut self, target: &mut Vec<T>)
        ensures
            final(target)@.len() == old(target)@.len(),
            final(target)@.to_multiset() == old(target)@.to_multiset(),
    {
        rng::shuffle(self, target)
    }

    /// Creates an xoshiro256++ generator from four explicit state words.
    /// The state should not be all zero: that state reproduces itself and
    /// the generator would only ever output zero words.
    pub fn from_state(state: [u64; 4]) -> (r: Self)
        ensures
            r.model() == (state[0], state[1], state[2], state[3]),
    {
        Self { s0: state[0], s1: state[1], s2: state[2], s3: state[3] }
    }

    /// Creates an xoshiro256++ generator from a single 64-bit seed, using
    /// SplitMix64 to expand the seed into the four state words.
    pub fn from_seed(seed: u64) -> (r: Self)
        ensures
            r.model() == spec_xoshiro_from_seed(seed),
    {
        let mut seed_generator = SplitMix64::new(seed);
        let s0 = seed_generator.next();
        let s1 = seed_generator.next();
        let s2 = seed_generator.next();
        let s3 = seed_generator.next();
        Self { s0, s1, s2, s3 }
    }

    /// Produces the next 64-bit output and advances the state.
    pub fn next_random(&mut self) -> (r: u64)
        ensures
            (r, final(self).model()) == spec_xoshiro_step(old(self).model()),
    {
        let result = rotl64(self.s0.wrapping_add(self.s3), 23).wrapping_add(self.s0);

        let t = self.s1 << 17u64;

        self.s2 = self.s2 ^ self.s0;
        self.s3 = self.s3 ^ self.s1;
        self.s1 = self.s1 ^ self.s2;
        self.s0 = self.s0 ^ self.s3;

        self.s2 = self.s2 ^ t;

        self.s3 = rotl64(self.s3, 45);

        result
    }
}

/// Rotates `x` left by `k` bits.
fn rotl64(x: u64, k: u64) -> (r: u64)
    requires
        0 < k < 64,
    ensures
        r == spec_rotl64(x, k),
{
    (x << k) | (x >> (64 - k))
}

} // verus!
