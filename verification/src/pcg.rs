//! The PCG XSL-RR 128/64 bit generator: a 128-bit linear-congruential
//! state with a caller-configurable odd increment, whose 64-bit output
//! xors the state halves and rotates by the state's top bits.

use crate::devices::{FromRaw, RandomDevice};
use crate::entropy::{spec_u128_from_be, EntropyError};
use crate::ranges::GenerateRange;
use crate::rng;
use crate::rng::{RangeFromRng, Rng, ValueFromRng};
use vstd::prelude::*;

verus! {

/// The fixed 128-bit multiplier of the linear-congruential step.
pub const PCG_MULTIPLIER_128: u128 = 0x2360_ED05_1FC6_5DA4_4385_DF64_9FCC_F645;
/// The default 128-bit increment, used when the caller supplies none.
pub const PCG_DEFAULT_INCREMENT_128: u128 = 0x5851_F42D_4C95_7F2D_1405_7B7E_F767_814F;

/// Rotates `x` right by `k` bits, for `k < 64`.
pub open spec fn spec_rotr64(x: u64, k: u64) -> u64
    recommends
        k < 64,
{
    if k == 0 {
        x
    } else {
        (x >> k) | (x << (64 - k) as u64)
    }
}

/// One linear-congruential step: the state is multiplied by the fixed
/// multiplier and the increment is added, both wrapping.
pub open spec fn spec_pcg_advance(state: u128, inc: u128) -> u128 {
    state.wrapping_mul(PCG_MULTIPLIER_128).wrapping_add(inc)
}

/// The output function: xor of the state's halves, rotated right by the
/// state's top six bits.
pub open spec fn spec_pcg_output(state: u128) -> u64 {
    spec_rotr64(((state >> 64) as u64) ^ (state as u64), (state >> 122) as u64)
}

/// One full 64-bit step of the generator: advance, then output the new
/// state.
pub open spec fn spec_pcg_step(m: (u128, u128)) -> (u64, (u128, u128)) {
    let next = spec_pcg_advance(m.0, m.1);
    (spec_pcg_output(next), (next, m.1))
}

/// The state that `new_with_increment` builds, mirroring the reference
/// initialization order exactly: zero the state, step, add the seed,
/// step again.
pub open spec fn spec_pcg_init(seed: u128, inc: u128) -> (u128, u128) {
    let odd_inc = (inc << 1) | 1;
    let s1 = spec_pcg_advance(0, odd_inc);
    let s2 = s1.wrapping_add(seed);
    let s3 = spec_pcg_advance(s2, odd_inc);
    (s3, odd_inc)
}

/// A PCG random generator (the "pcg_state_setseq_128" variant with
/// XSL-RR output). Efficient with good statistical properties, but not
/// cryptographically secure: the internal state can be reconstructed
/// from enough observed output.
pub struct PcgXsl128_64 {
    state: u128,
    inc: u128,
}

impl Rng for PcgXsl128_64 {
    type Model = (u128, u128);

    closed spec fn model(&self) -> (u128, u128) {
        (self.state, self.inc)
    }

    open spec fn step32(m: (u128, u128)) -> (u32, (u128, u128)) {
        let (w, m2) = spec_pcg_step(m);
        (w as u32, m2)
    }

    open spec fn step64(m: (u128, u128)) -> (u64, (u128, u128)) {
        spec_pcg_step(m)
    }

    /// The 32-bit output is the low half of the next 64-bit output.
    fn random_u32(&mut self) -> (r: u32) {
        #[verifier::truncate] (self.random_u64() as u32)
    }

    fn random_u64(&mut self) -> (r: u64) {
        self.next();
        self.output()
    }
}

impl PcgXsl128_64 {
    /// Creates a PCG generator from a 128-bit seed and an increment.
    /// The increment's low bit is forced on: the linear-congruential
    /// step demands an odd increment. The initialization order (step,
    /// add seed, step) matches the reference construction, so repeated
    /// construction from the same arguments is bit-identical.
    pub fn new_with_increment(seed: u128, inc: u128) -> (r: Self)
        ensures
            r.model() == spec_pcg_init(seed, inc),
            r.model().1 & 1 == 1,
    {
        let mut rng = Self { state: 0, inc: (inc << 1) | 1 };
        rng.next();
        rng.state = rng.state.wrapping_add(seed);
        rng.next();
        proof {
            assert(((inc << 1) | 1u128) & 1u128 == 1u128) by (bit_vector);
        }
        rng
    }

    /// Creates a PCG generator with a 128-bit seed read from a random
    /// device, sixteen big-endian bytes, and the default increment.
    pub fn new<T: RandomDevice>(random_device: &mut T) -> (r: Result<Self, EntropyError>)
        ensures
            match r {
                Ok(g) => exists|data: Seq<u8>|
                    data.len() == 16 && #[trigger] T::seed_ok(
                        old(random_device).model(),
                        final(random_device).model(),
                        data,
                    ) && g.model() == spec_pcg_init(
                        spec_u128_from_be(data),
                        PCG_DEFAULT_INCREMENT_128,
                    ),
                Err(e) => T::seed_err(
                    old(random_device).model(),
                    final(random_device).model(),
                    e,
                ),
            },
    {
        match u128::from_raw(random_device) {
            Ok(seed) => Ok(Self::new_with_increment(seed, PCG_DEFAULT_INCREMENT_128)),
            Err(e) => Err(e),
        }
    }

    /// Advances the state by one linear-congruential step.
    fn next(&mut self)
        ensures
            final(self).model() == (spec_pcg_advance(
                old(self).model().0,
                old(self).model().1,
            ), old(self).model().1),
    {
        self.state = self.state.wrapping_mul(PCG_MULTIPLIER_128).wrapping_add(self.inc);
    }

    /// Computes the output word of the current state.
    fn output(&self) -> (r: u64)
        ensures
            r == spec_pcg_output(self.model().0),
    {
        let hi = #[verifier::truncate] ((self.state >> 64) as u64);
        let lo = #[verifier::truncate] (self.state as u64);
        let k = #[verifier::truncate] ((self.state >> 122) as u64);
        proof {
            let st = self.state;
            assert(st >> 122 < 64) by (bit_vector);
            assert(((st >> 122) as u64) < 64) by (bit_vector);
        }
        rotr64(hi ^ lo, k)
    }

    /// Draws one typed value; see the crate's value codec.
    pub fn random<T: ValueFromRng>(&mut self) -> (v: T)
        ensures
            v == rng::spec_value_of::<T, Self>(old(self).model()),
            final(self).model() == rng::spec_after_value::<T, Self>(old(self).model()),
    {
        rng::random(self)
    }

    /// Draws one value uniformly from `bounds`; an inverted range is a
    /// usage error, excluded by the precondition.
    pub fn range<T: RangeFromRng>(&mut self, bounds: GenerateRange<T>) -> (v: T)
        requires
            bounds.start.le_spec(bounds.end_inclusive),
        ensures
            bounds.start.le_spec(v),
            v.le_spec(bounds.end_inclusive),
            bounds.start == bounds.end_inclusive ==> v == bounds.start && final(self).model()
                == old(self).model(),
            v == T::range_value(
                rng::spec_range_words32::<Self>(old(self).model()),
                rng::spec_range_words64::<Self>(old(self).model()),
                bounds,
            ),
            final(self).model() == rng::spec_after64::<Self>(
                rng::spec_after32::<Self>(
                    old(self).model(),
                    T::range_consumed32(
                        rng::spec_range_words32::<Self>(old(self).model()),
                        rng::spec_range_words64::<Self>(old(self).model()),
                        bounds,
                    ),
                ),
                T::range_consumed64(
                    rng::spec_range_words32::<Self>(old(self).model()),
                    rng::spec_range_words64::<Self>(old(self).model()),
                    bounds,
                ),
            ),
    {
        rng::range(self, bounds)
    }

    /// Draws `count` typed values, in draw order.
    pub fn iter<T: ValueFromRng>(&mut self, count: usize) -> (values: Vec<T>)
        ensures
            values@ == rng::spec_typed_stream::<T, Self>(old(self).model(), count as nat),
            final(self).model() == rng::spec_after_values::<T, Self>(
                old(self).model(),
                count as nat,
            ),
    {
        rng::iter(self, count)
    }

    /// Draws `count` bytes: the little-endian expansion of consecutive
    /// 64-bit draws.
    pub fn iter_u8(&mut self, count: usize) -> (values: Vec<u8>)
        ensures
            values@ == rng::spec_bytes_of_words(
                rng::spec_words64::<Self>(
                    old(self).model(),
                    rng::spec_words_for_bytes(count as nat),
                ),
            ).take(count as int),
            final(self).model() == rng::spec_after64::<Self>(
                old(self).model(),
                rng::spec_words_for_bytes(count as nat),
            ),
    {
        rng::iter_u8(self, count)
    }
}

/// Rotates `x` right by `k` bits.
fn rotr64(x: u64, k: u64) -> (r: u64)
    requires
        k < 64,
    ensures
        r == spec_rotr64(x, k),
{
    if k == 0 {
        x
    } else {
        (x >> k) | (x << (64 - k))
    }
}

/// Law: construction order is idempotent. The state built by
/// `new_with_increment` is a function of the seed and increment alone,
/// so repeated construction from the same arguments is bit-identical,
/// and with the stream determinism law the two generators produce the
/// same outputs forever.
pub proof fn lemma_pcg_construction_idempotent(
    seed1: u128,
    inc1: u128,
    seed2: u128,
    inc2: u128,
)
    requires
        seed1 == seed2,
        inc1 == inc2,
    ensures
        spec_pcg_init(seed1, inc1) == spec_pcg_init(seed2, inc2),
{
}

} // verus!
