//! A small, fast general-purpose generator: an xoshiro256++ behind a
//! stable facade. Not cryptographically secure.

use crate::entropy::{EntropyError, EntropySource, GetRandom, SplitMix};
use crate::ranges::GenerateRange;
use crate::rng;
use crate::rng::{RangeFromRng, Rng, ValueFromRng};
use crate::xoshiro::{spec_xoshiro_from_seed, spec_xoshiro_step, Xoshiro256pp};
use vstd::prelude::*;

verus! {

/// Holds when the facade's four state words were seeded from an
/// entropy source by four big-endian 64-bit reads, carrying the source
/// from `pre` to `post`.
pub open spec fn spec_small_seeded<T: EntropySource>(
    pre: T::Model,
    post: T::Model,
    m: (u64, u64, u64, u64),
) -> bool {
    exists|
        d0: Seq<u8>,
        d1: Seq<u8>,
        d2: Seq<u8>,
        d3: Seq<u8>,
        m1: T::Model,
        m2: T::Model,
        m3: T::Model,
    |
        d0.len() == 8 && d1.len() == 8 && d2.len() == 8 && d3.len() == 8
            && #[trigger] T::fill_ok(pre, m1, d0) && #[trigger] T::fill_ok(m1, m2, d1)
            && #[trigger] T::fill_ok(m2, m3, d2) && #[trigger] T::fill_ok(m3, post, d3) && m == (
            crate::entropy::spec_u64_from_be(d0),
            crate::entropy::spec_u64_from_be(d1),
            crate::entropy::spec_u64_from_be(d2),
            crate::entropy::spec_u64_from_be(d3),
        )
}

/// A numerically strong, fast generator for everything that does not
/// need to be cryptographically secure. The algorithm behind it (at
/// present xoshiro256++) may change; callers that depend on the exact
/// output should use a specific algorithm directly.
pub struct SmallRng(Xoshiro256pp);

impl Rng for SmallRng {
    type Model = (u64, u64, u64, u64);

    closed spec fn model(&self) -> (u64, u64, u64, u64) {
        self.0.model()
    }

    open spec fn step32(m: (u64, u64, u64, u64)) -> (u32, (u64, u64, u64, u64)) {
        let (w, m2) = spec_xoshiro_step(m);
        (w as u32, m2)
    }

    open spec fn step64(m: (u64, u64, u64, u64)) -> (u64, (u64, u64, u64, u64)) {
        spec_xoshiro_step(m)
    }

    fn random_u32(&mut self) -> (r: u32) {
        self.0.random_u32()
    }

    fn random_u64(&mut self) -> (r: u64) {
        self.0.random_u64()
    }
}

impl SmallRng {
    /// Creates a generator seeded from the operating system's entropy
    /// facility.
    pub fn new() -> (r: Result<Self, EntropyError>)
        ensures
            match r {
                Ok(g) => spec_small_seeded::<GetRandom>((), (), g.model()),
                Err(e) => e == EntropyError::Unavailable || e == EntropyError::AllZeros,
            },
    {
        let mut source = GetRandom::new();
        match Self::from_entropy(&mut source) {
            Ok(g) => Ok(g),
            Err(e) => Err(e),
        }
    }

    /// Creates a generator with a seed drawn from an entropy source:
    /// four words, eight big-endian bytes each.
    pub fn from_entropy<T: EntropySource>(entropy_source: &mut T) -> (r: Result<
        Self,
        EntropyError,
    >)
        ensures
            match r {
                Ok(g) => spec_small_seeded::<T>(
                    old(entropy_source).model(),
                    final(entropy_source).model(),
                    g.model(),
                ),
                Err(e) => exists|mi: T::Model|
                    #[trigger] T::fill_err(mi, final(entropy_source).model(), e),
            },
    {
        let ghost m0 = entropy_source.model();
        let s0 = match crate::entropy::seed::<u64, T>(entropy_source) {
            Ok(v) => v,
            Err(e) => {
                return Err(e);
            },
        };
        let ghost m1 = entropy_source.model();
        let s1 = match crate::entropy::seed::<u64, T>(entropy_source) {
            Ok(v) => v,
            Err(e) => {
                return Err(e);
            },
        };
        let ghost m2 = entropy_source.model();
        let s2 = match crate::entropy::seed::<u64, T>(entropy_source) {
            Ok(v) => v,
            Err(e) => {
                return Err(e);
            },
        };
        let ghost m3 = entropy_source.model();
        let s3 = match crate::entropy::seed::<u64, T>(entropy_source) {
            Ok(v) => v,
            Err(e) => {
                return Err(e);
            },
        };
        proof {
            let m4 = entropy_source.model();
            let d0 = choose|data: Seq<u8>|
                data.len() == <u64 as crate::entropy::FromRaw>::width() && #[trigger] T::fill_ok(
                    m0,
                    m1,
                    data,
                ) && s0 == <u64 as crate::entropy::FromRaw>::of_bytes(data);
            let d1 = choose|data: Seq<u8>|
                data.len() == <u64 as crate::entropy::FromRaw>::width() && #[trigger] T::fill_ok(
                    m1,
                    m2,
                    data,
                ) && s1 == <u64 as crate::entropy::FromRaw>::of_bytes(data);
            let d2 = choose|data: Seq<u8>|
                data.len() == <u64 as crate::entropy::FromRaw>::width() && #[trigger] T::fill_ok(
                    m2,
                    m3,
                    data,
                ) && s2 == <u64 as crate::entropy::FromRaw>::of_bytes(data);
            let d3 = choose|data: Seq<u8>|
                data.len() == <u64 as crate::entropy::FromRaw>::width() && #[trigger] T::fill_ok(
                    m3,
                    m4,
                    data,
                ) && s3 == <u64 as crate::entropy::FromRaw>::of_bytes(data);
            assert(spec_small_seeded::<T>(m0, m4, (s0, s1, s2, s3)));
        }
        Ok(SmallRng(Xoshiro256pp::from_state([s0, s1, s2, s3])))
    }

    /// Creates a generator from a fixed 64-bit seed, expanded with
    /// SplitMix64. A single word is less entropy than the generator
    /// really wants: this is for testing and reproducibility, not for
    /// production seeding.
    pub fn from_seed(seed: u64) -> (r: Self)
        ensures
            r.model() == spec_xoshiro_from_seed(seed),
    {
        SmallRng(Xoshiro256pp::from_seed(seed))
    }

    /// Draws one typed value; see the crate's value codec.
    pub fn random<T: ValueFromRng>(&mut self) -> (v: T)
        ensures
            v == rng::spec_value_of::<T, Self>(old(self).model()),
            final(self).model() == rng::spec_after_value::<T, Self>(old(self).model()),
    {
        rng::random(self)
    }

    /// Draws one value uniformly from `bounds`; an inverted range is a
    /// usage error, excluded by the precondition.
    pub fn range<T: RangeFromRng>(&mut self, bounds: GenerateRange<T>) -> (v: T)
        requires
            bounds.start.le_spec(bounds.end_inclusive),
        ensures
            bounds.start.le_spec(v),
            v.le_spec(bounds.end_inclusive),
            bounds.start == bounds.end_inclusive ==> v == bounds.start && final(self).model()
                == old(self).model(),
            v == T::range_value(
                rng::spec_range_words32::<Self>(old(self).model()),
                rng::spec_range_words64::<Self>(old(self).model()),
                bounds,
            ),
            final(self).model() == rng::spec_after64::<Self>(
                rng::spec_after32::<Self>(
                    old(self).model(),
                    T::range_consumed32(
                        rng::spec_range_words32::<Self>(old(self).model()),
                        rng::spec_range_words64::<Self>(old(self).model()),
                        bounds,
                    ),
                ),
                T::range_consumed64(
                    rng::spec_range_words32::<Self>(old(self).model()),
                    rng::spec_range_words64::<Self>(old(self).model()),
                    bounds,
                ),
            ),
    {
        rng::range(self, bounds)
    }

    /// Draws `count` typed values, in draw order.
    pub fn iter<T: ValueFromRng>(&mut self, count: usize) -> (values: Vec<T>)
        ensures
            values@ == rng::spec_typed_stream::<T, Self>(old(self).model(), count as nat),
            final(self).model() == rng::spec_after_values::<T, Self>(
                old(self).model(),
                count as nat,
            ),
    {
        rng::iter(self, count)
    }

    /// Overwrites every element of `destination` with a fresh draw, in
    /// index order.
    pub fn fill<T: ValueFromRng>(&mut self, destination: &mut Vec<T>)
        ensures
            final(destination)@ == rng::spec_typed_stream::<T, Self>(
                old(self).model(),
                old(destination)@.len(),
            ),
            final(self).model() == rng::spec_after_values::<T, Self>(
                old(self).model(),
                old(destination)@.len(),
            ),
    {
        rng::fill(self, destination)
    }

    /// Overwrites `destination` with fresh bytes: the little-endian
    /// expansion of consecutive 64-bit draws, cut to length.
    pub fn fill_u8(&mut self, destination: &mut Vec<u8>)
        ensures
            final(destination)@ == rng::spec_bytes_of_words(
                rng::spec_words64::<Self>(
                    old(self).model(),
                    rng::spec_words_for_bytes(old(destination)@.len()),
                ),
            ).take(old(destination)@.len() as int),
            final(self).model() == rng::spec_after64::<Self>(
                old(self).model(),
                rng::spec_words_for_bytes(old(destination)@.len()),
            ),
    {
        rng::fill_u8(self, destination)
    }

    /// Rearranges the elements of `target` in place; the result holds
    /// exactly the elements it started with.
    pub fn shuffle<T>(&mut self, target: &mut Vec<T>)
        ensures
            final(target)@.len() == old(target)@.len(),
            final(target)@.to_multiset() == old(target)@.to_multiset(),
    {
        rng::shuffle(self, target)
    }
}

/// Law: construction from a fixed seed is deterministic. Two facades
/// built from equal seeds hold equal states, and therefore produce
/// identical output sequences.
pub proof fn lemma_small_from_seed_deterministic(seed1: u64, seed2: u64)
    requires
        seed1 == seed2,
    ensures
        spec_xoshiro_from_seed(seed1) == spec_xoshiro_from_seed(seed2),
{
}

/// Law: seeding from a SplitMix source is a function of the source's
/// seed alone. Any two generator states that `from_entropy` can
/// produce from equal SplitMix states are equal.
pub proof fn lemma_small_from_splitmix_deterministic(
    pre: u64,
    post1: u64,
    post2: u64,
    g1: (u64, u64, u64, u64),
    g2: (u64, u64, u64, u64),
)
    requires
        spec_small_seeded::<SplitMix>(pre, post1, g1),
        spec_small_seeded::<SplitMix>(pre, post2, g2),
    ensures
        g1 == g2,
        post1 == post2,
{
}

} // verus!
