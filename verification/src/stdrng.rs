//! The default generator: a ChaCha12 stream behind a stable facade.
//! Slower and with more state than the small generator, but with far
//! better security properties.

use crate::chacha::{
    spec_chacha_bytes, spec_chacha_init, spec_chacha_step32, spec_chacha_step64, ChaCha12,
    ChaChaView,
};
use crate::entropy::{EntropyError, EntropySource};
use crate::ranges::GenerateRange;
use crate::rng;
use crate::rng::{RangeFromRng, Rng, ValueFromRng};
use crate::secure_entropy::{spec_apt_run, spec_rct_run, CheckedDeviceView, SecureEntropy};
use vstd::prelude::*;

verus! {

/// The default random generator (at present ChaCha12). The algorithm
/// is currently unbroken and usable for cryptographically secure
/// generation, though no guarantee of any kind is made that this
/// particular implementation is secure. The algorithm behind the
/// facade may change; callers that depend on the exact output should
/// use a specific algorithm directly.
pub struct StdRng(ChaCha12);

impl Rng for StdRng {
    type Model = ChaChaView;

    closed spec fn model(&self) -> ChaChaView {
        self.0.model()
    }

    open spec fn step32(m: ChaChaView) -> (u32, ChaChaView) {
        spec_chacha_step32(m, 12)
    }

    open spec fn step64(m: ChaChaView) -> (u64, ChaChaView) {
        spec_chacha_step64(m, 12)
    }

    fn random_u32(&mut self) -> (r: u32) {
        self.0.random_u32()
    }

    fn random_u64(&mut self) -> (r: u64) {
        self.0.random_u64()
    }
}

impl StdRng {
    /// Creates a generator seeded through the health-checked entropy
    /// source, which runs the NIST SP 800-90B tests on the platform
    /// facility before trusting its bytes. The checks have a small
    /// false-alarm rate; a caller that cannot tolerate one can seed
    /// through `from_entropy` with a plain source instead.
    pub fn new() -> (r: Result<Self, EntropyError>)
        ensures
            match r {
                Ok(c) => exists|key: Seq<u8>, nonce: Seq<u8>|
                    key.len() == 32 && nonce.len() == 8 && c.model()
                        == #[trigger] spec_chacha_init(key, nonce, 12),
                // A failure is the platform facility's own, the initial
                // probe flunking a statistical test, or a failed fill
                // through the health-checked source.
                Err(e) => e == EntropyError::Unavailable || e == EntropyError::AllZeros || (exists|
                    probe: Seq<u8>,
                |
                    probe.len() == 8 && (#[trigger] spec_rct_run(None, 0, probe) == Result::<
                        (Option<u8>, nat),
                        EntropyError,
                    >::Err(e) || spec_apt_run(0, 0, 0, probe) == Result::<
                        (u8, nat, nat),
                        EntropyError,
                    >::Err(e))) || (exists|pre: CheckedDeviceView<()>, post: CheckedDeviceView<()>|
                    #[trigger] <SecureEntropy as EntropySource>::fill_err(pre, post, e)),
            },
    {
        let mut source = match SecureEntropy::new() {
            Ok(s) => s,
            Err(e) => {
                return Err(e);
            },
        };
        let ghost pre_model = source.model();
        match Self::from_entropy(&mut source) {
            Ok(g) => Ok(g),
            Err(e) => {
                proof {
                    assert(<SecureEntropy as EntropySource>::fill_err(
                        pre_model,
                        source.model(),
                        e,
                    ));
                }
                Err(e)
            },
        }
    }

    /// Creates a generator with a 32-byte key from an entropy source
    /// and a fresh nonce; the nonce is a safety net in case the
    /// entropy source is broken.
    pub fn from_entropy<T: EntropySource>(entropy_source: &mut T) -> (r: Result<
        Self,
        EntropyError,
    >)
        ensures
            match r {
                Ok(c) => exists|key: Seq<u8>, nonce: Seq<u8>|
                    key.len() == 32 && nonce.len() == 8 && T::fill_ok(
                        old(entropy_source).model(),
                        final(entropy_source).model(),
                        key,
                    ) && c.model() == #[trigger] spec_chacha_init(key, nonce, 12),
                Err(e) => T::fill_err(
                    old(entropy_source).model(),
                    final(entropy_source).model(),
                    e,
                ),
            },
    {
        match ChaCha12::from_entropy(entropy_source) {
            Ok(c) => Ok(StdRng(c)),
            Err(e) => Err(e),
        }
    }

    /// Creates a generator with a key from an entropy source and a
    /// caller-chosen nonce: with a deterministic source, the
    /// construction is reproducible.
    pub fn from_entropy_and_nonce<T: EntropySource>(
        entropy_source: &mut T,
        nonce: [u8; 8],
    ) -> (r: Result<Self, EntropyError>)
        ensures
            match r {
                Ok(c) => exists|key: Seq<u8>|
                    key.len() == 32 && #[trigger] T::fill_ok(
                        old(entropy_source).model(),
                        final(entropy_source).model(),
                        key,
                    ) && c.model() == spec_chacha_init(key, nonce@, 12),
                Err(e) => T::fill_err(
                    old(entropy_source).model(),
                    final(entropy_source).model(),
                    e,
                ),
            },
    {
        match ChaCha12::from_entropy_and_nonce(entropy_source, nonce) {
            Ok(c) => Ok(StdRng(c)),
            Err(e) => Err(e),
        }
    }

    /// Draws one typed value; see the crate's value codec.
    pub fn random<T: ValueFromRng>(&mut self) -> (v: T)
        ensures
            v == rng::spec_value_of::<T, Self>(old(self).model()),
            final(self).model() == rng::spec_after_value::<T, Self>(old(self).model()),
    {
        rng::random(self)
    }

    /// Draws one value uniformly from `bounds`; an inverted range is a
    /// usage error, excluded by the precondition.
    pub fn range<T: RangeFromRng>(&mut self, bounds: GenerateRange<T>) -> (v: T)
        requires
            bounds.start.le_spec(bounds.end_inclusive),
        ensures
            bounds.start.le_spec(v),
            v.le_spec(bounds.end_inclusive),
            bounds.start == bounds.end_inclusive ==> v == bounds.start && final(self).model()
                == old(self).model(),
            v == T::range_value(
                rng::spec_range_words32::<Self>(old(self).model()),
                rng::spec_range_words64::<Self>(old(self).model()),
                bounds,
            ),
            final(self).model() == rng::spec_after64::<Self>(
                rng::spec_after32::<Self>(
                    old(self).model(),
                    T::range_consumed32(
                        rng::spec_range_words32::<Self>(old(self).model()),
                        rng::spec_range_words64::<Self>(old(self).model()),
                        bounds,
                    ),
                ),
                T::range_consumed64(
                    rng::spec_range_words32::<Self>(old(self).model()),
                    rng::spec_range_words64::<Self>(old(self).model()),
                    bounds,
                ),
            ),
    {
        rng::range(self, bounds)
    }

    /// Draws `count` typed values, in draw order.
    pub fn iter<T: ValueFromRng>(&mut self, count: usize) -> (values: Vec<T>)
        ensures
            values@ == rng::spec_typed_stream::<T, Self>(old(self).model(), count as nat),
            final(self).model() == rng::spec_after_values::<T, Self>(
                old(self).model(),
                count as nat,
            ),
    {
        rng::iter(self, count)
    }

    /// Overwrites every element of `destination` with a fresh draw, in
    /// index order.
    pub fn fill<T: ValueFromRng>(&mut self, destination: &mut Vec<T>)
        ensures
            final(destination)@ == rng::spec_typed_stream::<T, Self>(
                old(self).model(),
                old(destination)@.len(),
            ),
            final(self).model() == rng::spec_after_values::<T, Self>(
                old(self).model(),
                old(destination)@.len(),
            ),
    {
        rng::fill(self, destination)
    }

    /// Overwrites `destination` with the next keystream bytes; unlike
    /// the word draws, this consumes every buffered byte of the
    /// stream.
    pub fn fill_u8(&mut self, destination: &mut Vec<u8>)
        ensures
            (final(destination)@, final(self).model()) == spec_chacha_bytes(
                old(self).model(),
                old(destination)@.len(),
                12,
            ),
            final(destination)@.len() == old(destination)@.len(),
    {
        self.0.fill_u8(destination)
    }

    /// Rearranges the elements of `target` in place; the result holds
    /// exactly the elements it started with.
    pub fn shuffle<T>(&mut self, target: &mut Vec<T>)
        ensures
            final(target)@.len() == old(target)@.len(),
            final(target)@.to_multiset() == old(target)@.to_multiset(),
    {
        rng::shuffle(self, target)
    }
}

/// Law: seeding with an explicit nonce from a deterministic source is
/// reproducible: any two ChaCha12 states that `from_entropy_and_nonce`
/// can produce from equal SplitMix source states and equal nonces are
/// equal.
pub proof fn lemma_std_from_entropy_and_nonce_deterministic(
    pre: u64,
    post1: u64,
    post2: u64,
    nonce: Seq<u8>,
    c1: ChaChaView,
    c2: ChaChaView,
)
    requires
        exists|key: Seq<u8>|
            key.len() == 32 && #[trigger] <crate::entropy::SplitMix as EntropySource>::fill_ok(
                pre,
                post1,
                key,
            ) && c1 == spec_chacha_init(key, nonce, 12),
        exists|key: Seq<u8>|
            key.len() == 32 && #[trigger] <crate::entropy::SplitMix as EntropySource>::fill_ok(
                pre,
                post2,
                key,
            ) && c2 == spec_chacha_init(key, nonce, 12),
    ensures
        c1 == c2,
        post1 == post2,
{
}

} // verus!
