//! Random devices: seed-byte suppliers addressed by block, used to
//! draw whole generator seeds at once.

use crate::entropy::{
    spec_has_nonzero, spec_splitmix_fill, spec_u128_from_be, spec_u64_from_be, splitmix_fill_be,
    u128_from_be, u64_from_be, EntropyError, EntropySource, GetRandom,
};
use vstd::prelude::*;

verus! {

/// A random device: produces blocks of seed bytes on demand.
///
/// Like an entropy source, a device is modelled by a state and two
/// relations: what a successful read guarantees of the bytes and the
/// state change, and which errors it can signal.
pub trait RandomDevice: Sized {
    /// The mathematical state of the device.
    type Model;

    /// The state that this device value currently holds.
    open spec fn model(&self) -> Self::Model {
        vstd::pervasive::arbitrary()
    }

    /// What a successful read guarantees of the delivered bytes and the
    /// state change.
    open spec fn seed_ok(pre: Self::Model, post: Self::Model, data: Seq<u8>) -> bool {
        vstd::pervasive::arbitrary()
    }

    /// Which failures the device can signal, and when.
    open spec fn seed_err(pre: Self::Model, post: Self::Model, e: EntropyError) -> bool {
        vstd::pervasive::arbitrary()
    }

    /// Produces `count` seed bytes.
    fn seed_bytes(&mut self, count: usize) -> (r: Result<Vec<u8>, EntropyError>)
        ensures
            match r {
                Ok(v) => v@.len() == count && Self::seed_ok(
                    old(self).model(),
                    final(self).model(),
                    v@,
                ),
                Err(e) => Self::seed_err(old(self).model(), final(self).model(), e),
            },
    ;
}

/// An integer seed type that can be read out of a random device.
pub trait FromRaw: Sized {
    /// How many bytes one seed consumes.
    open spec fn width() -> nat {
        vstd::pervasive::arbitrary()
    }

    /// The seed value read from those bytes, big-endian.
    open spec fn of_bytes(data: Seq<u8>) -> Self {
        vstd::pervasive::arbitrary()
    }

    /// Reads one seed from `device`.
    fn from_raw<T: RandomDevice>(device: &mut T) -> (r: Result<Self, EntropyError>)
        ensures
            match r {
                Ok(v) => exists|data: Seq<u8>|
                    data.len() == Self::width() && #[trigger] T::seed_ok(
                        old(device).model(),
                        final(device).model(),
                        data,
                    ) && v == Self::of_bytes(data),
                Err(e) => T::seed_err(old(device).model(), final(device).model(), e),
            },
    ;
}

/// Reads one integer seed from `device`.
pub fn seed<V: FromRaw, T: RandomDevice>(device: &mut T) -> (r: Result<V, EntropyError>)
    ensures
        match r {
            Ok(v) => exists|data: Seq<u8>|
                data.len() == V::width() && #[trigger] T::seed_ok(
                    old(device).model(),
                    final(device).model(),
                    data,
                ) && v == V::of_bytes(data),
            Err(e) => T::seed_err(old(device).model(), final(device).model(), e),
        },
{
    V::from_raw(device)
}

impl FromRaw for u64 {
    open spec fn width() -> nat {
        8
    }

    open spec fn of_bytes(data: Seq<u8>) -> u64 {
        spec_u64_from_be(data)
    }

    fn from_raw<T: RandomDevice>(device: &mut T) -> (r: Result<u64, EntropyError>) {
        match device.seed_bytes(8) {
            Ok(raw) => {
                let v = u64_from_be(&raw);
                proof {
                    assert(T::seed_ok(old(device).model(), device.model(), raw@) && raw@.len()
                        == 8 && v == spec_u64_from_be(raw@));
                }
                Ok(v)
            },
            Err(e) => Err(e),
        }
    }
}

impl FromRaw for u128 {
    open spec fn width() -> nat {
        16
    }

    open spec fn of_bytes(data: Seq<u8>) -> u128 {
        spec_u128_from_be(data)
    }

    fn from_raw<T: RandomDevice>(device: &mut T) -> (r: Result<u128, EntropyError>) {
        match device.seed_bytes(16) {
            Ok(raw) => {
                let v = u128_from_be(&raw);
                proof {
                    assert(T::seed_ok(old(device).model(), device.model(), raw@) && raw@.len()
                        == 16 && v == spec_u128_from_be(raw@));
                }
                Ok(v)
            },
            Err(e) => Err(e),
        }
    }
}

impl RandomDevice for GetRandom {
    type Model = ();

    closed spec fn model(&self) -> () {
        ()
    }

    open spec fn seed_ok(pre: (), post: (), data: Seq<u8>) -> bool {
        spec_has_nonzero(data)
    }

    open spec fn seed_err(pre: (), post: (), e: EntropyError) -> bool {
        e == EntropyError::Unavailable || e == EntropyError::AllZeros
    }

    /// Reads a block from the platform facility; all zeros mean the
    /// facility is broken and are rejected.
    fn seed_bytes(&mut self, count: usize) -> (r: Result<Vec<u8>, EntropyError>) {
        let mut block: Vec<u8> = vec![0u8; count];
        match <GetRandom as EntropySource>::fill(self, &mut block) {
            Ok(_) => Ok(block),
            Err(e) => Err(e),
        }
    }
}

/// A deterministic random device: expands a single 64-bit seed with the
/// SplitMix64 mixer. Meant for reproducible seeding and testing, not
/// for security.
pub struct SplitMixDevice {
    state: u64,
}

impl SplitMixDevice {
    /// Creates a SplitMix device seeded with `seed`.
    pub fn new(seed: u64) -> (r: Self)
        ensures
            r.model() == seed,
    {
        SplitMixDevice { state: seed }
    }
}

impl RandomDevice for SplitMixDevice {
    type Model = u64;

    closed spec fn model(&self) -> u64 {
        self.state
    }

    open spec fn seed_ok(pre: u64, post: u64, data: Seq<u8>) -> bool {
        (data, post) == spec_splitmix_fill(pre, data.len())
    }

    open spec fn seed_err(pre: u64, post: u64, e: EntropyError) -> bool {
        false
    }

    /// Produces the deterministic SplitMix64 byte stream; this device
    /// never fails.
    fn seed_bytes(&mut self, count: usize) -> (r: Result<Vec<u8>, EntropyError>) {
        let (bytes, st) = splitmix_fill_be(self.state, count);
        self.state = st;
        Ok(bytes)
    }
}

} // verus!
