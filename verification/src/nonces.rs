//! Nonce generation for algorithms that take one: mixes the wall
//! clock with a freshly seeded hash value, so that two nonces drawn in
//! one process practically never coincide even if one entropy
//! mechanism is broken.

use crate::entropy::spec_be_bytes8;
use std::hash::{BuildHasher, Hasher};
use vstd::prelude::*;

verus! {

/// Relies on std::time::SystemTime: the duration since the epoch, as
/// nanoseconds and whole seconds; zero if the clock reads before the
/// epoch. Nothing can be promised about the values.
#[verifier::external_body]
fn unix_time_parts() -> (r: (u64, u64))
    ensures
        true,
{
    let d = std::time::SystemTime::now()
        .duration_since(std::time::SystemTime::UNIX_EPOCH)
        .unwrap_or(std::time::Duration::ZERO);
    (d.as_nanos() as u64, d.as_secs())
}

/// Relies on std::collections::hash_map::RandomState: the finish value
/// of a hasher built from a freshly seeded random state, a source of
/// process-level entropy that differs from call to call. Nothing can
/// be promised about the value.
#[verifier::external_body]
fn nonce_hash_u64() -> (r: u64)
    ensures
        true,
{
    std::collections::hash_map::RandomState::new().build_hasher().finish()
}

/// Mixes a hash word and a time word into a nonce block: the xor of
/// the two, serialized big-endian.
fn nonce_bytes(hash: u64, time: u64) -> (r: [u8; 8])
    ensures
        r@ == spec_be_bytes8(hash ^ time),
{
    let mixed = hash ^ time;
    let r = [
        ((mixed >> 56) & 0xff) as u8,
        ((mixed >> 48) & 0xff) as u8,
        ((mixed >> 40) & 0xff) as u8,
        ((mixed >> 32) & 0xff) as u8,
        ((mixed >> 24) & 0xff) as u8,
        ((mixed >> 16) & 0xff) as u8,
        ((mixed >> 8) & 0xff) as u8,
        (mixed & 0xff) as u8,
    ];
    proof {
        assert(r@ =~= spec_be_bytes8(mixed));
    }
    r
}

/// Produces an eight-byte nonce: the xor of a time-derived word
/// (nanoseconds xor seconds since the epoch) and a freshly drawn hash
/// value, serialized big-endian. The hash value alone would do; the
/// time is folded in as a safety net in case the hasher's keying is
/// broken.
pub fn nonce_u64() -> (r: [u8; 8])
    ensures
        exists|w: u64| r@ == #[trigger] spec_be_bytes8(w),
{
    let (nanos, secs) = unix_time_parts();
    let from_time = nanos ^ secs;
    nonce_bytes(nonce_hash_u64(), from_time)
}

} // verus!
