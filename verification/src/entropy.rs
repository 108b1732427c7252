//! Entropy sources: the byte suppliers that seed the bit generators,
//! and the conversion of raw seed bytes into integer seeds.

use crate::rng::spec_words_for_bytes;
use crate::xoshiro::{spec_splitmix_next, spec_splitmix_words};
use std::hash::{BuildHasher, Hasher};
use vstd::pervasive::VecAdditionalExecFns;
use vstd::prelude::*;

verus! {

/// Why an entropy source refused to hand out bytes. Every variant is
/// terminal for the random-number subsystem: a broken source is not a
/// transient condition worth retrying.
#[derive(Clone, Copy, Debug, PartialEq, Eq, Structural)]
pub enum EntropyError {
    /// The platform's entropy facility failed outright.
    Unavailable,
    /// The source handed back nothing but zero bytes.
    AllZeros,
    /// Two consecutive probes of the source were identical.
    RepeatedBlock,
    /// A fresh probe appeared inside the payload that followed it.
    RepeatedSubstring,
    /// The repetition count test saw too many identical bytes in a row.
    RepetitionCount,
    /// The adaptive proportion test saw a byte recur too often in its
    /// window.
    AdaptiveProportion,
}

/// Holds when some byte of `data` is nonzero.
pub open spec fn spec_has_nonzero(data: Seq<u8>) -> bool {
    exists|i: int| 0 <= i < data.len() && data[i] != 0
}

/// An entropy source: fills buffers with seed bytes.
///
/// A source is modelled by a state (`Model`) and two relations: what a
/// successful fill guarantees about the bytes delivered and the state
/// change, and which errors it can signal. A deterministic source pins
/// the bytes down exactly through `fill_ok`; a platform source promises
/// only what can be promised of every outcome.
pub trait EntropySource: Sized {
    /// The mathematical state of the source.
    type Model;

    /// The state that this source value currently holds.
    open spec fn model(&self) -> Self::Model {
        vstd::pervasive::arbitrary()
    }

    /// What a successful fill guarantees of the delivered bytes and the
    /// state change.
    open spec fn fill_ok(pre: Self::Model, post: Self::Model, data: Seq<u8>) -> bool {
        vstd::pervasive::arbitrary()
    }

    /// Which failures the source can signal, and when.
    open spec fn fill_err(pre: Self::Model, post: Self::Model, e: EntropyError) -> bool {
        vstd::pervasive::arbitrary()
    }

    /// Fills `destination` with seed bytes, keeping its length.
    fn fill(&mut self, destination: &mut Vec<u8>) -> (r: Result<(), EntropyError>)
        ensures
            final(destination)@.len() == old(destination)@.len(),
            match r {
                Ok(_) => Self::fill_ok(
                    old(self).model(),
                    final(self).model(),
                    final(destination)@,
                ),
                Err(e) => Self::fill_err(old(self).model(), final(self).model(), e),
            },
    ;
}

/// An integer seed type that can be read out of an entropy source.
pub trait FromRaw: Sized {
    /// How many bytes one seed consumes.
    open spec fn width() -> nat {
        vstd::pervasive::arbitrary()
    }

    /// The seed value read from those bytes, big-endian.
    open spec fn of_bytes(data: Seq<u8>) -> Self {
        vstd::pervasive::arbitrary()
    }

    /// Reads one seed from `source`.
    fn from_raw<T: EntropySource>(source: &mut T) -> (r: Result<Self, EntropyError>)
        ensures
            match r {
                Ok(v) => exists|data: Seq<u8>|
                    data.len() == Self::width() && #[trigger] T::fill_ok(
                        old(source).model(),
                        final(source).model(),
                        data,
                    ) && v == Self::of_bytes(data),
                Err(e) => T::fill_err(old(source).model(), final(source).model(), e),
            },
    ;
}

/// Reads one integer seed from `source`.
pub fn seed<V: FromRaw, T: EntropySource>(source: &mut T) -> (r: Result<V, EntropyError>)
    ensures
        match r {
            Ok(v) => exists|data: Seq<u8>|
                data.len() == V::width() && #[trigger] T::fill_ok(
                    old(source).model(),
                    final(source).model(),
                    data,
                ) && v == V::of_bytes(data),
            Err(e) => T::fill_err(old(source).model(), final(source).model(), e),
        },
{
    V::from_raw(source)
}

/// The big-endian value of a byte string, at most eight bytes wide.
pub open spec fn spec_u64_from_be(data: Seq<u8>) -> u64
    decreases data.len(),
{
    if data.len() == 0 {
        0
    } else {
        (spec_u64_from_be(data.drop_last()) << 8) | (data.last() as u64)
    }
}

/// The big-endian value of a byte string, at most sixteen bytes wide.
pub open spec fn spec_u128_from_be(data: Seq<u8>) -> u128
    decreases data.len(),
{
    if data.len() == 0 {
        0
    } else {
        (spec_u128_from_be(data.drop_last()) << 8) | (data.last() as u128)
    }
}

/// Reads the eight bytes of `data` as one big-endian word.
pub(crate) fn u64_from_be(data: &Vec<u8>) -> (r: u64)
    requires
        data@.len() == 8,
    ensures
        r == spec_u64_from_be(data@),
{
    let mut acc: u64 = 0;
    let mut i: usize = 0;
    proof {
        assert(data@.take(0) =~= Seq::<u8>::empty());
    }
    while i < 8
        invariant
            i <= 8,
            data@.len() == 8,
            acc == spec_u64_from_be(data@.take(i as int)),
        decreases 8 - i,
    {
        acc = (acc << 8) | (data[i] as u64);
        proof {
            assert(data@.take(i + 1).drop_last() =~= data@.take(i as int));
            assert(data@.take(i + 1).last() == data@[i as int]);
        }
        i = i + 1;
    }
    proof {
        assert(data@.take(8) =~= data@);
    }
    acc
}

/// Reads the sixteen bytes of `data` as one big-endian word.
pub(crate) fn u128_from_be(data: &Vec<u8>) -> (r: u128)
    requires
        data@.len() == 16,
    ensures
        r == spec_u128_from_be(data@),
{
    let mut acc: u128 = 0;
    let mut i: usize = 0;
    proof {
        assert(data@.take(0) =~= Seq::<u8>::empty());
    }
    while i < 16
        invariant
            i <= 16,
            data@.len() == 16,
            acc == spec_u128_from_be(data@.take(i as int)),
        decreases 16 - i,
    {
        acc = (acc << 8) | (data[i] as u128);
        proof {
            assert(data@.take(i + 1).drop_last() =~= data@.take(i as int));
            assert(data@.take(i + 1).last() == data@[i as int]);
        }
        i = i + 1;
    }
    proof {
        assert(data@.take(16) =~= data@);
    }
    acc
}

impl FromRaw for u64 {
    open spec fn width() -> nat {
        8
    }

    open spec fn of_bytes(data: Seq<u8>) -> u64 {
        spec_u64_from_be(data)
    }

    fn from_raw<T: EntropySource>(source: &mut T) -> (r: Result<u64, EntropyError>) {
        let mut raw: Vec<u8> = vec![0u8; 8];
        match source.fill(&mut raw) {
            Ok(_) => {
                let v = u64_from_be(&raw);
                proof {
                    assert(T::fill_ok(old(source).model(), source.model(), raw@) && raw@.len()
                        == 8 && v == spec_u64_from_be(raw@));
                }
                Ok(v)
            },
            Err(e) => Err(e),
        }
    }
}

impl FromRaw for u128 {
    open spec fn width() -> nat {
        16
    }

    open spec fn of_bytes(data: Seq<u8>) -> u128 {
        spec_u128_from_be(data)
    }

    fn from_raw<T: EntropySource>(source: &mut T) -> (r: Result<u128, EntropyError>) {
        let mut raw: Vec<u8> = vec![0u8; 16];
        match source.fill(&mut raw) {
            Ok(_) => {
                let v = u128_from_be(&raw);
                proof {
                    assert(T::fill_ok(old(source).model(), source.model(), raw@) && raw@.len()
                        == 16 && v == spec_u128_from_be(raw@));
                }
                Ok(v)
            },
            Err(e) => Err(e),
        }
    }
}

/// Relies on getrandom::fill: fills the slice with bytes from the
/// operating system's preferred entropy facility, and reports any
/// failure, partial reads included. Nothing can be promised about the
/// bytes themselves.
#[verifier::external_body]
fn os_fill(destination: &mut Vec<u8>) -> (r: bool)
    ensures
        final(destination)@.len() == old(destination)@.len(),
{
    getrandom::fill(destination.as_mut_slice()).is_ok()
}

/// Relies on std::collections::hash_map::RandomState: the finish value
/// of a hasher built from a freshly seeded random state, itself a
/// source of process-level entropy. Nothing can be promised about the
/// value.
#[verifier::external_body]
fn fresh_hash_u64() -> (r: u64)
    ensures
        true,
{
    std::collections::hash_map::RandomState::new().build_hasher().finish()
}

/// The entropy source used by default where none is named explicitly.
pub type DefaultEntropy = GetRandom;

/// An entropy source backed by the operating system's entropy facility.
pub struct GetRandom {}

impl GetRandom {
    /// Creates an operating-system entropy source.
    pub fn new() -> (r: Self) {
        GetRandom {  }
    }
}

impl EntropySource for GetRandom {
    type Model = ();

    closed spec fn model(&self) -> () {
        ()
    }

    open spec fn fill_ok(pre: (), post: (), data: Seq<u8>) -> bool {
        spec_has_nonzero(data)
    }

    open spec fn fill_err(pre: (), post: (), e: EntropyError) -> bool {
        e == EntropyError::Unavailable || e == EntropyError::AllZeros
    }

    /// Fills from the platform facility and rejects an all-zero answer:
    /// a working source practically never produces one, so all zeros
    /// mean the source is broken.
    fn fill(&mut self, destination: &mut Vec<u8>) -> (r: Result<(), EntropyError>) {
        if !os_fill(destination) {
            return Err(EntropyError::Unavailable);
        }
        let len = destination.len();
        let mut i: usize = 0;
        while i < len
            invariant
                i <= len,
                destination@.len() == len,
                destination@.len() == old(destination)@.len(),
                forall|k: int| 0 <= k < i ==> destination@[k] == 0,
            decreases len - i,
        {
            if *destination.get(i).unwrap() != 0 {
                return Ok(());
            }
            i = i + 1;
        }
        Err(EntropyError::AllZeros)
    }
}

/// An entropy source that draws on the random keying of the standard
/// library's hash maps; on most platforms that keying comes from the
/// same place as the platform facility.
pub struct HashMapEntropy {}

impl HashMapEntropy {
    /// Creates a hash-map-keyed entropy source.
    pub fn new() -> (r: Self) {
        HashMapEntropy {  }
    }
}

impl EntropySource for HashMapEntropy {
    type Model = ();

    closed spec fn model(&self) -> () {
        ()
    }

    open spec fn fill_ok(pre: (), post: (), data: Seq<u8>) -> bool {
        true
    }

    open spec fn fill_err(pre: (), post: (), e: EntropyError) -> bool {
        false
    }

    /// Fills every whole eight-byte block of `destination` with a fresh
    /// hash value, big-endian; a trailing partial block stays untouched.
    fn fill(&mut self, destination: &mut Vec<u8>) -> (r: Result<(), EntropyError>) {
        let len = destination.len();
        let mut block: usize = 0;
        while block < len / 8
            invariant
                destination@.len() == len,
                block <= len / 8,
            decreases len / 8 - block,
        {
            let w = fresh_hash_u64();
            proof {
                assert(block * 8 + 8 <= len) by (nonlinear_arith)
                    requires block < len / 8;
            }
            write_be_bytes(destination, block * 8, w, 8);
            block = block + 1;
        }
        Ok(())
    }
}

/// The eight bytes of a 64-bit word, most significant byte first.
pub open spec fn spec_be_bytes8(w: u64) -> Seq<u8> {
    seq![
        ((w >> 56) & 0xff) as u8,
        ((w >> 48) & 0xff) as u8,
        ((w >> 40) & 0xff) as u8,
        ((w >> 32) & 0xff) as u8,
        ((w >> 24) & 0xff) as u8,
        ((w >> 16) & 0xff) as u8,
        ((w >> 8) & 0xff) as u8,
        (w & 0xff) as u8,
    ]
}

/// The big-endian byte expansion of a word sequence.
pub open spec fn spec_be_bytes_of_words(ws: Seq<u64>) -> Seq<u8>
    decreases ws.len(),
{
    if ws.len() == 0 {
        Seq::empty()
    } else {
        spec_be_bytes8(ws[0]) + spec_be_bytes_of_words(ws.drop_first())
    }
}

/// Appending a word appends its bytes to the big-endian expansion.
pub proof fn lemma_be_bytes_of_words_push(ws: Seq<u64>, w: u64)
    ensures
        spec_be_bytes_of_words(ws.push(w)) == spec_be_bytes_of_words(ws) + spec_be_bytes8(w),
        spec_be_bytes_of_words(ws).len() == 8 * ws.len(),
    decreases ws.len(),
{
    reveal_with_fuel(spec_be_bytes_of_words, 3);
    if ws.len() == 0 {
        assert(ws.push(w).drop_first() =~= Seq::<u64>::empty());
        assert(spec_be_bytes_of_words(ws.push(w)) =~= spec_be_bytes_of_words(ws)
            + spec_be_bytes8(w));
    } else {
        lemma_be_bytes_of_words_push(ws.drop_first(), w);
        assert(ws.push(w).drop_first() =~= ws.drop_first().push(w));
        assert(spec_be_bytes_of_words(ws.push(w)) =~= spec_be_bytes_of_words(ws)
            + spec_be_bytes8(w));
    }
}

/// The SplitMix64 state after `n` output words have been taken.
pub open spec fn spec_splitmix_after(state: u64, n: nat) -> u64
    decreases n,
{
    if n == 0 {
        state
    } else {
        spec_splitmix_after(spec_splitmix_next(state).1, (n - 1) as nat)
    }
}

/// Unfolds the SplitMix64 word stream at its far end.
pub proof fn lemma_splitmix_words_snoc(state: u64, n: nat)
    ensures
        spec_splitmix_words(state, n + 1) == spec_splitmix_words(state, n).push(
            spec_splitmix_next(spec_splitmix_after(state, n)).0,
        ),
        spec_splitmix_after(state, n + 1) == spec_splitmix_next(
            spec_splitmix_after(state, n),
        ).1,
    decreases n,
{
    reveal_with_fuel(spec_splitmix_words, 3);
    reveal_with_fuel(spec_splitmix_after, 3);
    if n == 0 {
        assert(spec_splitmix_words(state, 1) =~= spec_splitmix_words(state, 0).push(
            spec_splitmix_next(spec_splitmix_after(state, 0)).0,
        ));
    } else {
        lemma_splitmix_words_snoc(spec_splitmix_next(state).1, (n - 1) as nat);
        assert(spec_splitmix_words(state, n + 1) =~= spec_splitmix_words(state, n).push(
            spec_splitmix_next(spec_splitmix_after(state, n)).0,
        ));
    }
}

/// Writes the high `count` big-endian bytes of `w` into `destination`
/// at `offset`, leaving everything else unchanged.
pub(crate) fn write_be_bytes(destination: &mut Vec<u8>, offset: usize, w: u64, count: usize)
    requires
        count <= 8,
        offset + count <= old(destination)@.len(),
    ensures
        final(destination)@.len() == old(destination)@.len(),
        forall|k: int|
            0 <= k < count ==> final(destination)@[offset + k] == spec_be_bytes8(w)[k],
        forall|k: int|
            0 <= k < old(destination)@.len() && !(offset <= k < offset + count)
                ==> final(destination)@[k] == old(destination)@[k],
{
    let len = destination.len();
    let mut j: usize = 0;
    while j < count
        invariant
            j <= count,
            count <= 8,
            offset + count <= len,
            len == destination@.len(),
            destination@.len() == old(destination)@.len(),
            forall|k: int| 0 <= k < j ==> destination@[offset + k] == spec_be_bytes8(w)[k],
            forall|k: int|
                0 <= k < old(destination)@.len() && !(offset <= k < offset + j)
                    ==> destination@[k] == old(destination)@[k],
        decreases count - j,
    {
        let shift: u64 = 56 - 8 * (j as u64);
        proof {
            assert((w >> shift) & 0xff <= 0xff) by (bit_vector);
        }
        let b: u8 = ((w >> shift) & 0xff) as u8;
        destination.set(offset + j, b);
        proof {
            if j == 7 {
                assert(w >> 0u64 == w) by (bit_vector);
                assert(w & 0xff == (w >> 0u64) & 0xff);
            }
            assert(spec_be_bytes8(w)[j as int] == b);
        }
        j = j + 1;
    }
}

/// The bytes that a SplitMix64 expander delivers for a fill of `count`
/// bytes: the big-endian expansion of its next words, cut to length,
/// and the state left behind.
pub open spec fn spec_splitmix_fill(state: u64, count: nat) -> (Seq<u8>, u64) {
    (
        spec_be_bytes_of_words(spec_splitmix_words(state, spec_words_for_bytes(count))).take(
            count as int,
        ),
        spec_splitmix_after(state, spec_words_for_bytes(count)),
    )
}

/// Produces `count` SplitMix64 bytes from `state`: each word yields its
/// big-endian bytes, and a final partial block takes the word's high
/// bytes. Returns the bytes and the state left behind.
pub(crate) fn splitmix_fill_be(state: u64, count: usize) -> (r: (Vec<u8>, u64))
    ensures
        (r.0@, r.1) == spec_splitmix_fill(state, count as nat),
        r.0@.len() == count,
{
    let mut out: Vec<u8> = vec![0u8; count];
    let mut st = state;
    let mut word: usize = 0;
    let ghost words_wanted = spec_words_for_bytes(count as nat);
    proof {
        reveal_with_fuel(spec_splitmix_words, 1);
        reveal_with_fuel(spec_splitmix_after, 1);
        reveal_with_fuel(spec_be_bytes_of_words, 1);
    }
    while word < count / 8
        invariant
            out@.len() == count,
            word <= count / 8,
            word * 8 <= count,
            out@.subrange(0, (word * 8) as int) == spec_be_bytes_of_words(
                spec_splitmix_words(state, word as nat),
            ),
            st == spec_splitmix_after(state, word as nat),
        decreases count / 8 - word,
    {
        let w = splitmix_next_word(&mut st);
        proof {
            assert(word * 8 + 8 <= count) by (nonlinear_arith)
                requires word < count / 8;
        }
        write_be_bytes(&mut out, word * 8, w, 8);
        proof {
            lemma_splitmix_words_snoc(state, word as nat);
            lemma_be_bytes_of_words_push(spec_splitmix_words(state, word as nat), w);
            assert(out@.subrange(0, (word * 8 + 8) as int) =~= spec_be_bytes_of_words(
                spec_splitmix_words(state, (word + 1) as nat),
            ));
        }
        word = word + 1;
    }
    let done = word * 8;
    if done < count {
        let w = splitmix_next_word(&mut st);
        write_be_bytes(&mut out, done, w, count - done);
        proof {
            lemma_splitmix_words_snoc(state, word as nat);
            lemma_be_bytes_of_words_push(spec_splitmix_words(state, word as nat), w);
            assert((word + 1) as nat == words_wanted);
            assert(out@ =~= spec_be_bytes_of_words(
                spec_splitmix_words(state, words_wanted),
            ).take(count as int));
        }
    } else {
        proof {
            assert(word as nat == words_wanted);
            lemma_be_bytes_of_words_push(spec_splitmix_words(state, words_wanted), 0);
            assert(out@ =~= spec_be_bytes_of_words(
                spec_splitmix_words(state, words_wanted),
            ).take(count as int));
        }
    }
    (out, st)
}

/// One SplitMix64 step on a bare state word.
fn splitmix_next_word(state: &mut u64) -> (r: u64)
    ensures
        (r, *final(state)) == spec_splitmix_next(*old(state)),
{
    *state = state.wrapping_add(crate::xoshiro::SPLITMIX_GAMMA);
    let mut z: u64 = *state;
    z = (z ^ (z >> 30)).wrapping_mul(crate::xoshiro::SPLITMIX_MIX1);
    z = (z ^ (z >> 27)).wrapping_mul(crate::xoshiro::SPLITMIX_MIX2);
    z ^ (z >> 31)
}

/// A deterministic entropy source: expands a single 64-bit seed with
/// the SplitMix64 mixer. Meant for reproducible seeding and testing,
/// not for security.
pub struct SplitMix {
    state: u64,
}

impl SplitMix {
    /// Creates a SplitMix source seeded with `seed`.
    pub fn new(seed: u64) -> (r: Self)
        ensures
            r.model() == seed,
    {
        SplitMix { state: seed }
    }
}

impl EntropySource for SplitMix {
    type Model = u64;

    closed spec fn model(&self) -> u64 {
        self.state
    }

    open spec fn fill_ok(pre: u64, post: u64, data: Seq<u8>) -> bool {
        (data, post) == spec_splitmix_fill(pre, data.len())
    }

    open spec fn fill_err(pre: u64, post: u64, e: EntropyError) -> bool {
        false
    }

    /// Fills the buffer with the deterministic SplitMix64 byte stream;
    /// this source never fails.
    fn fill(&mut self, destination: &mut Vec<u8>) -> (r: Result<(), EntropyError>) {
        let count = destination.len();
        let (bytes, st) = splitmix_fill_be(self.state, count);
        self.state = st;
        *destination = bytes;
        Ok(())
    }
}

} // verus!
