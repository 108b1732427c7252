//! The generator interface and the value codec: turning the raw 32-bit
//! and 64-bit words of a bit generator into typed values.

use crate::ranges::GenerateRange;
use vstd::pervasive::VecAdditionalExecFns;
use vstd::prelude::*;

verus! {

/// The interface of every bit generator in this crate.
///
/// A generator is modelled by a mathematical state (`Model`) together
/// with two step functions: each call of `random_u32` or `random_u64`
/// returns exactly the word that the step function computes from the
/// current state, and leaves the generator in the successor state. All
/// derived operations (typed values, ranges, fills) are built from these
/// two calls alone.
pub trait Rng: Sized {
    /// The mathematical state of the generator.
    type Model;

    /// The state that this generator value currently holds.
    open spec fn model(&self) -> Self::Model {
        vstd::pervasive::arbitrary()
    }

    /// One 32-bit step: the output word and the successor state.
    open spec fn step32(m: Self::Model) -> (u32, Self::Model) {
        vstd::pervasive::arbitrary()
    }

    /// One 64-bit step: the output word and the successor state.
    open spec fn step64(m: Self::Model) -> (u64, Self::Model) {
        vstd::pervasive::arbitrary()
    }

    /// Produces the next 32-bit word of the generator.
    fn random_u32(&mut self) -> (r: u32)
        ensures
            (r, final(self).model()) == Self::step32(old(self).model()),
    ;

    /// Produces the next 64-bit word of the generator.
    fn random_u64(&mut self) -> (r: u64)
        ensures
            (r, final(self).model()) == Self::step64(old(self).model()),
    ;
}

/// Draws one value of type `T` from `rng`, formed from the generator's
/// next words as `T`'s codec prescribes.
pub fn random<T: ValueFromRng, R: Rng>(rng: &mut R) -> (v: T)
    ensures
        v == spec_value_of::<T, R>(old(rng).model()),
        final(rng).model() == spec_after_value::<T, R>(old(rng).model()),
{
    T::value_from_rng(rng)
}

/// Draws one value uniformly from `bounds`. A single-point range yields
/// its one value without consuming generator output; an inverted range
/// is a usage error, excluded by the precondition.
pub fn range<T: RangeFromRng, R: Rng>(rng: &mut R, bounds: GenerateRange<T>) -> (v: T)
    requires
        bounds.start.le_spec(bounds.end_inclusive),
    ensures
        bounds.start.le_spec(v),
        v.le_spec(bounds.end_inclusive),
        bounds.start == bounds.end_inclusive ==> v == bounds.start && final(rng).model()
            == old(rng).model(),
        v == T::range_value(
            spec_range_words32::<R>(old(rng).model()),
            spec_range_words64::<R>(old(rng).model()),
            bounds,
        ),
        final(rng).model() == spec_after64::<R>(
            spec_after32::<R>(
                old(rng).model(),
                T::range_consumed32(
                    spec_range_words32::<R>(old(rng).model()),
                    spec_range_words64::<R>(old(rng).model()),
                    bounds,
                ),
            ),
            T::range_consumed64(
                spec_range_words32::<R>(old(rng).model()),
                spec_range_words64::<R>(old(rng).model()),
                bounds,
            ),
        ),
{
    T::range_from_rng(rng, bounds)
}

/// Draws `count` values of type `T` from `rng`, in draw order.
pub fn iter<T: ValueFromRng, R: Rng>(rng: &mut R, count: usize) -> (values: Vec<T>)
    ensures
        values@ == spec_typed_stream::<T, R>(old(rng).model(), count as nat),
        final(rng).model() == spec_after_values::<T, R>(old(rng).model(), count as nat),
{
    let mut values: Vec<T> = Vec::new();
    let mut i: usize = 0;
    proof {
        reveal_with_fuel(spec_typed_stream, 1);
        reveal_with_fuel(spec_after_values, 1);
    }
    while i < count
        invariant
            i <= count,
            values@ == spec_typed_stream::<T, R>(old(rng).model(), i as nat),
            rng.model() == spec_after_values::<T, R>(old(rng).model(), i as nat),
        decreases count - i,
    {
        let v = T::value_from_rng(rng);
        values.push(v);
        proof {
            lemma_typed_stream_snoc::<T, R>(old(rng).model(), i as nat);
        }
        i = i + 1;
    }
    values
}

/// Draws `count` bytes from `rng`: the byte stream is the little-endian
/// expansion of consecutive 64-bit draws.
pub fn iter_u8<R: Rng>(rng: &mut R, count: usize) -> (values: Vec<u8>)
    ensures
        values@ == spec_bytes_of_words(
            spec_words64::<R>(old(rng).model(), spec_words_for_bytes(count as nat)),
        ).take(count as int),
        final(rng).model() == spec_after64::<R>(
            old(rng).model(),
            spec_words_for_bytes(count as nat),
        ),
{
    let mut values: Vec<u8> = vec![0u8; count];
    fill_u8(rng, &mut values);
    values
}

/// Overwrites every element of `destination` with a fresh draw from
/// `rng`, in index order.
pub fn fill<T: ValueFromRng, R: Rng>(rng: &mut R, destination: &mut Vec<T>)
    ensures
        final(destination)@ == spec_typed_stream::<T, R>(
            old(rng).model(),
            old(destination)@.len(),
        ),
        final(rng).model() == spec_after_values::<T, R>(
            old(rng).model(),
            old(destination)@.len(),
        ),
{
    let len = destination.len();
    let mut i: usize = 0;
    proof {
        reveal_with_fuel(spec_typed_stream, 1);
        reveal_with_fuel(spec_after_values, 1);
    }
    while i < len
        invariant
            i <= len,
            destination@.len() == len,
            destination@.subrange(0, i as int) == spec_typed_stream::<T, R>(
                old(rng).model(),
                i as nat,
            ),
            forall|k: int| i <= k < len ==> destination@[k] == old(destination)@[k],
            rng.model() == spec_after_values::<T, R>(old(rng).model(), i as nat),
        decreases len - i,
    {
        let v = T::value_from_rng(rng);
        destination.set(i, v);
        proof {
            lemma_typed_stream_snoc::<T, R>(old(rng).model(), i as nat);
            assert(destination@.subrange(0, i + 1) =~= spec_typed_stream::<T, R>(
                old(rng).model(),
                (i + 1) as nat,
            ));
        }
        i = i + 1;
    }
    proof {
        assert(destination@ =~= destination@.subrange(0, len as int));
    }
}

/// Overwrites `destination` with fresh bytes from `rng`: full 8-byte
/// blocks are the little-endian bytes of one 64-bit draw each, and a
/// final partial block takes the low bytes of one more draw.
pub fn fill_u8<R: Rng>(rng: &mut R, destination: &mut Vec<u8>)
    ensures
        final(destination)@ == spec_bytes_of_words(
            spec_words64::<R>(
                old(rng).model(),
                spec_words_for_bytes(old(destination)@.len()),
            ),
        ).take(old(destination)@.len() as int),
        final(rng).model() == spec_after64::<R>(
            old(rng).model(),
            spec_words_for_bytes(old(destination)@.len()),
        ),
{
    let len = destination.len();
    let mut word: usize = 0;
    let ghost words_wanted = spec_words_for_bytes(len as nat);
    proof {
        reveal_with_fuel(spec_words64, 1);
        reveal_with_fuel(spec_after64, 1);
        reveal_with_fuel(spec_bytes_of_words, 1);
    }
    while word < len / 8
        invariant
            destination@.len() == len,
            word <= len / 8,
            word * 8 <= len,
            destination@.subrange(0, (word * 8) as int) == spec_bytes_of_words(
                spec_words64::<R>(old(rng).model(), word as nat),
            ),
            rng.model() == spec_after64::<R>(old(rng).model(), word as nat),
        decreases len - word * 8,
    {
        let w = rng.random_u64();
        write_le_bytes(destination, word * 8, w, 8);
        proof {
            lemma_words64_snoc::<R>(old(rng).model(), word as nat);
            lemma_bytes_of_words_push(
                spec_words64::<R>(old(rng).model(), word as nat),
                w,
            );
            assert(destination@.subrange(0, (word * 8 + 8) as int) =~= spec_bytes_of_words(
                spec_words64::<R>(old(rng).model(), (word + 1) as nat),
            ));
        }
        word = word + 1;
    }
    let done = word * 8;
    if done < len {
        let w = rng.random_u64();
        write_le_bytes(destination, done, w, len - done);
        proof {
            lemma_words64_snoc::<R>(old(rng).model(), word as nat);
            lemma_bytes_of_words_push(
                spec_words64::<R>(old(rng).model(), word as nat),
                w,
            );
            assert((word + 1) as nat == words_wanted);
            assert(destination@ =~= spec_bytes_of_words(
                spec_words64::<R>(old(rng).model(), words_wanted),
            ).take(len as int));
        }
    } else {
        proof {
            assert(word as nat == words_wanted);
            lemma_bytes_len(spec_words64::<R>(old(rng).model(), words_wanted));
            assert(destination@ =~= spec_bytes_of_words(
                spec_words64::<R>(old(rng).model(), words_wanted),
            ).take(len as int));
        }
    }
}

/// Rearranges the elements of `target` in place with the forward
/// Fisher-Yates walk, drawing positions from `rng`: the result holds
/// exactly the elements it started with.
pub fn shuffle<T, R: Rng>(rng: &mut R, target: &mut Vec<T>)
    ensures
        final(target)@.len() == old(target)@.len(),
        final(target)@.to_multiset() == old(target)@.to_multiset(),
{
    let len = target.len();
    if len != 0 {
        let mut inx: usize = 0;
        // The current element stays inside the drawn range so that it
        // can be swapped with itself; leaving it out would force a
        // move every time, which is not a uniform shuffle.
        while inx < len - 1
            invariant
                len >= 1,
                inx <= len - 1,
                target@.len() == len,
                target@.to_multiset() == old(target)@.to_multiset(),
            decreases len - inx,
        {
            let j = <usize as RangeFromRng>::range_from_rng(
                rng,
                GenerateRange { start: inx, end_inclusive: len - 1 },
            );
            if j > inx {
                proof {
                    lemma_swap_keeps_multiset(target@, inx as int, j as int);
                }
                swap_in_vec(target, inx, j);
            }
            inx = inx + 1;
        }
    }
}


/// The first `n` 64-bit outputs of a generator, starting from state `m`.
pub open spec fn spec_words64<R: Rng>(m: R::Model, n: nat) -> Seq<u64>
    decreases n,
{
    if n == 0 {
        Seq::empty()
    } else {
        let (w, m2) = R::step64(m);
        seq![w] + spec_words64::<R>(m2, (n - 1) as nat)
    }
}

/// Law: the output stream of any generator is a function of its state
/// alone. Two generators of the same kind whose states are equal produce
/// identical output sequences, however long; together with the exact
/// construction contracts (`from_seed`, `from_state`,
/// `new_with_increment`, `new`), two generators built from the same seed
/// are interchangeable.
pub proof fn lemma_stream_deterministic<R: Rng>(m1: R::Model, m2: R::Model, n: nat)
    requires
        m1 == m2,
    ensures
        spec_words64::<R>(m1, n) == spec_words64::<R>(m2, n),
{
}

/// The first `n` 32-bit outputs of a generator, starting from state `m`.
pub open spec fn spec_words32<R: Rng>(m: R::Model, n: nat) -> Seq<u32>
    decreases n,
{
    if n == 0 {
        Seq::empty()
    } else {
        let (w, m2) = R::step32(m);
        seq![w] + spec_words32::<R>(m2, (n - 1) as nat)
    }
}

/// The generator state after `n` 32-bit draws from state `m`.
pub open spec fn spec_after32<R: Rng>(m: R::Model, n: nat) -> R::Model
    decreases n,
{
    if n == 0 {
        m
    } else {
        spec_after32::<R>(R::step32(m).1, (n - 1) as nat)
    }
}

/// The generator state after `n` 64-bit draws from state `m`.
pub open spec fn spec_after64<R: Rng>(m: R::Model, n: nat) -> R::Model
    decreases n,
{
    if n == 0 {
        m
    } else {
        spec_after64::<R>(R::step64(m).1, (n - 1) as nat)
    }
}

/// A type whose values can be drawn uniformly from a bit generator.
///
/// Each implementation fixes how many raw words one draw consumes and
/// how the value is formed from them: `bool` is the low bit of a 32-bit
/// word, the types up to 32 bits truncate a 32-bit word, `u64` is a raw
/// 64-bit word, `u128` concatenates two 64-bit words (first word high),
/// and `usize` truncates a 64-bit word. A type consumes either 32-bit
/// words or 64-bit words, never both.
pub trait ValueFromRng: Sized {
    /// How many 32-bit words one draw consumes.
    open spec fn words32() -> nat {
        vstd::pervasive::arbitrary()
    }

    /// How many 64-bit words one draw consumes.
    open spec fn words64() -> nat {
        vstd::pervasive::arbitrary()
    }

    /// The value formed from the consumed words.
    open spec fn value_of(w32: Seq<u32>, w64: Seq<u64>) -> Self {
        vstd::pervasive::arbitrary()
    }

    /// Draws one value from `rng`.
    fn value_from_rng<R: Rng>(rng: &mut R) -> (v: Self)
        ensures
            v == Self::value_of(
                spec_words32::<R>(old(rng).model(), Self::words32()),
                spec_words64::<R>(old(rng).model(), Self::words64()),
            ),
            final(rng).model() == spec_after64::<R>(
                spec_after32::<R>(old(rng).model(), Self::words32()),
                Self::words64(),
            ),
    ;
}

impl ValueFromRng for bool {
    open spec fn words32() -> nat {
        1
    }

    open spec fn words64() -> nat {
        0
    }

    open spec fn value_of(w32: Seq<u32>, w64: Seq<u64>) -> bool {
        w32[0] & 1 == 1
    }

    fn value_from_rng<R: Rng>(rng: &mut R) -> (v: bool) {
        let w = rng.random_u32();
        proof {
            reveal_with_fuel(spec_words32, 2);
            reveal_with_fuel(spec_after32, 2);
            reveal_with_fuel(spec_words64, 1);
            reveal_with_fuel(spec_after64, 1);
            assert(spec_words32::<R>(old(rng).model(), 1) =~= seq![w]);
        }
        w & 1 == 1
    }
}

impl ValueFromRng for u8 {
    open spec fn words32() -> nat {
        1
    }

    open spec fn words64() -> nat {
        0
    }

    open spec fn value_of(w32: Seq<u32>, w64: Seq<u64>) -> u8 {
        w32[0] as u8
    }

    fn value_from_rng<R: Rng>(rng: &mut R) -> (v: u8) {
        let w = rng.random_u32();
        proof {
            reveal_with_fuel(spec_words32, 2);
            reveal_with_fuel(spec_after32, 2);
            reveal_with_fuel(spec_words64, 1);
            reveal_with_fuel(spec_after64, 1);
            assert(spec_words32::<R>(old(rng).model(), 1) =~= seq![w]);
        }
        #[verifier::truncate] (w as u8)
    }
}

impl ValueFromRng for u16 {
    open spec fn words32() -> nat {
        1
    }

    open spec fn words64() -> nat {
        0
    }

    open spec fn value_of(w32: Seq<u32>, w64: Seq<u64>) -> u16 {
        w32[0] as u16
    }

    fn value_from_rng<R: Rng>(rng: &mut R) -> (v: u16) {
        let w = rng.random_u32();
        proof {
            reveal_with_fuel(spec_words32, 2);
            reveal_with_fuel(spec_after32, 2);
            reveal_with_fuel(spec_words64, 1);
            reveal_with_fuel(spec_after64, 1);
            assert(spec_words32::<R>(old(rng).model(), 1) =~= seq![w]);
        }
        #[verifier::truncate] (w as u16)
    }
}

impl ValueFromRng for u32 {
    open spec fn words32() -> nat {
        1
    }

    open spec fn words64() -> nat {
        0
    }

    open spec fn value_of(w32: Seq<u32>, w64: Seq<u64>) -> u32 {
        w32[0]
    }

    fn value_from_rng<R: Rng>(rng: &mut R) -> (v: u32) {
        let w = rng.random_u32();
        proof {
            reveal_with_fuel(spec_words32, 2);
            reveal_with_fuel(spec_after32, 2);
            reveal_with_fuel(spec_words64, 1);
            reveal_with_fuel(spec_after64, 1);
            assert(spec_words32::<R>(old(rng).model(), 1) =~= seq![w]);
        }
        w
    }
}

impl ValueFromRng for u64 {
    open spec fn words32() -> nat {
        0
    }

    open spec fn words64() -> nat {
        1
    }

    open spec fn value_of(w32: Seq<u32>, w64: Seq<u64>) -> u64 {
        w64[0]
    }

    fn value_from_rng<R: Rng>(rng: &mut R) -> (v: u64) {
        let w = rng.random_u64();
        proof {
            reveal_with_fuel(spec_words64, 2);
            reveal_with_fuel(spec_after64, 2);
            reveal_with_fuel(spec_words32, 1);
            reveal_with_fuel(spec_after32, 1);
            assert(spec_words64::<R>(old(rng).model(), 1) =~= seq![w]);
        }
        w
    }
}

impl ValueFromRng for u128 {
    open spec fn words32() -> nat {
        0
    }

    open spec fn words64() -> nat {
        2
    }

    open spec fn value_of(w32: Seq<u32>, w64: Seq<u64>) -> u128 {
        ((w64[0] as u128) << 64) | (w64[1] as u128)
    }

    fn value_from_rng<R: Rng>(rng: &mut R) -> (v: u128) {
        let hi = rng.random_u64();
        let lo = rng.random_u64();
        proof {
            reveal_with_fuel(spec_words64, 3);
            reveal_with_fuel(spec_after64, 3);
            reveal_with_fuel(spec_words32, 1);
            reveal_with_fuel(spec_after32, 1);
            assert(spec_words64::<R>(old(rng).model(), 2) =~= seq![hi, lo]);
        }
        ((hi as u128) << 64) | (lo as u128)
    }
}

impl ValueFromRng for usize {
    open spec fn words32() -> nat {
        0
    }

    open spec fn words64() -> nat {
        1
    }

    open spec fn value_of(w32: Seq<u32>, w64: Seq<u64>) -> usize {
        w64[0] as usize
    }

    fn value_from_rng<R: Rng>(rng: &mut R) -> (v: usize) {
        let w = rng.random_u64();
        proof {
            reveal_with_fuel(spec_words64, 2);
            reveal_with_fuel(spec_after64, 2);
            reveal_with_fuel(spec_words32, 1);
            reveal_with_fuel(spec_after32, 1);
            assert(spec_words64::<R>(old(rng).model(), 1) =~= seq![w]);
            assert(spec_words64::<R>(old(rng).model(), 1)[0] == w);
            assert(spec_after32::<R>(old(rng).model(), 0) == old(rng).model());
            assert(spec_after64::<R>(old(rng).model(), 1) == spec_after64::<R>(
                R::step64(old(rng).model()).1,
                0,
            ));
        }
        #[verifier::truncate] (w as usize)
    }
}

/// How many redraws a rejection loop may make before it settles for
/// the candidate in hand: the same bound the executable loops use.
pub open spec fn spec_range_fuel() -> nat {
    u64::MAX as nat
}

/// The 32-bit words a range draw may consume from state `m`: one first
/// draw plus at most `spec_range_fuel()` redraws, with headroom.
pub open spec fn spec_range_words32<R: Rng>(m: R::Model) -> Seq<u32> {
    spec_words32::<R>(m, spec_range_fuel() + 2)
}

/// The 64-bit words a range draw may consume from state `m`: at most
/// two words per draw, with headroom.
pub open spec fn spec_range_words64<R: Rng>(m: R::Model) -> Seq<u64> {
    spec_words64::<R>(m, 2 * spec_range_fuel() + 4)
}

/// The 32-bit stream of `n` words has length `n`.
pub proof fn lemma_words32_len<R: Rng>(m: R::Model, n: nat)
    ensures
        spec_words32::<R>(m, n).len() == n,
    decreases n,
{
    reveal_with_fuel(spec_words32, 2);
    if n > 0 {
        lemma_words32_len::<R>(R::step32(m).1, (n - 1) as nat);
    }
}

/// The 64-bit stream of `n` words has length `n`.
pub proof fn lemma_words64_len<R: Rng>(m: R::Model, n: nat)
    ensures
        spec_words64::<R>(m, n).len() == n,
    decreases n,
{
    reveal_with_fuel(spec_words64, 2);
    if n > 0 {
        lemma_words64_len::<R>(R::step64(m).1, (n - 1) as nat);
    }
}

/// The word at position `k` of the 32-bit stream is the step output at
/// the `k`-th successor state.
pub proof fn lemma_words32_at<R: Rng>(m: R::Model, n: nat, k: nat)
    requires
        k < n,
    ensures
        spec_words32::<R>(m, n)[k as int] == R::step32(spec_after32::<R>(m, k)).0,
        spec_after32::<R>(m, k + 1) == R::step32(spec_after32::<R>(m, k)).1,
    decreases k,
{
    reveal_with_fuel(spec_words32, 2);
    reveal_with_fuel(spec_after32, 3);
    if k > 0 {
        let m2 = R::step32(m).1;
        lemma_words32_at::<R>(m2, (n - 1) as nat, (k - 1) as nat);
        lemma_words32_len::<R>(m2, (n - 1) as nat);
        assert(spec_words32::<R>(m, n) == seq![R::step32(m).0] + spec_words32::<R>(
            m2,
            (n - 1) as nat,
        ));
        assert(spec_words32::<R>(m, n)[k as int] == spec_words32::<R>(m2, (n - 1) as nat)[k
            as int - 1]);
        assert(spec_after32::<R>(m, k) == spec_after32::<R>(m2, (k - 1) as nat));
        assert(spec_after32::<R>(m, k + 1) == spec_after32::<R>(m2, k));
    }
}

/// The word at position `k` of the 64-bit stream is the step output at
/// the `k`-th successor state.
pub proof fn lemma_words64_at<R: Rng>(m: R::Model, n: nat, k: nat)
    requires
        k < n,
    ensures
        spec_words64::<R>(m, n)[k as int] == R::step64(spec_after64::<R>(m, k)).0,
        spec_after64::<R>(m, k + 1) == R::step64(spec_after64::<R>(m, k)).1,
    decreases k,
{
    reveal_with_fuel(spec_words64, 2);
    reveal_with_fuel(spec_after64, 3);
    if k > 0 {
        let m2 = R::step64(m).1;
        lemma_words64_at::<R>(m2, (n - 1) as nat, (k - 1) as nat);
        lemma_words64_len::<R>(m2, (n - 1) as nat);
        assert(spec_words64::<R>(m, n) == seq![R::step64(m).0] + spec_words64::<R>(
            m2,
            (n - 1) as nat,
        ));
        assert(spec_words64::<R>(m, n)[k as int] == spec_words64::<R>(m2, (n - 1) as nat)[k
            as int - 1]);
        assert(spec_after64::<R>(m, k) == spec_after64::<R>(m2, (k - 1) as nat));
        assert(spec_after64::<R>(m, k + 1) == spec_after64::<R>(m2, k));
    }
}

/// The candidate that one 16-bit draw yields under Lemire's method:
/// the high and low halves of the widened product with the span.
pub open spec fn spec_lemire16_halves(draw: u16, span: u16) -> (u16, u16) {
    let m = (draw as u32).wrapping_mul(span as u32);
    ((m >> 16) as u16, m as u16)
}

/// The candidate that one 32-bit draw yields under Lemire's method.
pub open spec fn spec_lemire32_halves(draw: u32, span: u32) -> (u32, u32) {
    let m = (draw as u64).wrapping_mul(span as u64);
    ((m >> 32) as u32, m as u32)
}

/// The candidate that one 64-bit draw yields under Lemire's method.
pub open spec fn spec_lemire64_halves(draw: u64, span: u64) -> (u64, u64) {
    let m = (draw as u128).wrapping_mul(span as u128);
    ((m >> 64) as u64, m as u64)
}

/// The redraw loop of Lemire's method over 16-bit draws, starting at
/// word `i` with the candidate `(high, low)` in hand: redraw while the
/// low half is under the threshold and fuel remains. Returns the
/// accepted candidate and the next unread word position.
pub open spec fn spec_lemire16_loop(
    words: Seq<u32>,
    i: nat,
    span: u16,
    threshold: u16,
    high: u16,
    low: u16,
    fuel: nat,
) -> (u16, nat)
    decreases fuel,
{
    if low < threshold && fuel > 0 {
        let (high2, low2) = spec_lemire16_halves(words[i as int] as u16, span);
        spec_lemire16_loop(words, i + 1, span, threshold, high2, low2, (fuel - 1) as nat)
    } else {
        (high, i)
    }
}

/// The redraw loop of Lemire's method over 32-bit draws.
pub open spec fn spec_lemire32_loop(
    words: Seq<u32>,
    i: nat,
    span: u32,
    threshold: u32,
    high: u32,
    low: u32,
    fuel: nat,
) -> (u32, nat)
    decreases fuel,
{
    if low < threshold && fuel > 0 {
        let (high2, low2) = spec_lemire32_halves(words[i as int], span);
        spec_lemire32_loop(words, i + 1, span, threshold, high2, low2, (fuel - 1) as nat)
    } else {
        (high, i)
    }
}

/// The redraw loop of Lemire's method over 64-bit draws.
pub open spec fn spec_lemire64_loop(
    words: Seq<u64>,
    i: nat,
    span: u64,
    threshold: u64,
    high: u64,
    low: u64,
    fuel: nat,
) -> (u64, nat)
    decreases fuel,
{
    if low < threshold && fuel > 0 {
        let (high2, low2) = spec_lemire64_halves(words[i as int], span);
        spec_lemire64_loop(words, i + 1, span, threshold, high2, low2, (fuel - 1) as nat)
    } else {
        (high, i)
    }
}

/// Lemire's method over 16-bit draws taken from the 32-bit word
/// stream: the value below `span`, and how many words were consumed.
/// The first draw's candidate stands unless its low half falls under
/// the span; then the rejection threshold `(-span) mod span` governs
/// the redraws.
pub open spec fn spec_lemire16(words: Seq<u32>, span: u16) -> (u16, nat)
    recommends
        span > 0,
{
    let (high, low) = spec_lemire16_halves(words[0] as u16, span);
    if low < span {
        spec_lemire16_loop(
            words,
            1,
            span,
            (0u16).wrapping_sub(span) % span,
            high,
            low,
            spec_range_fuel(),
        )
    } else {
        (high, 1)
    }
}

/// Lemire's method over 32-bit draws; see the 16-bit variant.
pub open spec fn spec_lemire32(words: Seq<u32>, span: u32) -> (u32, nat)
    recommends
        span > 0,
{
    let (high, low) = spec_lemire32_halves(words[0], span);
    if low < span {
        spec_lemire32_loop(
            words,
            1,
            span,
            (0u32).wrapping_sub(span) % span,
            high,
            low,
            spec_range_fuel(),
        )
    } else {
        (high, 1)
    }
}

/// Lemire's method over 64-bit draws; see the 16-bit variant.
pub open spec fn spec_lemire64(words: Seq<u64>, span: u64) -> (u64, nat)
    recommends
        span > 0,
{
    let (high, low) = spec_lemire64_halves(words[0], span);
    if low < span {
        spec_lemire64_loop(
            words,
            1,
            span,
            (0u64).wrapping_sub(span) % span,
            high,
            low,
            spec_range_fuel(),
        )
    } else {
        (high, 1)
    }
}

/// The rejection loop over full 128-bit draws (two 64-bit words each,
/// first word high): redraw while the value exceeds the largest draw
/// below the last whole multiple of `span`. Returns the remainder
/// modulo `span` and the next unread word position.
pub open spec fn spec_reject128_loop(
    words: Seq<u64>,
    i: nat,
    span: u128,
    max_valid: u128,
    rv: u128,
    fuel: nat,
) -> (u128, nat)
    recommends
        span > 0,
    decreases fuel,
{
    if rv > max_valid && fuel > 0 {
        let rv2 = ((words[i as int] as u128) << 64) | (words[i as int + 1] as u128);
        spec_reject128_loop(words, i + 2, span, max_valid, rv2, (fuel - 1) as nat)
    } else {
        (rv % span, i)
    }
}

/// Plain rejection sampling over 128-bit draws from the 64-bit word
/// stream: the value below `span`, and how many words were consumed.
pub open spec fn spec_reject128(words: Seq<u64>, span: u128) -> (u128, nat)
    recommends
        span > 0,
{
    let rv = ((words[0] as u128) << 64) | (words[1] as u128);
    let reduced_max = u128::MAX.wrapping_sub(span).wrapping_add(1);
    let max_valid = u128::MAX.wrapping_sub(reduced_max % span);
    spec_reject128_loop(words, 2, span, max_valid, rv, spec_range_fuel())
}

/// A type whose values can be drawn uniformly from a caller-given range.
///
/// Each implementation pins the drawn value and the words consumed as
/// a function of the generator's upcoming word streams (`range_value`,
/// `range_consumed32`, `range_consumed64`), following the width split
/// of the sampler: a full-width range returns the raw codec draw with
/// no masking; a single-point range returns its one value without
/// consuming anything; every other range goes through Lemire's
/// multiplication method on the next-larger generate type, except the
/// 128-bit types, which use plain rejection sampling. An inverted
/// range is a usage error, excluded by the precondition.
pub trait RangeFromRng: Sized + Copy {
    /// The order that the bounds and the drawn value follow.
    open spec fn le_spec(self, other: Self) -> bool {
        vstd::pervasive::arbitrary()
    }

    /// The value drawn from `bounds`, as a function of the word
    /// streams the generator would produce.
    open spec fn range_value(w32: Seq<u32>, w64: Seq<u64>, bounds: GenerateRange<Self>) -> Self {
        vstd::pervasive::arbitrary()
    }

    /// How many 32-bit words the draw consumes.
    open spec fn range_consumed32(
        w32: Seq<u32>,
        w64: Seq<u64>,
        bounds: GenerateRange<Self>,
    ) -> nat {
        vstd::pervasive::arbitrary()
    }

    /// How many 64-bit words the draw consumes.
    open spec fn range_consumed64(
        w32: Seq<u32>,
        w64: Seq<u64>,
        bounds: GenerateRange<Self>,
    ) -> nat {
        vstd::pervasive::arbitrary()
    }

    /// Draws one value uniformly from `range`.
    fn range_from_rng<R: Rng>(rng: &mut R, range: GenerateRange<Self>) -> (v: Self)
        requires
            range.start.le_spec(range.end_inclusive),
        ensures
            range.start.le_spec(v),
            v.le_spec(range.end_inclusive),
            range.start == range.end_inclusive ==> v == range.start && final(rng).model()
                == old(rng).model(),
            v == Self::range_value(
                spec_range_words32::<R>(old(rng).model()),
                spec_range_words64::<R>(old(rng).model()),
                range,
            ),
            final(rng).model() == spec_after64::<R>(
                spec_after32::<R>(
                    old(rng).model(),
                    Self::range_consumed32(
                        spec_range_words32::<R>(old(rng).model()),
                        spec_range_words64::<R>(old(rng).model()),
                        range,
                    ),
                ),
                Self::range_consumed64(
                    spec_range_words32::<R>(old(rng).model()),
                    spec_range_words64::<R>(old(rng).model()),
                    range,
                ),
            ),
    ;
}

/// Bounds used by Lemire's multiplication method: for a draw below the
/// generate type's modulus, the high half of `draw * span` is below
/// `span`.
proof fn lemma_lemire_high(d: int, sp: int, modulus: int)
    requires
        0 <= d < modulus,
        0 <= sp < modulus,
        0 < modulus,
    ensures
        0 <= d * sp <= (modulus - 1) * (modulus - 1),
        0 < sp ==> (d * sp) / modulus < sp,
{
    assert(0 <= d * sp <= (modulus - 1) * (modulus - 1)) by (nonlinear_arith)
        requires 0 <= d <= modulus - 1, 0 <= sp <= modulus - 1;
    if 0 < sp {
        assert(d * sp < modulus * sp) by (nonlinear_arith)
            requires d < modulus, 0 < sp;
        assert((d * sp) / modulus < sp) by (nonlinear_arith)
            requires d * sp < modulus * sp, 0 < modulus, 0 < sp, 0 <= d * sp;
    }
}

/// Draws a value below `span` with Lemire's method, multiplying 16-bit
/// draws into a 32-bit product: exactly the fold `spec_lemire16` over
/// the generator's word stream.
fn lemire_u16<R: Rng>(rng: &mut R, span: u16) -> (v: u16)
    requires
        span > 0,
    ensures
        v < span,
        v == spec_lemire16(spec_range_words32::<R>(old(rng).model()), span).0,
        final(rng).model() == spec_after32::<R>(
            old(rng).model(),
            spec_lemire16(spec_range_words32::<R>(old(rng).model()), span).1,
        ),
{
    let ghost m0 = old(rng).model();
    let ghost words = spec_range_words32::<R>(m0);
    proof {
        reveal_with_fuel(spec_after32, 1);
        lemma_words32_at::<R>(m0, spec_range_fuel() + 2, 0);
    }
    let w0 = rng.random_u32();
    let draw = #[verifier::truncate] (w0 as u16);
    proof {
        lemma_lemire_high(draw as int, span as int, 0x10000);
    }
    let m: u32 = (draw as u32).wrapping_mul(span as u32);
    let mut high: u16 = #[verifier::truncate] ((m >> 16) as u16);
    let mut low: u16 = #[verifier::truncate] (m as u16);
    proof {
        assert(m >> 16 == m / 0x10000) by (bit_vector);
        assert((words[0] as u16, span) == (draw, span));
    }
    if low < span {
        // Redraw until the low half clears the rejection threshold. The
        // redraw count is bounded only probabilistically, so a fuel
        // counter bounds it here; when the fuel runs out, the candidate
        // in hand is returned, which stays inside the range.
        let threshold = (0u16.wrapping_sub(span)) % span;
        let mut fuel: u64 = u64::MAX;
        while low < threshold && fuel > 0
            invariant
                span > 0,
                high < span,
                m0 == old(rng).model(),
                words == spec_range_words32::<R>(m0),
                rng.model() == spec_after32::<R>(m0, (1 + u64::MAX - fuel) as nat),
                threshold == (0u16).wrapping_sub(span) % span,
                spec_lemire16(words, span) == spec_lemire16_loop(
                    words,
                    (1 + u64::MAX - fuel) as nat,
                    span,
                    threshold,
                    high,
                    low,
                    fuel as nat,
                ),
            decreases fuel,
        {
            proof {
                reveal_with_fuel(spec_lemire16_loop, 2);
                lemma_words32_at::<R>(
                    m0,
                    spec_range_fuel() + 2,
                    (1 + u64::MAX - fuel) as nat,
                );
            }
            fuel = fuel - 1;
            let w = rng.random_u32();
            let draw2 = #[verifier::truncate] (w as u16);
            proof {
                lemma_lemire_high(draw2 as int, span as int, 0x10000);
            }
            let m2: u32 = (draw2 as u32).wrapping_mul(span as u32);
            high = #[verifier::truncate] ((m2 >> 16) as u16);
            low = #[verifier::truncate] (m2 as u16);
            proof {
                assert(m2 >> 16 == m2 / 0x10000) by (bit_vector);
            }
        }
        proof {
            reveal_with_fuel(spec_lemire16_loop, 1);
        }
    }
    high
}

/// Draws a value below `span` with Lemire's method, multiplying 32-bit
/// draws into a 64-bit product: exactly the fold `spec_lemire32` over
/// the generator's word stream.
fn lemire_u32<R: Rng>(rng: &mut R, span: u32) -> (v: u32)
    requires
        span > 0,
    ensures
        v < span,
        v == spec_lemire32(spec_range_words32::<R>(old(rng).model()), span).0,
        final(rng).model() == spec_after32::<R>(
            old(rng).model(),
            spec_lemire32(spec_range_words32::<R>(old(rng).model()), span).1,
        ),
{
    let ghost m0 = old(rng).model();
    let ghost words = spec_range_words32::<R>(m0);
    proof {
        reveal_with_fuel(spec_after32, 1);
        lemma_words32_at::<R>(m0, spec_range_fuel() + 2, 0);
    }
    let draw = rng.random_u32();
    proof {
        lemma_lemire_high(draw as int, span as int, 0x1_0000_0000);
    }
    let m: u64 = (draw as u64).wrapping_mul(span as u64);
    let mut high: u32 = #[verifier::truncate] ((m >> 32) as u32);
    let mut low: u32 = #[verifier::truncate] (m as u32);
    proof {
        assert(m >> 32 == m / 0x1_0000_0000) by (bit_vector);
    }
    if low < span {
        let threshold = (0u32.wrapping_sub(span)) % span;
        let mut fuel: u64 = u64::MAX;
        while low < threshold && fuel > 0
            invariant
                span > 0,
                high < span,
                m0 == old(rng).model(),
                words == spec_range_words32::<R>(m0),
                rng.model() == spec_after32::<R>(m0, (1 + u64::MAX - fuel) as nat),
                threshold == (0u32).wrapping_sub(span) % span,
                spec_lemire32(words, span) == spec_lemire32_loop(
                    words,
                    (1 + u64::MAX - fuel) as nat,
                    span,
                    threshold,
                    high,
                    low,
                    fuel as nat,
                ),
            decreases fuel,
        {
            proof {
                reveal_with_fuel(spec_lemire32_loop, 2);
                lemma_words32_at::<R>(
                    m0,
                    spec_range_fuel() + 2,
                    (1 + u64::MAX - fuel) as nat,
                );
            }
            fuel = fuel - 1;
            let draw2 = rng.random_u32();
            proof {
                lemma_lemire_high(draw2 as int, span as int, 0x1_0000_0000);
            }
            let m2: u64 = (draw2 as u64).wrapping_mul(span as u64);
            high = #[verifier::truncate] ((m2 >> 32) as u32);
            low = #[verifier::truncate] (m2 as u32);
            proof {
                assert(m2 >> 32 == m2 / 0x1_0000_0000) by (bit_vector);
            }
        }
        proof {
            reveal_with_fuel(spec_lemire32_loop, 1);
        }
    }
    high
}

/// Draws a value below `span` with Lemire's method, multiplying 64-bit
/// draws into a 128-bit product: exactly the fold `spec_lemire64` over
/// the generator's word stream.
fn lemire_u64<R: Rng>(rng: &mut R, span: u64) -> (v: u64)
    requires
        span > 0,
    ensures
        v < span,
        v == spec_lemire64(spec_range_words64::<R>(old(rng).model()), span).0,
        final(rng).model() == spec_after64::<R>(
            old(rng).model(),
            spec_lemire64(spec_range_words64::<R>(old(rng).model()), span).1,
        ),
{
    let ghost m0 = old(rng).model();
    let ghost words = spec_range_words64::<R>(m0);
    proof {
        reveal_with_fuel(spec_after64, 1);
        lemma_words64_at::<R>(m0, 2 * spec_range_fuel() + 4, 0);
    }
    let draw = rng.random_u64();
    proof {
        lemma_lemire_high(draw as int, span as int, 0x1_0000_0000_0000_0000);
    }
    let m: u128 = (draw as u128).wrapping_mul(span as u128);
    let mut high: u64 = #[verifier::truncate] ((m >> 64) as u64);
    let mut low: u64 = #[verifier::truncate] (m as u64);
    proof {
        assert(m >> 64 == m / 0x1_0000_0000_0000_0000) by (bit_vector);
    }
    if low < span {
        let threshold = (0u64.wrapping_sub(span)) % span;
        let mut fuel: u64 = u64::MAX;
        while low < threshold && fuel > 0
            invariant
                span > 0,
                high < span,
                m0 == old(rng).model(),
                words == spec_range_words64::<R>(m0),
                rng.model() == spec_after64::<R>(m0, (1 + u64::MAX - fuel) as nat),
                threshold == (0u64).wrapping_sub(span) % span,
                spec_lemire64(words, span) == spec_lemire64_loop(
                    words,
                    (1 + u64::MAX - fuel) as nat,
                    span,
                    threshold,
                    high,
                    low,
                    fuel as nat,
                ),
            decreases fuel,
        {
            proof {
                reveal_with_fuel(spec_lemire64_loop, 2);
                lemma_words64_at::<R>(
                    m0,
                    2 * spec_range_fuel() + 4,
                    (1 + u64::MAX - fuel) as nat,
                );
            }
            fuel = fuel - 1;
            let draw2 = rng.random_u64();
            proof {
                lemma_lemire_high(draw2 as int, span as int, 0x1_0000_0000_0000_0000);
            }
            let m2: u128 = (draw2 as u128).wrapping_mul(span as u128);
            high = #[verifier::truncate] ((m2 >> 64) as u64);
            low = #[verifier::truncate] (m2 as u64);
            proof {
                assert(m2 >> 64 == m2 / 0x1_0000_0000_0000_0000) by (bit_vector);
            }
        }
        proof {
            reveal_with_fuel(spec_lemire64_loop, 1);
        }
    }
    high
}

/// Draws a value below `span` by plain rejection sampling on full
/// 128-bit draws (there is no 256-bit type to multiply into): exactly
/// the fold `spec_reject128` over the generator's word stream.
fn reject_u128<R: Rng>(rng: &mut R, span: u128) -> (v: u128)
    requires
        span > 0,
    ensures
        v < span,
        v == spec_reject128(spec_range_words64::<R>(old(rng).model()), span).0,
        final(rng).model() == spec_after64::<R>(
            old(rng).model(),
            spec_reject128(spec_range_words64::<R>(old(rng).model()), span).1,
        ),
{
    let ghost m0 = old(rng).model();
    let ghost words = spec_range_words64::<R>(m0);
    proof {
        reveal_with_fuel(spec_after64, 2);
        lemma_words64_at::<R>(m0, 2 * spec_range_fuel() + 4, 0);
        lemma_words64_at::<R>(m0, 2 * spec_range_fuel() + 4, 1);
    }
    let hi = rng.random_u64();
    let lo = rng.random_u64();
    let mut random_value = ((hi as u128) << 64) | (lo as u128);
    let reduced_max = u128::MAX.wrapping_sub(span).wrapping_add(1);
    let max_valid_value = u128::MAX.wrapping_sub(reduced_max % span);
    let mut fuel: u64 = u64::MAX;
    while random_value > max_valid_value && fuel > 0
        invariant
            span > 0,
            m0 == old(rng).model(),
            words == spec_range_words64::<R>(m0),
            rng.model() == spec_after64::<R>(m0, (2 + 2 * (u64::MAX - fuel)) as nat),
            spec_reject128(words, span) == spec_reject128_loop(
                words,
                (2 + 2 * (u64::MAX - fuel)) as nat,
                span,
                max_valid_value,
                random_value,
                fuel as nat,
            ),
        decreases fuel,
    {
        proof {
            reveal_with_fuel(spec_reject128_loop, 2);
            lemma_words64_at::<R>(
                m0,
                2 * spec_range_fuel() + 4,
                (2 + 2 * (u64::MAX - fuel)) as nat,
            );
            lemma_words64_at::<R>(
                m0,
                2 * spec_range_fuel() + 4,
                (3 + 2 * (u64::MAX - fuel)) as nat,
            );
        }
        fuel = fuel - 1;
        let hi2 = rng.random_u64();
        let lo2 = rng.random_u64();
        random_value = ((hi2 as u128) << 64) | (lo2 as u128);
    }
    proof {
        reveal_with_fuel(spec_reject128_loop, 1);
    }
    random_value % span
}

impl RangeFromRng for u8 {
    open spec fn le_spec(self, other: Self) -> bool {
        self <= other
    }

    open spec fn range_value(w32: Seq<u32>, w64: Seq<u64>, bounds: GenerateRange<u8>) -> u8 {
        if bounds.start == 0 && bounds.end_inclusive == u8::MAX {
            (w32[0] as u16) as u8
        } else if bounds.start == bounds.end_inclusive {
            bounds.start
        } else {
            (bounds.start + spec_lemire16(w32, (bounds.end_inclusive - bounds.start + 1) as u16).0) as u8
        }
    }

    open spec fn range_consumed32(
        w32: Seq<u32>,
        w64: Seq<u64>,
        bounds: GenerateRange<u8>,
    ) -> nat {
        if bounds.start == 0 && bounds.end_inclusive == u8::MAX {
            1
        } else if bounds.start == bounds.end_inclusive {
            0
        } else {
            spec_lemire16(w32, (bounds.end_inclusive - bounds.start + 1) as u16).1
        }
    }

    open spec fn range_consumed64(
        w32: Seq<u32>,
        w64: Seq<u64>,
        bounds: GenerateRange<u8>,
    ) -> nat {
        0
    }

    fn range_from_rng<R: Rng>(rng: &mut R, range: GenerateRange<u8>) -> (v: u8) {
        let ghost m0 = old(rng).model();
        proof {
            reveal_with_fuel(spec_after32, 1);
            reveal_with_fuel(spec_after64, 1);
        }
        let start = range.start;
        let end_inclusive = range.end_inclusive;
        if start == 0 && end_inclusive == u8::MAX {
            proof {
                lemma_words32_at::<R>(m0, spec_range_fuel() + 2, 0);
                lemma_words32_at::<R>(m0, 1, 0);
            }
            let w = <u16 as ValueFromRng>::value_from_rng(rng);
            return #[verifier::truncate] (w as u8);
        }
        if start == end_inclusive {
            return start;
        }
        let span = (end_inclusive - start) as u16 + 1;
        let h = lemire_u16(rng, span);
        proof {
            assert(span == (range.end_inclusive - range.start + 1) as u16);
        }
        start + (h as u8)
    }
}

impl RangeFromRng for u16 {
    open spec fn le_spec(self, other: Self) -> bool {
        self <= other
    }

    open spec fn range_value(w32: Seq<u32>, w64: Seq<u64>, bounds: GenerateRange<u16>) -> u16 {
        if bounds.start == 0 && bounds.end_inclusive == u16::MAX {
            w32[0] as u16
        } else if bounds.start == bounds.end_inclusive {
            bounds.start
        } else {
            (bounds.start + spec_lemire32(w32, (bounds.end_inclusive - bounds.start + 1) as u32).0) as u16
        }
    }

    open spec fn range_consumed32(
        w32: Seq<u32>,
        w64: Seq<u64>,
        bounds: GenerateRange<u16>,
    ) -> nat {
        if bounds.start == 0 && bounds.end_inclusive == u16::MAX {
            1
        } else if bounds.start == bounds.end_inclusive {
            0
        } else {
            spec_lemire32(w32, (bounds.end_inclusive - bounds.start + 1) as u32).1
        }
    }

    open spec fn range_consumed64(
        w32: Seq<u32>,
        w64: Seq<u64>,
        bounds: GenerateRange<u16>,
    ) -> nat {
        0
    }

    fn range_from_rng<R: Rng>(rng: &mut R, range: GenerateRange<u16>) -> (v: u16) {
        let ghost m0 = old(rng).model();
        proof {
            reveal_with_fuel(spec_after32, 1);
            reveal_with_fuel(spec_after64, 1);
        }
        let start = range.start;
        let end_inclusive = range.end_inclusive;
        if start == 0 && end_inclusive == u16::MAX {
            proof {
                lemma_words32_at::<R>(m0, spec_range_fuel() + 2, 0);
                lemma_words32_at::<R>(m0, 1, 0);
            }
            let w = <u32 as ValueFromRng>::value_from_rng(rng);
            return #[verifier::truncate] (w as u16);
        }
        if start == end_inclusive {
            return start;
        }
        let span = (end_inclusive - start) as u32 + 1;
        let h = lemire_u32(rng, span);
        proof {
            assert(span == (range.end_inclusive - range.start + 1) as u32);
        }
        start + (h as u16)
    }
}

impl RangeFromRng for u32 {
    open spec fn le_spec(self, other: Self) -> bool {
        self <= other
    }

    open spec fn range_value(w32: Seq<u32>, w64: Seq<u64>, bounds: GenerateRange<u32>) -> u32 {
        if bounds.start == 0 && bounds.end_inclusive == u32::MAX {
            w32[0]
        } else if bounds.start == bounds.end_inclusive {
            bounds.start
        } else {
            (bounds.start + spec_lemire32(w32, (bounds.end_inclusive - bounds.start + 1) as u32).0) as u32
        }
    }

    open spec fn range_consumed32(
        w32: Seq<u32>,
        w64: Seq<u64>,
        bounds: GenerateRange<u32>,
    ) -> nat {
        if bounds.start == 0 && bounds.end_inclusive == u32::MAX {
            1
        } else if bounds.start == bounds.end_inclusive {
            0
        } else {
            spec_lemire32(w32, (bounds.end_inclusive - bounds.start + 1) as u32).1
        }
    }

    open spec fn range_consumed64(
        w32: Seq<u32>,
        w64: Seq<u64>,
        bounds: GenerateRange<u32>,
    ) -> nat {
        0
    }

    fn range_from_rng<R: Rng>(rng: &mut R, range: GenerateRange<u32>) -> (v: u32) {
        let ghost m0 = old(rng).model();
        proof {
            reveal_with_fuel(spec_after32, 1);
            reveal_with_fuel(spec_after64, 1);
        }
        let start = range.start;
        let end_inclusive = range.end_inclusive;
        if start == 0 && end_inclusive == u32::MAX {
            proof {
                lemma_words32_at::<R>(m0, spec_range_fuel() + 2, 0);
                lemma_words32_at::<R>(m0, 1, 0);
            }
            let w = rng.random_u32();
            return #[verifier::truncate] (w as u32);
        }
        if start == end_inclusive {
            return start;
        }
        let span = (end_inclusive - start) as u32 + 1;
        let h = lemire_u32(rng, span);
        proof {
            assert(span == (range.end_inclusive - range.start + 1) as u32);
        }
        start + (h as u32)
    }
}

impl RangeFromRng for u64 {
    open spec fn le_spec(self, other: Self) -> bool {
        self <= other
    }

    open spec fn range_value(w32: Seq<u32>, w64: Seq<u64>, bounds: GenerateRange<u64>) -> u64 {
        if bounds.start == 0 && bounds.end_inclusive == u64::MAX {
            w64[0]
        } else if bounds.start == bounds.end_inclusive {
            bounds.start
        } else {
            (bounds.start + spec_lemire64(w64, (bounds.end_inclusive - bounds.start + 1) as u64).0) as u64
        }
    }

    open spec fn range_consumed64(
        w32: Seq<u32>,
        w64: Seq<u64>,
        bounds: GenerateRange<u64>,
    ) -> nat {
        if bounds.start == 0 && bounds.end_inclusive == u64::MAX {
            1
        } else if bounds.start == bounds.end_inclusive {
            0
        } else {
            spec_lemire64(w64, (bounds.end_inclusive - bounds.start + 1) as u64).1
        }
    }

    open spec fn range_consumed32(
        w32: Seq<u32>,
        w64: Seq<u64>,
        bounds: GenerateRange<u64>,
    ) -> nat {
        0
    }

    fn range_from_rng<R: Rng>(rng: &mut R, range: GenerateRange<u64>) -> (v: u64) {
        let ghost m0 = old(rng).model();
        proof {
            reveal_with_fuel(spec_after32, 1);
            reveal_with_fuel(spec_after64, 1);
        }
        let start = range.start;
        let end_inclusive = range.end_inclusive;
        if start == 0 && end_inclusive == u64::MAX {
            proof {
                lemma_words64_at::<R>(m0, 2 * spec_range_fuel() + 4, 0);
                lemma_words64_at::<R>(m0, 1, 0);
            }
            let w = rng.random_u64();
            return #[verifier::truncate] (w as u64);
        }
        if start == end_inclusive {
            return start;
        }
        let span = (end_inclusive - start) as u64 + 1;
        let h = lemire_u64(rng, span);
        proof {
            assert(span == (range.end_inclusive - range.start + 1) as u64);
        }
        start + (h as u64)
    }
}

impl RangeFromRng for u128 {
    open spec fn le_spec(self, other: Self) -> bool {
        self <= other
    }

    open spec fn range_value(w32: Seq<u32>, w64: Seq<u64>, bounds: GenerateRange<u128>) -> u128 {
        if bounds.start == 0 && bounds.end_inclusive == u128::MAX {
            ((w64[0] as u128) << 64) | (w64[1] as u128)
        } else if bounds.start == bounds.end_inclusive {
            bounds.start
        } else {
            (bounds.start + spec_reject128(
                w64,
                (bounds.end_inclusive - bounds.start + 1) as u128,
            ).0) as u128
        }
    }

    open spec fn range_consumed64(
        w32: Seq<u32>,
        w64: Seq<u64>,
        bounds: GenerateRange<u128>,
    ) -> nat {
        if bounds.start == 0 && bounds.end_inclusive == u128::MAX {
            2
        } else if bounds.start == bounds.end_inclusive {
            0
        } else {
            spec_reject128(w64, (bounds.end_inclusive - bounds.start + 1) as u128).1
        }
    }

    open spec fn range_consumed32(
        w32: Seq<u32>,
        w64: Seq<u64>,
        bounds: GenerateRange<u128>,
    ) -> nat {
        0
    }

    fn range_from_rng<R: Rng>(rng: &mut R, range: GenerateRange<u128>) -> (v: u128) {
        let ghost m0 = old(rng).model();
        proof {
            reveal_with_fuel(spec_after32, 1);
            reveal_with_fuel(spec_after64, 1);
        }
        let start = range.start;
        let end_inclusive = range.end_inclusive;
        if start == 0 && end_inclusive == u128::MAX {
            proof {
                lemma_words64_at::<R>(m0, 2 * spec_range_fuel() + 4, 0);
                lemma_words64_at::<R>(m0, 2 * spec_range_fuel() + 4, 1);
                lemma_words64_at::<R>(m0, 2, 0);
                lemma_words64_at::<R>(m0, 2, 1);
            }
            return <u128 as ValueFromRng>::value_from_rng(rng);
        }
        if start == end_inclusive {
            return start;
        }
        let span = (end_inclusive - start) + 1;
        let h = reject_u128(rng, span);
        proof {
            assert(span == (range.end_inclusive - range.start + 1) as u128);
        }
        start + h
    }
}

impl RangeFromRng for usize {
    open spec fn le_spec(self, other: Self) -> bool {
        self <= other
    }

    open spec fn range_value(w32: Seq<u32>, w64: Seq<u64>, bounds: GenerateRange<usize>) -> usize {
        if bounds.start == 0 && bounds.end_inclusive == usize::MAX {
            w64[0] as usize
        } else if bounds.start == bounds.end_inclusive {
            bounds.start
        } else {
            (bounds.start + spec_lemire64(
                w64,
                (bounds.end_inclusive - bounds.start + 1) as u64,
            ).0) as usize
        }
    }

    open spec fn range_consumed64(
        w32: Seq<u32>,
        w64: Seq<u64>,
        bounds: GenerateRange<usize>,
    ) -> nat {
        if bounds.start == 0 && bounds.end_inclusive == usize::MAX {
            1
        } else if bounds.start == bounds.end_inclusive {
            0
        } else {
            spec_lemire64(w64, (bounds.end_inclusive - bounds.start + 1) as u64).1
        }
    }

    open spec fn range_consumed32(
        w32: Seq<u32>,
        w64: Seq<u64>,
        bounds: GenerateRange<usize>,
    ) -> nat {
        0
    }

    fn range_from_rng<R: Rng>(rng: &mut R, range: GenerateRange<usize>) -> (v: usize) {
        let ghost m0 = old(rng).model();
        proof {
            reveal_with_fuel(spec_after32, 1);
            reveal_with_fuel(spec_after64, 1);
        }
        let start = range.start;
        let end_inclusive = range.end_inclusive;
        if start == 0 && end_inclusive == usize::MAX {
            proof {
                lemma_words64_at::<R>(m0, 2 * spec_range_fuel() + 4, 0);
                lemma_words64_at::<R>(m0, 1, 0);
            }
            return <usize as ValueFromRng>::value_from_rng(rng);
        }
        if start == end_inclusive {
            return start;
        }
        let span = (end_inclusive - start) as u64 + 1;
        let h = lemire_u64(rng, span);
        proof {
            assert(span == (range.end_inclusive - range.start + 1) as u64);
        }
        start + (h as usize)
    }
}

impl RangeFromRng for i8 {
    open spec fn le_spec(self, other: Self) -> bool {
        self <= other
    }

    open spec fn range_value(w32: Seq<u32>, w64: Seq<u64>, bounds: GenerateRange<i8>) -> i8 {
        if bounds.start == i8::MIN && bounds.end_inclusive == i8::MAX {
            (w32[0] as u16) as i8
        } else if bounds.start == bounds.end_inclusive {
            bounds.start
        } else {
            (bounds.start + spec_lemire16(w32, (bounds.end_inclusive - bounds.start + 1) as u16).0) as i8
        }
    }

    open spec fn range_consumed32(
        w32: Seq<u32>,
        w64: Seq<u64>,
        bounds: GenerateRange<i8>,
    ) -> nat {
        if bounds.start == i8::MIN && bounds.end_inclusive == i8::MAX {
            1
        } else if bounds.start == bounds.end_inclusive {
            0
        } else {
            spec_lemire16(w32, (bounds.end_inclusive - bounds.start + 1) as u16).1
        }
    }

    open spec fn range_consumed64(
        w32: Seq<u32>,
        w64: Seq<u64>,
        bounds: GenerateRange<i8>,
    ) -> nat {
        0
    }

    fn range_from_rng<R: Rng>(rng: &mut R, range: GenerateRange<i8>) -> (v: i8) {
        let ghost m0 = old(rng).model();
        proof {
            reveal_with_fuel(spec_after32, 1);
            reveal_with_fuel(spec_after64, 1);
        }
        let start = range.start;
        let end_inclusive = range.end_inclusive;
        if start == i8::MIN && end_inclusive == i8::MAX {
            proof {
                lemma_words32_at::<R>(m0, spec_range_fuel() + 2, 0);
                lemma_words32_at::<R>(m0, 1, 0);
            }
            let w = <u16 as ValueFromRng>::value_from_rng(rng);
            return #[verifier::truncate] (w as i8);
        }
        if start == end_inclusive {
            return start;
        }
        // The width of the range, in the unsigned counterpart; the sign
        // split keeps every intermediate value in its type's range.
        let diff: u8 = if start < 0 && end_inclusive >= 0 {
            (end_inclusive as u8) + ((-(start + 1)) as u8) + 1
        } else {
            (end_inclusive - start) as u8
        };
        let span: u16 = diff as u16 + 1;
        let h: u16 = lemire_u16(rng, span);
        proof {
            assert(span == (range.end_inclusive - range.start + 1) as u16);
        }
        let v = if h <= i8::MAX as u16 {
            start + (h as i8)
        } else {
            (start + i8::MAX) + ((h - (i8::MAX as u16)) as i8)
        };
        proof {
            assert(v == range.start + h);
        }
        v
    }
}

impl RangeFromRng for i16 {
    open spec fn le_spec(self, other: Self) -> bool {
        self <= other
    }

    open spec fn range_value(w32: Seq<u32>, w64: Seq<u64>, bounds: GenerateRange<i16>) -> i16 {
        if bounds.start == i16::MIN && bounds.end_inclusive == i16::MAX {
            w32[0] as i16
        } else if bounds.start == bounds.end_inclusive {
            bounds.start
        } else {
            (bounds.start + spec_lemire32(w32, (bounds.end_inclusive - bounds.start + 1) as u32).0) as i16
        }
    }

    open spec fn range_consumed32(
        w32: Seq<u32>,
        w64: Seq<u64>,
        bounds: GenerateRange<i16>,
    ) -> nat {
        if bounds.start == i16::MIN && bounds.end_inclusive == i16::MAX {
            1
        } else if bounds.start == bounds.end_inclusive {
            0
        } else {
            spec_lemire32(w32, (bounds.end_inclusive - bounds.start + 1) as u32).1
        }
    }

    open spec fn range_consumed64(
        w32: Seq<u32>,
        w64: Seq<u64>,
        bounds: GenerateRange<i16>,
    ) -> nat {
        0
    }

    fn range_from_rng<R: Rng>(rng: &mut R, range: GenerateRange<i16>) -> (v: i16) {
        let ghost m0 = old(rng).model();
        proof {
            reveal_with_fuel(spec_after32, 1);
            reveal_with_fuel(spec_after64, 1);
        }
        let start = range.start;
        let end_inclusive = range.end_inclusive;
        if start == i16::MIN && end_inclusive == i16::MAX {
            proof {
                lemma_words32_at::<R>(m0, spec_range_fuel() + 2, 0);
                lemma_words32_at::<R>(m0, 1, 0);
            }
            let w = <u32 as ValueFromRng>::value_from_rng(rng);
            return #[verifier::truncate] (w as i16);
        }
        if start == end_inclusive {
            return start;
        }
        // The width of the range, in the unsigned counterpart; the sign
        // split keeps every intermediate value in its type's range.
        let diff: u16 = if start < 0 && end_inclusive >= 0 {
            (end_inclusive as u16) + ((-(start + 1)) as u16) + 1
        } else {
            (end_inclusive - start) as u16
        };
        let span: u32 = diff as u32 + 1;
        let h: u32 = lemire_u32(rng, span);
        proof {
            assert(span == (range.end_inclusive - range.start + 1) as u32);
        }
        let v = if h <= i16::MAX as u32 {
            start + (h as i16)
        } else {
            (start + i16::MAX) + ((h - (i16::MAX as u32)) as i16)
        };
        proof {
            assert(v == range.start + h);
        }
        v
    }
}

impl RangeFromRng for i32 {
    open spec fn le_spec(self, other: Self) -> bool {
        self <= other
    }

    open spec fn range_value(w32: Seq<u32>, w64: Seq<u64>, bounds: GenerateRange<i32>) -> i32 {
        if bounds.start == i32::MIN && bounds.end_inclusive == i32::MAX {
            w32[0] as i32
        } else if bounds.start == bounds.end_inclusive {
            bounds.start
        } else {
            (bounds.start + spec_lemire32(w32, (bounds.end_inclusive - bounds.start + 1) as u32).0) as i32
        }
    }

    open spec fn range_consumed32(
        w32: Seq<u32>,
        w64: Seq<u64>,
        bounds: GenerateRange<i32>,
    ) -> nat {
        if bounds.start == i32::MIN && bounds.end_inclusive == i32::MAX {
            1
        } else if bounds.start == bounds.end_inclusive {
            0
        } else {
            spec_lemire32(w32, (bounds.end_inclusive - bounds.start + 1) as u32).1
        }
    }

    open spec fn range_consumed64(
        w32: Seq<u32>,
        w64: Seq<u64>,
        bounds: GenerateRange<i32>,
    ) -> nat {
        0
    }

    fn range_from_rng<R: Rng>(rng: &mut R, range: GenerateRange<i32>) -> (v: i32) {
        let ghost m0 = old(rng).model();
        proof {
            reveal_with_fuel(spec_after32, 1);
            reveal_with_fuel(spec_after64, 1);
        }
        let start = range.start;
        let end_inclusive = range.end_inclusive;
        if start == i32::MIN && end_inclusive == i32::MAX {
            proof {
                lemma_words32_at::<R>(m0, spec_range_fuel() + 2, 0);
                lemma_words32_at::<R>(m0, 1, 0);
            }
            let w = rng.random_u32();
            return #[verifier::truncate] (w as i32);
        }
        if start == end_inclusive {
            return start;
        }
        // The width of the range, in the unsigned counterpart; the sign
        // split keeps every intermediate value in its type's range.
        let diff: u32 = if start < 0 && end_inclusive >= 0 {
            (end_inclusive as u32) + ((-(start + 1)) as u32) + 1
        } else {
            (end_inclusive - start) as u32
        };
        let span: u32 = diff as u32 + 1;
        let h: u32 = lemire_u32(rng, span);
        proof {
            assert(span == (range.end_inclusive - range.start + 1) as u32);
        }
        let v = if h <= i32::MAX as u32 {
            start + (h as i32)
        } else {
            (start + i32::MAX) + ((h - (i32::MAX as u32)) as i32)
        };
        proof {
            assert(v == range.start + h);
        }
        v
    }
}

impl RangeFromRng for i64 {
    open spec fn le_spec(self, other: Self) -> bool {
        self <= other
    }

    open spec fn range_value(w32: Seq<u32>, w64: Seq<u64>, bounds: GenerateRange<i64>) -> i64 {
        if bounds.start == i64::MIN && bounds.end_inclusive == i64::MAX {
            w64[0] as i64
        } else if bounds.start == bounds.end_inclusive {
            bounds.start
        } else {
            (bounds.start + spec_lemire64(w64, (bounds.end_inclusive - bounds.start + 1) as u64).0) as i64
        }
    }

    open spec fn range_consumed64(
        w32: Seq<u32>,
        w64: Seq<u64>,
        bounds: GenerateRange<i64>,
    ) -> nat {
        if bounds.start == i64::MIN && bounds.end_inclusive == i64::MAX {
            1
        } else if bounds.start == bounds.end_inclusive {
            0
        } else {
            spec_lemire64(w64, (bounds.end_inclusive - bounds.start + 1) as u64).1
        }
    }

    open spec fn range_consumed32(
        w32: Seq<u32>,
        w64: Seq<u64>,
        bounds: GenerateRange<i64>,
    ) -> nat {
        0
    }

    fn range_from_rng<R: Rng>(rng: &mut R, range: GenerateRange<i64>) -> (v: i64) {
        let ghost m0 = old(rng).model();
        proof {
            reveal_with_fuel(spec_after32, 1);
            reveal_with_fuel(spec_after64, 1);
        }
        let start = range.start;
        let end_inclusive = range.end_inclusive;
        if start == i64::MIN && end_inclusive == i64::MAX {
            proof {
                lemma_words64_at::<R>(m0, 2 * spec_range_fuel() + 4, 0);
                lemma_words64_at::<R>(m0, 1, 0);
            }
            let w = rng.random_u64();
            return #[verifier::truncate] (w as i64);
        }
        if start == end_inclusive {
            return start;
        }
        // The width of the range, in the unsigned counterpart; the sign
        // split keeps every intermediate value in its type's range.
        let diff: u64 = if start < 0 && end_inclusive >= 0 {
            (end_inclusive as u64) + ((-(start + 1)) as u64) + 1
        } else {
            (end_inclusive - start) as u64
        };
        let span: u64 = diff as u64 + 1;
        let h: u64 = lemire_u64(rng, span);
        proof {
            assert(span == (range.end_inclusive - range.start + 1) as u64);
        }
        let v = if h <= i64::MAX as u64 {
            start + (h as i64)
        } else {
            (start + i64::MAX) + ((h - (i64::MAX as u64)) as i64)
        };
        proof {
            assert(v == range.start + h);
        }
        v
    }
}

impl RangeFromRng for i128 {
    open spec fn le_spec(self, other: Self) -> bool {
        self <= other
    }

    open spec fn range_value(w32: Seq<u32>, w64: Seq<u64>, bounds: GenerateRange<i128>) -> i128 {
        if bounds.start == i128::MIN && bounds.end_inclusive == i128::MAX {
            (((w64[0] as u128) << 64) | (w64[1] as u128)) as i128
        } else if bounds.start == bounds.end_inclusive {
            bounds.start
        } else {
            (bounds.start + spec_reject128(
                w64,
                (bounds.end_inclusive - bounds.start + 1) as u128,
            ).0) as i128
        }
    }

    open spec fn range_consumed64(
        w32: Seq<u32>,
        w64: Seq<u64>,
        bounds: GenerateRange<i128>,
    ) -> nat {
        if bounds.start == i128::MIN && bounds.end_inclusive == i128::MAX {
            2
        } else if bounds.start == bounds.end_inclusive {
            0
        } else {
            spec_reject128(w64, (bounds.end_inclusive - bounds.start + 1) as u128).1
        }
    }

    open spec fn range_consumed32(
        w32: Seq<u32>,
        w64: Seq<u64>,
        bounds: GenerateRange<i128>,
    ) -> nat {
        0
    }

    fn range_from_rng<R: Rng>(rng: &mut R, range: GenerateRange<i128>) -> (v: i128) {
        let ghost m0 = old(rng).model();
        proof {
            reveal_with_fuel(spec_after32, 1);
            reveal_with_fuel(spec_after64, 1);
        }
        let start = range.start;
        let end_inclusive = range.end_inclusive;
        if start == i128::MIN && end_inclusive == i128::MAX {
            proof {
                lemma_words64_at::<R>(m0, 2 * spec_range_fuel() + 4, 0);
                lemma_words64_at::<R>(m0, 2 * spec_range_fuel() + 4, 1);
                lemma_words64_at::<R>(m0, 2, 0);
                lemma_words64_at::<R>(m0, 2, 1);
            }
            let w = <u128 as ValueFromRng>::value_from_rng(rng);
            return #[verifier::truncate] (w as i128);
        }
        if start == end_inclusive {
            return start;
        }
        // The width of the range, in the unsigned counterpart; the sign
        // split keeps every intermediate value in its type's range.
        let diff: u128 = if start < 0 && end_inclusive >= 0 {
            (end_inclusive as u128) + ((-(start + 1)) as u128) + 1
        } else {
            (end_inclusive - start) as u128
        };
        let span: u128 = diff + 1;
        let h: u128 = reject_u128(rng, span);
        proof {
            assert(span == (range.end_inclusive - range.start + 1) as u128);
        }
        let v = if h <= i128::MAX as u128 {
            start + (h as i128)
        } else {
            (start + i128::MAX) + ((h - (i128::MAX as u128)) as i128)
        };
        proof {
            assert(v == range.start + h);
        }
        v
    }
}

impl RangeFromRng for isize {
    open spec fn le_spec(self, other: Self) -> bool {
        self <= other
    }

    open spec fn range_value(w32: Seq<u32>, w64: Seq<u64>, bounds: GenerateRange<isize>) -> isize {
        if bounds.start == isize::MIN && bounds.end_inclusive == isize::MAX {
            (w64[0] as usize) as isize
        } else if bounds.start == bounds.end_inclusive {
            bounds.start
        } else {
            (bounds.start + spec_lemire64(w64, (bounds.end_inclusive - bounds.start + 1) as u64).0) as isize
        }
    }

    open spec fn range_consumed64(
        w32: Seq<u32>,
        w64: Seq<u64>,
        bounds: GenerateRange<isize>,
    ) -> nat {
        if bounds.start == isize::MIN && bounds.end_inclusive == isize::MAX {
            1
        } else if bounds.start == bounds.end_inclusive {
            0
        } else {
            spec_lemire64(w64, (bounds.end_inclusive - bounds.start + 1) as u64).1
        }
    }

    open spec fn range_consumed32(
        w32: Seq<u32>,
        w64: Seq<u64>,
        bounds: GenerateRange<isize>,
    ) -> nat {
        0
    }

    fn range_from_rng<R: Rng>(rng: &mut R, range: GenerateRange<isize>) -> (v: isize) {
        let ghost m0 = old(rng).model();
        proof {
            reveal_with_fuel(spec_after32, 1);
            reveal_with_fuel(spec_after64, 1);
        }
        let start = range.start;
        let end_inclusive = range.end_inclusive;
        if start == isize::MIN && end_inclusive == isize::MAX {
            proof {
                lemma_words64_at::<R>(m0, 2 * spec_range_fuel() + 4, 0);
                lemma_words64_at::<R>(m0, 1, 0);
            }
            let w = <usize as ValueFromRng>::value_from_rng(rng);
            return #[verifier::truncate] (w as isize);
        }
        if start == end_inclusive {
            return start;
        }
        // The width of the range, in the unsigned counterpart; the sign
        // split keeps every intermediate value in its type's range.
        let diff: usize = if start < 0 && end_inclusive >= 0 {
            (end_inclusive as usize) + ((-(start + 1)) as usize) + 1
        } else {
            (end_inclusive - start) as usize
        };
        let span: u64 = diff as u64 + 1;
        let h: u64 = lemire_u64(rng, span);
        proof {
            assert(span == (range.end_inclusive - range.start + 1) as u64);
        }
        let v = if h <= isize::MAX as u64 {
            start + (h as isize)
        } else {
            (start + isize::MAX) + ((h - (isize::MAX as u64)) as isize)
        };
        proof {
            assert(v == range.start + h);
        }
        v
    }
}

/// The typed value drawn when a `T` is taken from generator state `m`.
pub open spec fn spec_value_of<T: ValueFromRng, R: Rng>(m: R::Model) -> T {
    T::value_of(
        spec_words32::<R>(m, T::words32()),
        spec_words64::<R>(m, T::words64()),
    )
}

/// The generator state after one `T` has been drawn from state `m`.
pub open spec fn spec_after_value<T: ValueFromRng, R: Rng>(m: R::Model) -> R::Model {
    spec_after64::<R>(spec_after32::<R>(m, T::words32()), T::words64())
}

/// The first `n` typed values drawn from generator state `m`.
pub open spec fn spec_typed_stream<T: ValueFromRng, R: Rng>(m: R::Model, n: nat) -> Seq<T>
    decreases n,
{
    if n == 0 {
        Seq::empty()
    } else {
        seq![spec_value_of::<T, R>(m)] + spec_typed_stream::<T, R>(
            spec_after_value::<T, R>(m),
            (n - 1) as nat,
        )
    }
}

/// The generator state after `n` typed values have been drawn from `m`.
pub open spec fn spec_after_values<T: ValueFromRng, R: Rng>(m: R::Model, n: nat) -> R::Model
    decreases n,
{
    if n == 0 {
        m
    } else {
        spec_after_values::<T, R>(spec_after_value::<T, R>(m), (n - 1) as nat)
    }
}

/// Unfolds the typed stream at its far end: drawing `n + 1` values is
/// drawing `n` values and then one more.
pub proof fn lemma_typed_stream_snoc<T: ValueFromRng, R: Rng>(m: R::Model, n: nat)
    ensures
        spec_typed_stream::<T, R>(m, n + 1) == spec_typed_stream::<T, R>(m, n).push(
            spec_value_of::<T, R>(spec_after_values::<T, R>(m, n)),
        ),
        spec_after_values::<T, R>(m, n + 1) == spec_after_value::<T, R>(
            spec_after_values::<T, R>(m, n),
        ),
    decreases n,
{
    reveal_with_fuel(spec_typed_stream, 3);
    reveal_with_fuel(spec_after_values, 3);
    if n == 0 {
        assert(spec_typed_stream::<T, R>(m, 1) =~= spec_typed_stream::<T, R>(m, 0).push(
            spec_value_of::<T, R>(spec_after_values::<T, R>(m, 0)),
        ));
    } else {
        lemma_typed_stream_snoc::<T, R>(spec_after_value::<T, R>(m), (n - 1) as nat);
        assert(spec_typed_stream::<T, R>(m, n + 1) =~= spec_typed_stream::<T, R>(m, n).push(
            spec_value_of::<T, R>(spec_after_values::<T, R>(m, n)),
        ));
    }
}

/// Unfolds the 64-bit word stream at its far end.
pub proof fn lemma_words64_snoc<R: Rng>(m: R::Model, n: nat)
    ensures
        spec_words64::<R>(m, n + 1) == spec_words64::<R>(m, n).push(
            R::step64(spec_after64::<R>(m, n)).0,
        ),
        spec_after64::<R>(m, n + 1) == R::step64(spec_after64::<R>(m, n)).1,
    decreases n,
{
    reveal_with_fuel(spec_words64, 3);
    reveal_with_fuel(spec_after64, 3);
    if n == 0 {
        assert(spec_words64::<R>(m, 1) =~= spec_words64::<R>(m, 0).push(
            R::step64(spec_after64::<R>(m, 0)).0,
        ));
    } else {
        lemma_words64_snoc::<R>(R::step64(m).1, (n - 1) as nat);
        assert(spec_words64::<R>(m, n + 1) =~= spec_words64::<R>(m, n).push(
            R::step64(spec_after64::<R>(m, n)).0,
        ));
    }
}

/// The eight bytes of a 64-bit word, least significant byte first.
pub open spec fn spec_le_bytes8(w: u64) -> Seq<u8> {
    seq![
        (w & 0xff) as u8,
        ((w >> 8) & 0xff) as u8,
        ((w >> 16) & 0xff) as u8,
        ((w >> 24) & 0xff) as u8,
        ((w >> 32) & 0xff) as u8,
        ((w >> 40) & 0xff) as u8,
        ((w >> 48) & 0xff) as u8,
        ((w >> 56) & 0xff) as u8,
    ]
}

/// The byte expansion of a word sequence: each word contributes its
/// eight bytes, least significant first.
pub open spec fn spec_bytes_of_words(ws: Seq<u64>) -> Seq<u8>
    decreases ws.len(),
{
    if ws.len() == 0 {
        Seq::empty()
    } else {
        spec_le_bytes8(ws[0]) + spec_bytes_of_words(ws.drop_first())
    }
}

/// How many 64-bit words cover `n` bytes.
pub open spec fn spec_words_for_bytes(n: nat) -> nat {
    (n + 7) / 8
}

/// Appending a word to a sequence appends its bytes to the expansion.
pub proof fn lemma_bytes_of_words_push(ws: Seq<u64>, w: u64)
    ensures
        spec_bytes_of_words(ws.push(w)) == spec_bytes_of_words(ws) + spec_le_bytes8(w),
        spec_bytes_of_words(ws).len() == 8 * ws.len(),
    decreases ws.len(),
{
    reveal_with_fuel(spec_bytes_of_words, 3);
    if ws.len() == 0 {
        assert(ws.push(w).drop_first() =~= Seq::<u64>::empty());
        assert(spec_bytes_of_words(ws.push(w)) =~= spec_bytes_of_words(ws) + spec_le_bytes8(w));
    } else {
        lemma_bytes_of_words_push(ws.drop_first(), w);
        assert(ws.push(w).drop_first() =~= ws.drop_first().push(w));
        assert(spec_bytes_of_words(ws.push(w)) =~= spec_bytes_of_words(ws) + spec_le_bytes8(w));
    }
}

/// Swaps two elements of a vector.
fn swap_in_vec<T>(v: &mut Vec<T>, i: usize, j: usize)
    requires
        i < j < old(v)@.len(),
    ensures
        final(v)@ == old(v)@.update(i as int, old(v)@[j as int]).update(j as int, old(v)@[i as int]),
{
    let b = v.remove(j);
    let a = v.remove(i);
    v.insert(i, b);
    v.insert(j, a);
    proof {
        assert(final(v)@ =~= old(v)@.update(i as int, old(v)@[j as int]).update(
            j as int,
            old(v)@[i as int],
        ));
    }
}

/// Swapping two elements of a sequence leaves its multiset unchanged.
pub proof fn lemma_swap_keeps_multiset<T>(s: Seq<T>, i: int, j: int)
    requires
        0 <= i < s.len(),
        0 <= j < s.len(),
        i != j,
    ensures
        s.update(i, s[j]).update(j, s[i]).to_multiset() == s.to_multiset(),
{
    broadcast use vstd::seq_lib::to_multiset_update;
    broadcast use vstd::multiset::group_multiset_axioms;
    broadcast use vstd::seq_lib::group_to_multiset_ensures;

    let s1 = s.update(i, s[j]);
    let s2 = s1.update(j, s[i]);
    assert(s.to_multiset().contains(s[i]));
    assert(s1[j] == s[j]);
    assert(s1.to_multiset() == s.to_multiset().insert(s[j]).remove(s[i]));
    assert(s2.to_multiset() == s1.to_multiset().insert(s[i]).remove(s[j]));
    assert(s2.to_multiset() =~= s.to_multiset());
}

/// Writes the low `count` little-endian bytes of `w` into `destination`
/// at `offset`, leaving everything else unchanged.
fn write_le_bytes(destination: &mut Vec<u8>, offset: usize, w: u64, count: usize)
    requires
        count <= 8,
        offset + count <= old(destination)@.len(),
    ensures
        final(destination)@.len() == old(destination)@.len(),
        forall|k: int|
            0 <= k < count ==> final(destination)@[offset + k] == spec_le_bytes8(w)[k],
        forall|k: int|
            0 <= k < old(destination)@.len() && !(offset <= k < offset + count)
                ==> final(destination)@[k] == old(destination)@[k],
{
    let len = destination.len();
    let mut j: usize = 0;
    while j < count
        invariant
            j <= count,
            count <= 8,
            offset + count <= len,
            len == destination@.len(),
            destination@.len() == old(destination)@.len(),
            forall|k: int| 0 <= k < j ==> destination@[offset + k] == spec_le_bytes8(w)[k],
            forall|k: int|
                0 <= k < old(destination)@.len() && !(offset <= k < offset + j)
                    ==> destination@[k] == old(destination)@[k],
        decreases count - j,
    {
        let shift: u64 = 8 * (j as u64);
        proof {
            assert((w >> shift) & 0xff <= 0xff) by (bit_vector);
        }
        let b: u8 = ((w >> shift) & 0xff) as u8;
        destination.set(offset + j, b);
        proof {
            if j == 0 {
                assert(w >> 0u64 == w) by (bit_vector);
                assert(w & 0xff == (w >> 0u64) & 0xff);
            }
            assert(spec_le_bytes8(w)[j as int] == b);
        }
        j = j + 1;
    }
}

/// The byte expansion of `n` words holds `8 * n` bytes.
pub proof fn lemma_bytes_len(ws: Seq<u64>)
    ensures
        spec_bytes_of_words(ws).len() == 8 * ws.len(),
    decreases ws.len(),
{
    reveal_with_fuel(spec_bytes_of_words, 2);
    if ws.len() > 0 {
        lemma_bytes_len(ws.drop_first());
    }
}

/// The integer material for one float draw: either a single 64-bit
/// word with enough significant bits, or a 128-bit fallback.
#[derive(Clone, Copy, Debug, PartialEq, Eq, Structural)]
pub enum MantissaDraw {
    /// One 64-bit draw, to be scaled by 2^-64.
    Single(u64),
    /// Two 64-bit draws concatenated (first draw high), to be scaled
    /// by 2^-128.
    Double(u128),
}

/// Draws the integer material for a uniform float with a
/// `mantissa_bits`-bit mantissa. A single 64-bit draw suffices when
/// its bits above the mantissa width are not all zero; otherwise a
/// second draw widens the value to 128 bits, so that the mantissa is
/// saturated for every count of leading zero bits in the first draw.
pub fn mantissa_draw<R: Rng>(rng: &mut R, mantissa_bits: u64) -> (r: MantissaDraw)
    requires
        mantissa_bits < 64,
    ensures
        ({
            let (w1, m1) = R::step64(old(rng).model());
            if w1 >> mantissa_bits != 0 {
                r == MantissaDraw::Single(w1) && final(rng).model() == m1
            } else {
                let (w2, m2) = R::step64(m1);
                r == MantissaDraw::Double(((w1 as u128) << 64) | (w2 as u128))
                    && final(rng).model() == m2
            }
        }),
{
    let w1 = rng.random_u64();
    if (w1 >> mantissa_bits) != 0 {
        MantissaDraw::Single(w1)
    } else {
        let w2 = rng.random_u64();
        MantissaDraw::Double(((w1 as u128) << 64) | (w2 as u128))
    }
}

/// Law: the fallback saturates the mantissa. Whenever the first draw
/// lacks significant bits above the mantissa width, the draw switches
/// to the 128-bit form, whose low 64 bits come from a fresh draw; a
/// draw with any bit above the mantissa width keeps the single form.
pub proof fn lemma_mantissa_saturation<R: Rng>(m: R::Model, mantissa_bits: u64)
    requires
        mantissa_bits < 64,
    ensures
        ({
            let (w1, m1) = R::step64(m);
            let (w2, _) = R::step64(m1);
            (w1 >> mantissa_bits == 0) ==> ((((w1 as u128) << 64) | (w2 as u128)) >> 64 == w1
                && (((w1 as u128) << 64) | (w2 as u128)) as u64 == w2)
        }),
{
    let (w1, m1) = R::step64(m);
    let (w2, _) = R::step64(m1);
    assert((((w1 as u128) << 64) | (w2 as u128)) >> 64 == w1) by (bit_vector);
    assert(((((w1 as u128) << 64) | (w2 as u128)) as u64) == w2) by (bit_vector);
}

} // verus!
