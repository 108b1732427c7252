//! The ChaCha stream generator: 16 words of state mixed by
//! add-rotate-xor quarter-rounds, consumed as a keystream of random
//! bytes. The round count is a compile-time parameter; twelve rounds is
//! the default secure choice.

use crate::entropy::{EntropyError, EntropySource};
use crate::nonces;
use crate::rng::Rng;
use vstd::pervasive::VecAdditionalExecFns;
use vstd::prelude::*;

verus! {

/// First constant word of the state ("expa", little-endian).
pub const CHACHA_C0: u32 = 0x6170_7865;
/// Second constant word of the state ("nd 3").
pub const CHACHA_C1: u32 = 0x3320_646e;
/// Third constant word of the state ("2-by").
pub const CHACHA_C2: u32 = 0x7962_2d32;
/// Fourth constant word of the state ("te k").
pub const CHACHA_C3: u32 = 0x6b20_6574;

/// The mathematical state of a ChaCha generator: the 16 state words,
/// the cursor into the keystream buffer, and the buffer itself.
pub struct ChaChaView {
    pub state: Seq<u32>,
    pub inx: nat,
    pub buffer: Seq<u8>,
}

/// Rotates `x` left by `k` bits, for `0 < k < 32`.
pub open spec fn spec_rotl32(x: u32, k: u32) -> u32
    recommends
        0 < k < 32,
{
    (x << k) | (x >> (32 - k) as u32)
}

/// One quarter-round on lanes `a`, `b`, `c`, `d`: the standard
/// add-rotate-xor sequence with rotation amounts 16, 12, 8 and 7.
pub open spec fn spec_quarter_round(x: Seq<u32>, a: int, b: int, c: int, d: int) -> Seq<u32>
    recommends
        x.len() == 16,
        0 <= a < 16,
        0 <= b < 16,
        0 <= c < 16,
        0 <= d < 16,
{
    let xa = x[a].wrapping_add(x[b]);
    let xd = spec_rotl32(x[d] ^ xa, 16);
    let xc = x[c].wrapping_add(xd);
    let xb = spec_rotl32(x[b] ^ xc, 12);
    let xa2 = xa.wrapping_add(xb);
    let xd2 = spec_rotl32(xd ^ xa2, 8);
    let xc2 = xc.wrapping_add(xd2);
    let xb2 = spec_rotl32(xb ^ xc2, 7);
    x.update(a, xa2).update(b, xb2).update(c, xc2).update(d, xd2)
}

/// One double round: four column quarter-rounds, then four diagonal
/// quarter-rounds.
pub open spec fn spec_double_round(x: Seq<u32>) -> Seq<u32> {
    let x1 = spec_quarter_round(x, 0, 4, 8, 12);
    let x2 = spec_quarter_round(x1, 1, 5, 9, 13);
    let x3 = spec_quarter_round(x2, 2, 6, 10, 14);
    let x4 = spec_quarter_round(x3, 3, 7, 11, 15);
    let x5 = spec_quarter_round(x4, 0, 5, 10, 15);
    let x6 = spec_quarter_round(x5, 1, 6, 11, 12);
    let x7 = spec_quarter_round(x6, 2, 7, 8, 13);
    spec_quarter_round(x7, 3, 4, 9, 14)
}

/// `n` double rounds applied to `x`.
pub open spec fn spec_rounds(x: Seq<u32>, n: nat) -> Seq<u32>
    decreases n,
{
    if n == 0 {
        x
    } else {
        spec_double_round(spec_rounds(x, (n - 1) as nat))
    }
}

/// The 16 words of one keystream block: the state mixed by the rounds,
/// with the original state added back word-wise.
pub open spec fn spec_block_words(s: Seq<u32>, rounds: nat) -> Seq<u32> {
    let x = spec_rounds(s, ((rounds + 1) / 2) as nat);
    Seq::new(16, |i: int| x[i].wrapping_add(s[i]))
}

/// The four bytes of a 32-bit word, least significant byte first.
pub open spec fn spec_le4(w: u32) -> Seq<u8> {
    seq![
        (w & 0xff) as u8,
        ((w >> 8) & 0xff) as u8,
        ((w >> 16) & 0xff) as u8,
        ((w >> 24) & 0xff) as u8,
    ]
}

/// The 64-byte serialization of 16 words, each little-endian.
pub open spec fn spec_block_bytes(words: Seq<u32>) -> Seq<u8> {
    Seq::new(64, |i: int| spec_le4(words[i / 4])[i % 4])
}

/// The 32-bit word read from four little-endian bytes.
pub open spec fn spec_u32_from_le(s: Seq<u8>) -> u32
    recommends
        s.len() == 4,
{
    (s[0] as u32) | ((s[1] as u32) << 8) | ((s[2] as u32) << 16) | ((s[3] as u32) << 24)
}

/// The 64-bit word read from eight little-endian bytes.
pub open spec fn spec_u64_from_le(s: Seq<u8>) -> u64
    recommends
        s.len() == 8,
{
    (s[0] as u64) | ((s[1] as u64) << 8) | ((s[2] as u64) << 16) | ((s[3] as u64) << 24) | (
    (s[4] as u64) << 32) | ((s[5] as u64) << 40) | ((s[6] as u64) << 48) | ((s[7] as u64) << 56)
}

/// The state words after the 64-bit block counter (words 12 and 13,
/// low word first) has been incremented. The counter wraps at 2^64
/// blocks, where the keystream would repeat; reaching that point takes
/// 2^70 bytes of output from one stream.
pub open spec fn spec_counter_inc(s: Seq<u32>) -> Seq<u32> {
    let low = s[12].wrapping_add(1);
    if low == 0 {
        s.update(12, low).update(13, s[13].wrapping_add(1))
    } else {
        s.update(12, low)
    }
}

/// One block generation: the buffer is refilled from the current state
/// and the block counter advances. The cursor is untouched.
pub open spec fn spec_refill(v: ChaChaView, rounds: nat) -> ChaChaView {
    ChaChaView {
        state: spec_counter_inc(v.state),
        inx: v.inx,
        buffer: spec_block_bytes(spec_block_words(v.state, rounds)),
    }
}

/// The initial state words: four constants, eight key words, the zeroed
/// 64-bit counter, and two nonce words, all little-endian.
pub open spec fn spec_init_words(key: Seq<u8>, nonce: Seq<u8>) -> Seq<u32>
    recommends
        key.len() == 32,
        nonce.len() == 8,
{
    seq![
        CHACHA_C0,
        CHACHA_C1,
        CHACHA_C2,
        CHACHA_C3,
        spec_u32_from_le(key.subrange(0, 4)),
        spec_u32_from_le(key.subrange(4, 8)),
        spec_u32_from_le(key.subrange(8, 12)),
        spec_u32_from_le(key.subrange(12, 16)),
        spec_u32_from_le(key.subrange(16, 20)),
        spec_u32_from_le(key.subrange(20, 24)),
        spec_u32_from_le(key.subrange(24, 28)),
        spec_u32_from_le(key.subrange(28, 32)),
        0u32,
        0u32,
        spec_u32_from_le(nonce.subrange(0, 4)),
        spec_u32_from_le(nonce.subrange(4, 8)),
    ]
}

/// The state a freshly constructed generator holds: the first block is
/// generated eagerly, so the buffer is already full and the counter
/// already advanced.
pub open spec fn spec_chacha_init(key: Seq<u8>, nonce: Seq<u8>, rounds: nat) -> ChaChaView {
    spec_refill(ChaChaView { state: spec_init_words(key, nonce), inx: 0, buffer: Seq::empty() },
        rounds)
}

/// One 32-bit read: refill first if fewer than four buffered bytes
/// remain (discarding any leftover bytes), then take four bytes
/// little-endian and advance the cursor.
pub open spec fn spec_chacha_step32(m: ChaChaView, rounds: nat) -> (u32, ChaChaView) {
    let v = if m.inx + 4 > 64 {
        ChaChaView { inx: 0, ..spec_refill(m, rounds) }
    } else {
        m
    };
    (
        spec_u32_from_le(v.buffer.subrange(v.inx as int, v.inx as int + 4)),
        ChaChaView { inx: v.inx + 4, ..v },
    )
}

/// One 64-bit read, like the 32-bit read with eight bytes.
pub open spec fn spec_chacha_step64(m: ChaChaView, rounds: nat) -> (u64, ChaChaView) {
    let v = if m.inx + 8 > 64 {
        ChaChaView { inx: 0, ..spec_refill(m, rounds) }
    } else {
        m
    };
    (
        spec_u64_from_le(v.buffer.subrange(v.inx as int, v.inx as int + 8)),
        ChaChaView { inx: v.inx + 8, ..v },
    )
}

/// The next `n` keystream bytes from `m`, one byte at a time: the
/// buffer is refilled whenever the cursor reaches its end, and every
/// buffered byte is consumed. Returns the bytes and the state left
/// behind.
pub open spec fn spec_chacha_bytes(m: ChaChaView, n: nat, rounds: nat) -> (Seq<u8>, ChaChaView)
    decreases n,
{
    if n == 0 {
        (Seq::empty(), m)
    } else {
        let v = if m.inx == 64 {
            ChaChaView { inx: 0, ..spec_refill(m, rounds) }
        } else {
            m
        };
        let b = v.buffer[v.inx as int];
        let (rest, vend) = spec_chacha_bytes(
            ChaChaView { inx: v.inx + 1, ..v },
            (n - 1) as nat,
            rounds,
        );
        (seq![b] + rest, vend)
    }
}

/// A ChaCha stream generator with `ROUNDS` rounds. The keystream is
/// bit-exact against the published ChaCha test vectors for 8, 12 and
/// 20 rounds.
pub struct ChaCha<const ROUNDS: usize> {
    state: [u32; 16],
    inx: usize,
    buffer: [u8; 64],
}

impl<const ROUNDS: usize> Rng for ChaCha<ROUNDS> {
    type Model = ChaChaView;

    closed spec fn model(&self) -> ChaChaView {
        ChaChaView { state: self.state@, inx: self.inx as nat, buffer: self.buffer@ }
    }

    open spec fn step32(m: ChaChaView) -> (u32, ChaChaView) {
        spec_chacha_step32(m, ROUNDS as nat)
    }

    open spec fn step64(m: ChaChaView) -> (u64, ChaChaView) {
        spec_chacha_step64(m, ROUNDS as nat)
    }

    fn random_u32(&mut self) -> (r: u32) {
        proof {
            use_type_invariant(&*self);
        }
        if self.inx + 4 > 64 {
            self.generate_block();
            self.inx = 0;
        }
        let b0 = self.buffer[self.inx];
        let b1 = self.buffer[self.inx + 1];
        let b2 = self.buffer[self.inx + 2];
        let b3 = self.buffer[self.inx + 3];
        self.inx = self.inx + 4;
        (b0 as u32) | ((b1 as u32) << 8) | ((b2 as u32) << 16) | ((b3 as u32) << 24)
    }

    fn random_u64(&mut self) -> (r: u64) {
        proof {
            use_type_invariant(&*self);
        }
        if self.inx + 8 > 64 {
            self.generate_block();
            self.inx = 0;
        }
        let b0 = self.buffer[self.inx];
        let b1 = self.buffer[self.inx + 1];
        let b2 = self.buffer[self.inx + 2];
        let b3 = self.buffer[self.inx + 3];
        let b4 = self.buffer[self.inx + 4];
        let b5 = self.buffer[self.inx + 5];
        let b6 = self.buffer[self.inx + 6];
        let b7 = self.buffer[self.inx + 7];
        self.inx = self.inx + 8;
        (b0 as u64) | ((b1 as u64) << 8) | ((b2 as u64) << 16) | ((b3 as u64) << 24) | (
        (b4 as u64) << 32) | ((b5 as u64) << 40) | ((b6 as u64) << 48) | ((b7 as u64) << 56)
    }
}

impl<const ROUNDS: usize> ChaCha<ROUNDS> {
    /// The cursor never runs past the buffer.
    #[verifier::type_invariant]
    spec fn wf(self) -> bool {
        self.inx <= 64
    }

    /// Creates a ChaCha generator from a 256-bit key and a 64-bit
    /// nonce, and generates the first keystream block eagerly.
    pub fn new(key: &[u8; 32], nonce: [u8; 8]) -> (r: Self)
        ensures
            r.model() == spec_chacha_init(key@, nonce@, ROUNDS as nat),
    {
        let mut s = Self {
            state: [
                CHACHA_C0,
                CHACHA_C1,
                CHACHA_C2,
                CHACHA_C3,
                word_from_key(key, 0),
                word_from_key(key, 4),
                word_from_key(key, 8),
                word_from_key(key, 12),
                word_from_key(key, 16),
                word_from_key(key, 20),
                word_from_key(key, 24),
                word_from_key(key, 28),
                0,
                0,
                (nonce[0] as u32) | ((nonce[1] as u32) << 8) | ((nonce[2] as u32) << 16) | (
                (nonce[3] as u32) << 24),
                (nonce[4] as u32) | ((nonce[5] as u32) << 8) | ((nonce[6] as u32) << 16) | (
                (nonce[7] as u32) << 24),
            ],
            inx: 0,
            buffer: [0; 64],
        };
        proof {
            assert(s.state@ =~= spec_init_words(key@, nonce@));
        }
        s.generate_block();
        s
    }

    /// Regenerates the keystream buffer from the current state and
    /// advances the block counter.
    fn generate_block(&mut self)
        ensures
            final(self).model() == spec_refill(old(self).model(), ROUNDS as nat),
            final(self).inx_value() == old(self).inx_value(),
    {
        proof {
            use_type_invariant(&*self);
        }
        let mut x: [u32; 16] = self.state;
        let mut round: usize = 0;
        let iterations = ROUNDS / 2 + ROUNDS % 2;
        proof {
            reveal_with_fuel(spec_rounds, 1);
            assert(iterations as int == (ROUNDS as int + 1) / 2);
            assert(x@ =~= self.state@);
            assert(spec_rounds(old(self).model().state, 0) == old(self).model().state);
        }
        while round < iterations
            invariant
                round <= iterations,
                iterations as int == (ROUNDS as int + 1) / 2,
                x@ == spec_rounds(old(self).model().state, round as nat),
                self == old(self),
            decreases iterations - round,
        {
            // Column rounds.
            quarter_round(&mut x, 0, 4, 8, 12);
            quarter_round(&mut x, 1, 5, 9, 13);
            quarter_round(&mut x, 2, 6, 10, 14);
            quarter_round(&mut x, 3, 7, 11, 15);

            // Diagonal rounds.
            quarter_round(&mut x, 0, 5, 10, 15);
            quarter_round(&mut x, 1, 6, 11, 12);
            quarter_round(&mut x, 2, 7, 8, 13);
            quarter_round(&mut x, 3, 4, 9, 14);
            round = round + 1;
        }
        let mut i: usize = 0;
        while i < 16
            invariant
                i <= 16,
                self == old(self),
                forall|k: int|
                    0 <= k < i ==> x@[k] == spec_block_words(
                        old(self).model().state,
                        ROUNDS as nat,
                    )[k],
                forall|k: int|
                    i <= k < 16 ==> x@[k] == spec_rounds(
                        old(self).model().state,
                        ((ROUNDS + 1) / 2) as nat,
                    )[k],
            decreases 16 - i,
        {
            x[i] = x[i].wrapping_add(self.state[i]);
            i = i + 1;
        }
        let mut j: usize = 0;
        while j < 16
            invariant
                j <= 16,
                self.state == old(self).state,
                self.inx == old(self).inx,
                self.inx <= 64,
                forall|k: int|
                    0 <= k < 4 * j ==> self.buffer@[k] == spec_block_bytes(x@)[k],
                forall|k: int|
                    0 <= k < 16 ==> x@[k] == spec_block_words(
                        old(self).model().state,
                        ROUNDS as nat,
                    )[k],
            decreases 16 - j,
        {
            let w = x[j];
            self.buffer[4 * j] = #[verifier::truncate] ((w & 0xff) as u8);
            self.buffer[4 * j + 1] = #[verifier::truncate] (((w >> 8) & 0xff) as u8);
            self.buffer[4 * j + 2] = #[verifier::truncate] (((w >> 16) & 0xff) as u8);
            self.buffer[4 * j + 3] = #[verifier::truncate] (((w >> 24) & 0xff) as u8);
            proof {
                assert forall|k: int| 0 <= k < 4 * (j + 1) implies self.buffer@[k]
                    == spec_block_bytes(x@)[k] by {
                    let q = k / 4;
                    let r = k % 4;
                    assert(spec_block_bytes(x@)[k] == spec_le4(x@[q])[r]);
                }
            }
            j = j + 1;
        }
        proof {
            assert(x@ =~= spec_block_words(old(self).model().state, ROUNDS as nat));
            assert(self.buffer@ =~= spec_block_bytes(
                spec_block_words(old(self).model().state, ROUNDS as nat),
            ));
        }
        self.state[12] = self.state[12].wrapping_add(1);
        if self.state[12] == 0 {
            self.state[13] = self.state[13].wrapping_add(1);
        }
        proof {
            assert(self.state@ =~= spec_counter_inc(old(self).model().state));
        }
    }

    /// The cursor position, for contracts that relate reads to it.
    pub closed spec fn inx_value(&self) -> nat {
        self.inx as nat
    }

    /// Fills `destination` with the next keystream bytes, copying out
    /// of the buffer and regenerating it whenever it runs out; unlike
    /// the word reads, this consumes every buffered byte.
    #[verifier::rlimit(50)]
    pub fn fill_u8(&mut self, destination: &mut Vec<u8>)
        ensures
            (final(destination)@, final(self).model()) == spec_chacha_bytes(
                old(self).model(),
                old(destination)@.len(),
                ROUNDS as nat,
            ),
            final(destination)@.len() == old(destination)@.len(),
    {
        proof {
            use_type_invariant(&*self);
        }
        let len = destination.len();
        let mut out_inx: usize = 0;
        proof {
            reveal_with_fuel(spec_chacha_bytes, 1);
        }
        while out_inx < len
            invariant
                out_inx <= len,
                destination@.len() == len,
                self.inx_value() <= 64,
                (destination@.subrange(0, out_inx as int), self.model()) == spec_chacha_bytes(
                    old(self).model(),
                    out_inx as nat,
                    ROUNDS as nat,
                ),
            decreases len - out_inx,
        {
            let ghost v_top = self.model();
            if self.inx == 64 {
                self.generate_block();
                self.inx = 0;
            }
            let remaining_out = len - out_inx;
            let remaining_buf = 64 - self.inx;
            let to_copy = if remaining_buf < remaining_out {
                remaining_buf
            } else {
                remaining_out
            };
            let ghost v_block = self.model();
            let ghost prefix = destination@.subrange(0, out_inx as int);
            let ghost pre_inner = destination@;
            let mut k: usize = 0;
            while k < to_copy
                invariant
                    k <= to_copy,
                    out_inx + to_copy <= len,
                    destination@.len() == len,
                    v_block == self.model(),
                    self.inx_value() + to_copy <= 64,
                    forall|t: int|
                        0 <= t < k ==> #[trigger] destination@[out_inx + t] == v_block.buffer[
                            v_block.inx + t],
                    forall|t: int|
                        (0 <= t < out_inx + k || out_inx + k <= t < len) && !(out_inx <= t
                            < out_inx + k) ==> destination@[t] == pre_inner[t],
                decreases to_copy - k,
            {
                let b = self.buffer[self.inx + k];
                destination.set(out_inx + k, b);
                k = k + 1;
            }
            proof {
                if v_top.inx == 64 {
                    assert(spec_chacha_bytes(v_top, to_copy as nat, ROUNDS as nat)
                        == spec_chacha_bytes(v_block, to_copy as nat, ROUNDS as nat)) by {
                        reveal_with_fuel(spec_chacha_bytes, 2);
                    }
                }
                lemma_chacha_bytes_in_block(v_block, to_copy as nat, ROUNDS as nat);
                lemma_chacha_bytes_concat(
                    old(self).model(),
                    out_inx as nat,
                    to_copy as nat,
                    ROUNDS as nat,
                );
                assert forall|t: int| 0 <= t < to_copy implies #[trigger] destination@.subrange(
                    out_inx as int,
                    (out_inx + to_copy) as int,
                )[t] == v_block.buffer.subrange(
                    v_block.inx as int,
                    v_block.inx as int + to_copy as int,
                )[t] by {
                    assert(destination@[out_inx + t] == v_block.buffer[v_block.inx + t]);
                }
                assert(destination@.subrange(out_inx as int, (out_inx + to_copy) as int)
                    =~= v_block.buffer.subrange(
                    v_block.inx as int,
                    v_block.inx as int + to_copy as int,
                ));
                assert(destination@.subrange(0, (out_inx + to_copy) as int) =~= prefix
                    + v_block.buffer.subrange(
                    v_block.inx as int,
                    v_block.inx as int + to_copy as int,
                ));
            }
            self.inx = self.inx + to_copy;
            out_inx = out_inx + to_copy;
        }
        proof {
            assert(destination@ =~= destination@.subrange(0, len as int));
        }
    }
}

/// Reads the four key bytes at `offset` as one little-endian word.
fn word_from_key(key: &[u8; 32], offset: usize) -> (r: u32)
    requires
        offset + 4 <= 32,
    ensures
        r == spec_u32_from_le(key@.subrange(offset as int, offset + 4)),
{
    (key[offset] as u32) | ((key[offset + 1] as u32) << 8) | ((key[offset + 2] as u32) << 16) | (
    (key[offset + 3] as u32) << 24)
}

/// One quarter-round on the working array.
fn quarter_round(x: &mut [u32; 16], a: usize, b: usize, c: usize, d: usize)
    requires
        a < 16,
        b < 16,
        c < 16,
        d < 16,
        a != b && a != c && a != d && b != c && b != d && c != d,
    ensures
        final(x)@ == spec_quarter_round(old(x)@, a as int, b as int, c as int, d as int),
{
    x[a] = x[a].wrapping_add(x[b]);
    x[d] = rotl32(x[d] ^ x[a], 16);
    x[c] = x[c].wrapping_add(x[d]);
    x[b] = rotl32(x[b] ^ x[c], 12);
    x[a] = x[a].wrapping_add(x[b]);
    x[d] = rotl32(x[d] ^ x[a], 8);
    x[c] = x[c].wrapping_add(x[d]);
    x[b] = rotl32(x[b] ^ x[c], 7);
    proof {
        assert(x@ =~= spec_quarter_round(old(x)@, a as int, b as int, c as int, d as int));
    }
}

/// Rotates `x` left by `k` bits.
fn rotl32(x: u32, k: u32) -> (r: u32)
    requires
        0 < k < 32,
    ensures
        r == spec_rotl32(x, k),
{
    (x << k) | (x >> (32 - k))
}

/// Taking `k` bytes that all sit inside the current buffer neither
/// refills nor changes anything but the cursor.
proof fn lemma_chacha_bytes_in_block(v: ChaChaView, k: nat, rounds: nat)
    requires
        v.inx + k <= 64,
        v.buffer.len() == 64,
    ensures
        spec_chacha_bytes(v, k, rounds).0 == v.buffer.subrange(
            v.inx as int,
            v.inx as int + k as int,
        ),
        spec_chacha_bytes(v, k, rounds).1 == (ChaChaView { inx: v.inx + k, ..v }),
    decreases k,
{
    reveal_with_fuel(spec_chacha_bytes, 2);
    if k == 0 {
        assert(spec_chacha_bytes(v, k, rounds).0 =~= v.buffer.subrange(
            v.inx as int,
            v.inx as int,
        ));
        assert(ChaChaView { inx: v.inx + 0, ..v } == v);
    } else {
        let v2 = ChaChaView { inx: v.inx + 1, ..v };
        lemma_chacha_bytes_in_block(v2, (k - 1) as nat, rounds);
        assert(spec_chacha_bytes(v, k, rounds).0 =~= v.buffer.subrange(
            v.inx as int,
            v.inx as int + k as int,
        ));
        assert(spec_chacha_bytes(v, k, rounds).1 == (ChaChaView { inx: v.inx + k, ..v }));
    }
}

/// Taking `a + b` bytes is taking `a` bytes and then `b` more.
proof fn lemma_chacha_bytes_concat(m: ChaChaView, a: nat, b: nat, rounds: nat)
    ensures
        spec_chacha_bytes(m, a + b, rounds).0 == spec_chacha_bytes(m, a, rounds).0
            + spec_chacha_bytes(spec_chacha_bytes(m, a, rounds).1, b, rounds).0,
        spec_chacha_bytes(m, a + b, rounds).1 == spec_chacha_bytes(
            spec_chacha_bytes(m, a, rounds).1,
            b,
            rounds,
        ).1,
    decreases a,
{
    reveal_with_fuel(spec_chacha_bytes, 2);
    if a == 0 {
        assert(spec_chacha_bytes(m, 0, rounds).0 + spec_chacha_bytes(m, b, rounds).0
            =~= spec_chacha_bytes(m, b, rounds).0);
    } else {
        let v = if m.inx == 64 {
            ChaChaView { inx: 0, ..spec_refill(m, rounds) }
        } else {
            m
        };
        let v2 = ChaChaView { inx: v.inx + 1, ..v };
        lemma_chacha_bytes_concat(v2, (a - 1) as nat, b, rounds);
        assert(spec_chacha_bytes(m, a + b, rounds).0 =~= spec_chacha_bytes(m, a, rounds).0
            + spec_chacha_bytes(spec_chacha_bytes(m, a, rounds).1, b, rounds).0);
    }
}

/// A random generator built on the ChaCha algorithm with twelve
/// rounds. The algorithm is currently unbroken and usable for
/// cryptographically secure generation, though no guarantee of any
/// kind is made that this particular implementation is secure.
pub struct ChaCha12(ChaCha<12>);

impl ChaCha12 {
    /// Creates a ChaCha12 generator with a 32-byte key from an entropy
    /// source and a fresh nonce, the latter as a safety net in case
    /// the entropy source is broken.
    pub fn from_entropy<T: EntropySource>(entropy_source: &mut T) -> (r: Result<
        Self,
        EntropyError,
    >)
        ensures
            match r {
                Ok(c) => exists|key: Seq<u8>, nonce: Seq<u8>|
                    key.len() == 32 && nonce.len() == 8 && T::fill_ok(
                        old(entropy_source).model(),
                        final(entropy_source).model(),
                        key,
                    ) && c.model() == #[trigger] spec_chacha_init(key, nonce, 12),
                Err(e) => T::fill_err(
                    old(entropy_source).model(),
                    final(entropy_source).model(),
                    e,
                ),
            },
    {
        Self::from_entropy_and_nonce(entropy_source, nonces::nonce_u64())
    }

    /// Creates a ChaCha12 generator from an explicit key and nonce.
    pub fn from_seed(seed: &[u8; 32], nonce: [u8; 8]) -> (r: Self)
        ensures
            r.model() == spec_chacha_init(seed@, nonce@, 12),
    {
        ChaCha12(ChaCha::<12>::new(seed, nonce))
    }

    /// Creates a ChaCha12 generator with a key from an entropy source
    /// and a caller-chosen nonce: with a deterministic source, the
    /// construction is reproducible.
    pub fn from_entropy_and_nonce<T: EntropySource>(
        entropy_source: &mut T,
        nonce: [u8; 8],
    ) -> (r: Result<Self, EntropyError>)
        ensures
            match r {
                Ok(c) => exists|key: Seq<u8>|
                    key.len() == 32 && #[trigger] T::fill_ok(
                        old(entropy_source).model(),
                        final(entropy_source).model(),
                        key,
                    ) && c.model() == spec_chacha_init(key, nonce@, 12),
                Err(e) => T::fill_err(
                    old(entropy_source).model(),
                    final(entropy_source).model(),
                    e,
                ),
            },
    {
        let mut key_bytes: Vec<u8> = vec![0u8; 32];
        match entropy_source.fill(&mut key_bytes) {
            Ok(_) => {
                let mut key = [0u8; 32];
                let mut i: usize = 0;
                while i < 32
                    invariant
                        i <= 32,
                        key_bytes@.len() == 32,
                        forall|k: int| 0 <= k < i ==> key@[k] == key_bytes@[k],
                    decreases 32 - i,
                {
                    key[i] = *key_bytes.get(i).unwrap();
                    i = i + 1;
                }
                proof {
                    assert(key@ =~= key_bytes@);
                }
                Ok(ChaCha12(ChaCha::<12>::new(&key, nonce)))
            },
            Err(e) => Err(e),
        }
    }

    /// Fills `destination` with the next keystream bytes, consuming
    /// every buffered byte.
    pub fn fill_u8(&mut self, destination: &mut Vec<u8>)
        ensures
            (final(destination)@, final(self).model()) == spec_chacha_bytes(
                old(self).model(),
                old(destination)@.len(),
                12,
            ),
            final(destination)@.len() == old(destination)@.len(),
    {
        self.0.fill_u8(destination)
    }
}

impl Rng for ChaCha12 {
    type Model = ChaChaView;

    closed spec fn model(&self) -> ChaChaView {
        self.0.model()
    }

    open spec fn step32(m: ChaChaView) -> (u32, ChaChaView) {
        spec_chacha_step32(m, 12)
    }

    open spec fn step64(m: ChaChaView) -> (u64, ChaChaView) {
        spec_chacha_step64(m, 12)
    }

    fn random_u32(&mut self) -> (r: u32) {
        self.0.random_u32()
    }

    fn random_u64(&mut self) -> (r: u64) {
        self.0.random_u64()
    }
}

} // verus!
