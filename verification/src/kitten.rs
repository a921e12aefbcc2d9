//! The reduced-round permutation and the byte buffer it runs on.
//!
//! The sponge engine works on single bytes, while the permutation mixes 25
//! 64-bit lanes. `AlignedKittenState` keeps the 200 state bytes and, on
//! `permute`, packs them into lanes in a fixed little-endian order, mixes
//! them, and unpacks them the same way, so the resulting bytes are identical
//! on every host byte order.

use vstd::prelude::*;
use zeroize::Zeroize;

verus! {

/// The number of 64-bit lanes in the permutation state.
pub const STATE_SIZE_U64: usize = 25;

/// The number of bytes in the permutation state.
pub const STATE_SIZE_U8: usize = 200;

/// What the ten-round reduced Keccak permutation returns on 25 lanes: a pure
/// function of the lane values alone. It is only named here; `kitten` below
/// ties the name to the real permutation.
pub uninterp spec fn kitten_of(words: Seq<u64>) -> Seq<u64>;

/// Lane `i` of a byte sequence, read little-endian from bytes `8*i .. 8*i+8`.
pub open spec fn le_word(s: Seq<u8>, i: int) -> u64 {
    (s[8 * i] as u64) | ((s[8 * i + 1] as u64) << 8u64) | ((s[8 * i + 2] as u64) << 16u64) | ((s[8
        * i + 3] as u64) << 24u64) | ((s[8 * i + 4] as u64) << 32u64) | ((s[8 * i + 5] as u64)
        << 40u64) | ((s[8 * i + 6] as u64) << 48u64) | ((s[8 * i + 7] as u64) << 56u64)
}

/// The 25 lanes of a 200-byte state, each read little-endian.
pub open spec fn bytes_to_words(s: Seq<u8>) -> Seq<u64> {
    Seq::new(STATE_SIZE_U64 as nat, |i: int| le_word(s, i))
}

/// Byte `k` of lane `w`, little-endian.
pub open spec fn word_byte(w: u64, k: u64) -> u8 {
    ((w >> ((8 * k) as u64)) & 0xff) as u8
}

/// The 200 bytes of 25 lanes, each written little-endian.
pub open spec fn words_to_bytes(ws: Seq<u64>) -> Seq<u8> {
    Seq::new(STATE_SIZE_U8 as nat, |i: int| word_byte(ws[i / 8], (i % 8) as u64))
}

/// What one permutation call does to the 200 state bytes: lanes read
/// little-endian, mixed by the reduced-round permutation, and written back
/// little-endian. The fixed byte order makes the result host-independent.
pub open spec fn permute_spec(s: Seq<u8>) -> Seq<u8> {
    words_to_bytes(kitten_of(bytes_to_words(s)))
}

/// Relies on `keccak::keccak_p` over 25 `u64` lanes with 10 rounds: a pure,
/// deterministic, in-place permutation of the lane values alone, never
/// panicking for a round count of at most 24. Its result is named `kitten_of`.
#[verifier::external_body]
fn kitten(words: &mut Vec<u64>)
    requires
        old(words)@.len() == STATE_SIZE_U64,
    ensures
        final(words)@ == kitten_of(old(words)@),
        final(words)@.len() == STATE_SIZE_U64,
{
    let mut lanes = [0u64; STATE_SIZE_U64];
    lanes.copy_from_slice(words.as_slice());
    keccak::keccak_p(&mut lanes, 10);
    words.as_mut_slice().copy_from_slice(&lanes);
}

/// Relies on zeroize's `Zeroize` for byte slices: every byte is overwritten
/// with zero in a way the compiler will not elide; the length is unchanged.
/// The slice impl asserts that the length fits in `isize`, which holds for
/// any byte vector.
#[verifier::external_body]
fn zeroize_bytes(data: &mut Vec<u8>)
    ensures
        final(data)@.len() == old(data)@.len(),
        forall|i: int| 0 <= i < final(data)@.len() ==> final(data)@[i] == 0,
{
    data.as_mut_slice().zeroize();
}

/// The 200-byte permutation state, kept as plain bytes so the sponge can
/// absorb and squeeze one byte at a time.
#[derive(Clone)]
pub struct AlignedKittenState {
    bytes: Vec<u8>,
}

impl View for AlignedKittenState {
    type V = Seq<u8>;

    closed spec fn view(&self) -> Seq<u8> {
        self.bytes@
    }
}

impl AlignedKittenState {
    /// A fresh, all-zero state.
    pub fn new() -> (r: Self)
        ensures
            r@.len() == STATE_SIZE_U8,
            forall|i: int| 0 <= i < r@.len() ==> r@[i] == 0,
    {
        let mut bytes: Vec<u8> = Vec::new();
        let mut i: usize = 0;
        while i < STATE_SIZE_U8
            invariant
                i <= STATE_SIZE_U8,
                bytes@.len() == i,
                forall|j: int| 0 <= j < i ==> bytes@[j] == 0,
            decreases STATE_SIZE_U8 - i,
        {
            bytes.push(0);
            i += 1;
        }
        AlignedKittenState { bytes }
    }

    /// Read the byte at `i`.
    pub fn get(&self, i: usize) -> (b: u8)
        requires
            i < self@.len(),
        ensures
            b == self@[i as int],
    {
        self.bytes[i]
    }

    /// Write the byte at `i`.
    pub fn set(&mut self, i: usize, b: u8)
        requires
            i < old(self)@.len(),
        ensures
            final(self)@ == old(self)@.update(i as int, b),
    {
        self.bytes[i] = b;
    }

    /// The state as bytes, for callers that only read it.
    pub fn as_bytes(&self) -> (r: &Vec<u8>)
        ensures
            r@ == self@,
    {
        &self.bytes
    }

    /// Apply the reduced-round permutation to the state.
    pub fn permute(&mut self)
        requires
            old(self)@.len() == STATE_SIZE_U8,
        ensures
            final(self)@ == permute_spec(old(self)@),
            final(self)@.len() == STATE_SIZE_U8,
    {
        let ghost s0 = self@;
        let mut words: Vec<u64> = Vec::new();
        let mut i: usize = 0;
        while i < STATE_SIZE_U64
            invariant
                i <= STATE_SIZE_U64,
                self@ == s0,
                s0.len() == STATE_SIZE_U8,
                words@.len() == i,
                forall|j: int| 0 <= j < i ==> words@[j] == le_word(s0, j),
            decreases STATE_SIZE_U64 - i,
        {
            let base = 8 * i;
            let w: u64 = (self.bytes[base] as u64) | ((self.bytes[base + 1] as u64) << 8u64) | ((
            self.bytes[base + 2] as u64) << 16u64) | ((self.bytes[base + 3] as u64) << 24u64) | ((
            self.bytes[base + 4] as u64) << 32u64) | ((self.bytes[base + 5] as u64) << 40u64) | ((
            self.bytes[base + 6] as u64) << 48u64) | ((self.bytes[base + 7] as u64) << 56u64);
            words.push(w);
            i += 1;
        }
        proof {
            assert(words@ =~= bytes_to_words(s0));
        }
        kitten(&mut words);
        let ghost ws = words@;
        let mut j: usize = 0;
        while j < STATE_SIZE_U8
            invariant
                j <= STATE_SIZE_U8,
                words@ == ws,
                ws.len() == STATE_SIZE_U64,
                self@.len() == STATE_SIZE_U8,
                forall|k: int| 0 <= k < j ==> self@[k] == word_byte(ws[k / 8], (k % 8) as u64),
            decreases STATE_SIZE_U8 - j,
        {
            let w = words[j / 8];
            let k: u64 = (j % 8) as u64;
            let b: u8 = ((w >> (8 * k)) & 0xff) as u8;
            self.bytes[j] = b;
            j += 1;
        }
        proof {
            assert(self@ =~= permute_spec(s0));
        }
    }

    /// Erase the state: every byte is overwritten with zero.
    pub fn clear(&mut self)
        ensures
            final(self)@.len() == old(self)@.len(),
            forall|i: int| 0 <= i < final(self)@.len() ==> final(self)@[i] == 0,
    {
        zeroize_bytes(&mut self.bytes);
    }
}

} // verus!
