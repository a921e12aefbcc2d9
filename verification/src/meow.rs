//! The executable duplex engine.
//!
//! `Meow` is the one stateful object of the framework. Each public method
//! frames itself with a small flag header, dispatches to a byte-wise duplex
//! primitive, and is specified exactly by the corresponding function on
//! `MeowModel`.

use vstd::prelude::*;
use subtle::ConstantTimeEq;
use crate::kitten::AlignedKittenState;
use crate::kitten::STATE_SIZE_U8;
use crate::model::FLAG_A;
use crate::model::FLAG_C;
use crate::model::FLAG_I;
use crate::model::FLAG_K;
use crate::model::FLAG_M;
use crate::model::FLAG_T;
use crate::model::MEOW_R;
use crate::model::RATCHET_LEN;
use crate::model::MeowModel;
use crate::model::Prim;
use crate::model::Role;
use crate::model::all_zero;
use crate::model::begin_ok;
use crate::model::begin_wire_flags;
use crate::model::init_byte;
use crate::model::init_bytes;
use crate::model::spec_ad;
use crate::model::spec_advance;
use crate::model::spec_begin_op;
use crate::model::spec_clr;
use crate::model::spec_key;
use crate::model::spec_new;
use crate::model::spec_prf;
use crate::model::spec_prim;
use crate::model::spec_prim_one;
use crate::model::spec_prim_out_one;
use crate::model::spec_prim_outs;
use crate::model::spec_ratchet_many;
use crate::model::spec_recv_enc;
use crate::model::spec_recv_mac;
use crate::model::spec_recv_mac_ok;
use crate::model::spec_run_f;
use crate::model::spec_send_enc;
use crate::model::spec_send_mac;
use crate::model::wiped_model;
use crate::model::zeros;

verus! {

/// The error value returned when MAC verification fails. The caller must
/// reject the message; nothing else is recoverable.
#[derive(Clone, Copy, Debug)]
pub struct MacError;

/// Relies on subtle's `ConstantTimeEq` for byte slices: returns whether the
/// two slices are equal, comparing the contents without data-dependent
/// branching or early exit (only the public lengths short-circuit).
#[verifier::external_body]
fn ct_bytes_eq(a: &[u8], b: &[u8]) -> (r: bool)
    ensures
        r == (a@ == b@),
{
    bool::from(a.ct_eq(b))
}

/// Check that every byte of `data` is zero, in constant time: the whole
/// buffer is compared against zeros without data-dependent branching.
fn check_zero(data: &[u8]) -> (r: Result<(), MacError>)
    ensures
        r is Ok <==> all_zero(data@),
{
    let n = data.len();
    let mut zero_buf: Vec<u8> = Vec::new();
    let mut i: usize = 0;
    while i < n
        invariant
            i <= n,
            zero_buf@.len() == i,
            forall|j: int| 0 <= j < i ==> zero_buf@[j] == 0,
        decreases n - i,
    {
        zero_buf.push(0);
        i += 1;
    }
    let ok = ct_bytes_eq(data, zero_buf.as_slice());
    proof {
        if all_zero(data@) {
            assert(data@ =~= zero_buf@);
        }
    }
    if ok {
        Ok(())
    } else {
        Err(MacError)
    }
}

/// One protocol instance: the sponge state, the cursor, the negotiated role
/// and the latched operation flags. Duplicating an instance forks a fully
/// independent deep copy; both copies then produce identical output for the
/// same next operation, which callers must treat as a security hazard.
#[derive(Clone)]
pub struct Meow {
    state: AlignedKittenState,
    pos: u8,
    pos_begin: u8,
    role: Role,
    cur_flags: u8,
}

impl View for Meow {
    type V = MeowModel;

    closed spec fn view(&self) -> MeowModel {
        MeowModel {
            state: self.state@,
            pos: self.pos,
            pos_begin: self.pos_begin,
            role: self.role,
            cur_flags: self.cur_flags,
        }
    }
}

impl Meow {
    /// The framing step: fold the frame offsets into the state, flip the
    /// first capacity byte, permute, and reset the cursor.
    fn run_f(&mut self)
        requires
            old(self)@.state.len() == STATE_SIZE_U8,
            old(self)@.pos <= MEOW_R,
        ensures
            final(self)@ == spec_run_f(old(self)@),
            final(self)@.wf(),
    {
        let pos = self.pos as usize;
        let x = self.state.get(pos);
        self.state.set(pos, x & self.pos_begin);
        let y = self.state.get(pos + 1);
        self.state.set(pos + 1, y & 0x04);
        let cap = MEOW_R as usize + 1;
        let z = self.state.get(cap);
        self.state.set(cap, z ^ 0x80);
        self.state.permute();
        self.pos = 0;
        self.pos_begin = 0;
    }

    /// Move the cursor forward, framing and permuting at the rate boundary.
    fn advance_pos(&mut self)
        requires
            old(self)@.wf(),
        ensures
            final(self)@ == spec_advance(old(self)@),
            final(self)@.wf(),
    {
        self.pos = self.pos + 1;
        if self.pos == MEOW_R {
            self.run_f();
        }
    }

    /// Absorb one byte into the state at the cursor.
    fn absorb_byte(&mut self, b: u8)
        requires
            old(self)@.wf(),
        ensures
            final(self)@ == spec_prim_one(Prim::Absorb, old(self)@, b),
            final(self)@.wf(),
    {
        let s = self.state.get(self.pos as usize);
        self.state.set(self.pos as usize, s ^ b);
        self.advance_pos();
    }

    /// Overwrite state bytes with the input, advancing the cursor.
    fn overwrite(&mut self, data: &[u8])
        requires
            old(self)@.wf(),
        ensures
            final(self)@ == spec_prim(Prim::Overwrite, old(self)@, data@),
            final(self)@.wf(),
    {
        let n = data.len();
        let mut i: usize = 0;
        while i < n
            invariant
                i <= n,
                n == data@.len(),
                self@.wf(),
                self@ == spec_prim(Prim::Overwrite, old(self)@, data@.take(i as int)),
            decreases n - i,
        {
            self.state.set(self.pos as usize, data[i]);
            self.advance_pos();
            proof {
                assert(data@.take(i + 1).drop_last() =~= data@.take(i as int));
                assert(data@.take(i + 1).last() == data@[i as int]);
            }
            i += 1;
        }
        proof {
            assert(data@.take(n as int) =~= data@);
        }
    }

    /// Zero out `len` state bytes, advancing the cursor.
    fn zero_out(&mut self, len: usize)
        requires
            old(self)@.wf(),
        ensures
            final(self)@ == spec_prim(Prim::Overwrite, old(self)@, zeros(len as nat)),
            final(self)@.wf(),
    {
        let mut i: usize = 0;
        while i < len
            invariant
                i <= len,
                self@.wf(),
                self@ == spec_prim(Prim::Overwrite, old(self)@, zeros(i as nat)),
            decreases len - i,
        {
            self.state.set(self.pos as usize, 0);
            self.advance_pos();
            proof {
                assert(zeros((i + 1) as nat).drop_last() =~= zeros(i as nat));
            }
            i += 1;
        }
    }

    /// Absorb the input and replace it, in place, by the new state bytes:
    /// the encryption primitive.
    fn absorb_and_set(&mut self, data: &mut Vec<u8>)
        requires
            old(self)@.wf(),
        ensures
            final(self)@ == spec_prim(Prim::AbsorbAndSet, old(self)@, old(data)@),
            final(data)@ == spec_prim_outs(Prim::AbsorbAndSet, old(self)@, old(data)@),
            final(self)@.wf(),
    {
        let n = data.len();
        let mut i: usize = 0;
        while i < n
            invariant
                i <= n,
                n == old(data)@.len(),
                data@.len() == n,
                forall|j: int| i <= j < n ==> data@[j] == old(data)@[j],
                self@.wf(),
                self@ == spec_prim(Prim::AbsorbAndSet, old(self)@, old(data)@.take(i as int)),
                data@.take(i as int) == spec_prim_outs(
                    Prim::AbsorbAndSet,
                    old(self)@,
                    old(data)@.take(i as int),
                ),
            decreases n - i,
        {
            let ghost pre = self@;
            let ghost data_pre = data@;
            let b = data[i];
            let s = self.state.get(self.pos as usize);
            let c = s ^ b;
            self.state.set(self.pos as usize, c);
            data[i] = c;
            self.advance_pos();
            proof {
                assert(old(data)@.take(i + 1).drop_last() =~= old(data)@.take(i as int));
                assert(c == spec_prim_out_one(Prim::AbsorbAndSet, pre, b));
                assert(data@.take(i as int) =~= data_pre.take(i as int));
                assert(data@.take(i + 1) =~= data@.take(i as int).push(c));
            }
            i += 1;
        }
        proof {
            assert(old(data)@.take(n as int) =~= old(data)@);
            assert(data@.take(n as int) =~= data@);
        }
    }

    /// Emit state XOR input and commit the original input into the state:
    /// the decryption primitive, re-converging the state to the value the
    /// sender committed.
    fn exchange(&mut self, data: &mut Vec<u8>)
        requires
            old(self)@.wf(),
        ensures
            final(self)@ == spec_prim(Prim::Exchange, old(self)@, old(data)@),
            final(data)@ == spec_prim_outs(Prim::Exchange, old(self)@, old(data)@),
            final(self)@.wf(),
    {
        let n = data.len();
        let mut i: usize = 0;
        while i < n
            invariant
                i <= n,
                n == old(data)@.len(),
                data@.len() == n,
                forall|j: int| i <= j < n ==> data@[j] == old(data)@[j],
                self@.wf(),
                self@ == spec_prim(Prim::Exchange, old(self)@, old(data)@.take(i as int)),
                data@.take(i as int) == spec_prim_outs(
                    Prim::Exchange,
                    old(self)@,
                    old(data)@.take(i as int),
                ),
            decreases n - i,
        {
            let ghost pre = self@;
            let ghost data_pre = data@;
            let b = data[i];
            let s = self.state.get(self.pos as usize);
            let o = s ^ b;
            data[i] = o;
            self.state.set(self.pos as usize, s ^ o);
            self.advance_pos();
            proof {
                crate::model::lemma_xor_cancel(s, b);
                assert(old(data)@.take(i + 1).drop_last() =~= old(data)@.take(i as int));
                assert(o == spec_prim_out_one(Prim::Exchange, pre, b));
                assert(data@.take(i as int) =~= data_pre.take(i as int));
                assert(data@.take(i + 1) =~= data@.take(i as int).push(o));
            }
            i += 1;
        }
        proof {
            assert(old(data)@.take(n as int) =~= old(data)@);
            assert(data@.take(n as int) =~= data@);
        }
    }

    /// Fill the buffer with state bytes, leaving the state unchanged: emits
    /// a MAC tag.
    fn copy(&mut self, data: &mut Vec<u8>)
        requires
            old(self)@.wf(),
        ensures
            final(self)@ == spec_prim(Prim::Copy, old(self)@, zeros(old(data)@.len())),
            final(data)@ == spec_prim_outs(Prim::Copy, old(self)@, zeros(old(data)@.len())),
            final(self)@.wf(),
    {
        let n = data.len();
        let mut i: usize = 0;
        while i < n
            invariant
                i <= n,
                n == old(data)@.len(),
                data@.len() == n,
                self@.wf(),
                self@ == spec_prim(Prim::Copy, old(self)@, zeros(i as nat)),
                data@.take(i as int) == spec_prim_outs(Prim::Copy, old(self)@, zeros(i as nat)),
            decreases n - i,
        {
            let ghost pre = self@;
            let s = self.state.get(self.pos as usize);
            data[i] = s;
            proof {
                assert(pre.state.update(pre.pos as int, pre.state[pre.pos as int]) =~= pre.state);
            }
            self.advance_pos();
            proof {
                assert(zeros((i + 1) as nat).drop_last() =~= zeros(i as nat));
                assert(s == spec_prim_out_one(Prim::Copy, pre, 0));
                assert(data@.take(i + 1) =~= data@.take(i as int).push(s));
            }
            i += 1;
        }
        proof {
            assert(data@.take(n as int) =~= data@);
        }
    }

    /// Fill the buffer with state bytes and erase them: squeezes PRF output
    /// with forward secrecy.
    fn squeeze(&mut self, data: &mut Vec<u8>)
        requires
            old(self)@.wf(),
        ensures
            final(self)@ == spec_prim(Prim::Squeeze, old(self)@, zeros(old(data)@.len())),
            final(data)@ == spec_prim_outs(Prim::Squeeze, old(self)@, zeros(old(data)@.len())),
            final(self)@.wf(),
    {
        let n = data.len();
        let mut i: usize = 0;
        while i < n
            invariant
                i <= n,
                n == old(data)@.len(),
                data@.len() == n,
                self@.wf(),
                self@ == spec_prim(Prim::Squeeze, old(self)@, zeros(i as nat)),
                data@.take(i as int) == spec_prim_outs(Prim::Squeeze, old(self)@, zeros(i as nat)),
            decreases n - i,
        {
            let ghost pre = self@;
            let s = self.state.get(self.pos as usize);
            data[i] = s;
            self.state.set(self.pos as usize, 0);
            self.advance_pos();
            proof {
                assert(zeros((i + 1) as nat).drop_last() =~= zeros(i as nat));
                assert(s == spec_prim_out_one(Prim::Squeeze, pre, 0));
                assert(data@.take(i + 1) =~= data@.take(i as int).push(s));
            }
            i += 1;
        }
        proof {
            assert(data@.take(n as int) =~= data@);
        }
    }

    /// Absorb a byte sequence into the state.
    fn absorb(&mut self, data: &[u8])
        requires
            old(self)@.wf(),
        ensures
            final(self)@ == spec_prim(Prim::Absorb, old(self)@, data@),
            final(self)@.wf(),
    {
        let n = data.len();
        let mut i: usize = 0;
        while i < n
            invariant
                i <= n,
                n == data@.len(),
                self@.wf(),
                self@ == spec_prim(Prim::Absorb, old(self)@, data@.take(i as int)),
            decreases n - i,
        {
            self.absorb_byte(data[i]);
            proof {
                assert(data@.take(i + 1).drop_last() =~= data@.take(i as int));
                assert(data@.take(i + 1).last() == data@[i as int]);
            }
            i += 1;
        }
        proof {
            assert(data@.take(n as int) =~= data@);
        }
    }

    /// Begin an operation: latch its flag byte, decide the role on the first
    /// transport operation, absorb the two header bytes, and force a fresh
    /// frame for cipher operations. With `more` set, continue the previous
    /// operation unchanged; the flags must then match the latched ones.
    fn begin_op(&mut self, flags: u8, more: bool)
        requires
            old(self)@.wf(),
            begin_ok(old(self)@, flags, more),
        ensures
            final(self)@ == spec_begin_op(old(self)@, flags, more),
            final(self)@.wf(),
    {
        if more {
            return ;
        }
        self.cur_flags = flags;
        let wire: u8 = if flags & FLAG_T != 0 {
            if matches!(self.role, Role::Undecided) {
                proof {
                    assert(flags & FLAG_I == 0 || flags & FLAG_I == 1) by (bit_vector);
                }
                self.role = Role::from_inbound(flags & FLAG_I);
            }
            flags ^ self.role.to_flag()
        } else {
            flags
        };
        proof {
            assert(wire == begin_wire_flags(old(self)@, flags));
        }
        let old_begin = self.pos_begin;
        self.pos_begin = self.pos + 1;
        let ghost m1 = self@;
        self.absorb_byte(old_begin);
        self.absorb_byte(wire);
        proof {
            reveal_with_fuel(spec_prim, 3);
            let header = seq![old_begin, wire];
            let h1 = seq![old_begin];
            assert(header.drop_last() =~= h1);
            assert(h1.drop_last() =~= Seq::<u8>::empty());
            assert(header.last() == wire);
            assert(h1.last() == old_begin);
            assert(spec_prim(Prim::Absorb, m1, h1) == spec_prim_one(
                Prim::Absorb,
                m1,
                old_begin,
            ));
            assert(spec_prim(Prim::Absorb, m1, header) == spec_prim_one(
                Prim::Absorb,
                spec_prim_one(Prim::Absorb, m1, old_begin),
                wire,
            ));
        }
        let force_f = wire & (FLAG_C | FLAG_K) != 0;
        if force_f && self.pos != 0 {
            self.run_f();
        }
    }

    /// Create a fresh instance: zero the state, write the fixed six-byte
    /// header and context string, permute once, then absorb the caller's
    /// protocol label as metadata, separating protocols from one another.
    pub fn new(protocol: &[u8]) -> (r: Meow)
        ensures
            r@ == spec_new(protocol@),
            r@.wf(),
    {
        let mut state = AlignedKittenState::new();
        let mut i: usize = 0;
        while i < 17
            invariant
                i <= 17,
                state@.len() == STATE_SIZE_U8,
                forall|j: int| 0 <= j < i ==> state@[j] == init_byte(j),
                forall|j: int| i <= j < STATE_SIZE_U8 ==> state@[j] == 0,
            decreases 17 - i,
        {
            state.set(i, init_byte_val(i));
            i += 1;
        }
        proof {
            assert(state@ =~= init_bytes());
        }
        state.permute();
        let mut out = Meow {
            state,
            pos: 0,
            pos_begin: 0,
            role: Role::Undecided,
            cur_flags: 0,
        };
        out.meta_ad(protocol, false);
        out
    }

    /// Absorb additional data known to both parties: hashing, or the
    /// associated data of an AEAD.
    pub fn ad(&mut self, data: &[u8], more: bool)
        requires
            old(self)@.wf(),
            begin_ok(old(self)@, FLAG_A, more),
        ensures
            final(self)@ == spec_ad(old(self)@, data@, more, false),
            final(self)@.wf(),
            final(self)@.cur_flags == FLAG_A,
    {
        self.begin_op(FLAG_A, more);
        self.absorb(data);
        proof {
            if !more {
                crate::laws::lemma_begin_frame(old(self)@, FLAG_A);
            }
            crate::laws::lemma_prim_frame(Prim::Absorb, spec_begin_op(old(self)@, FLAG_A, more), data@);
        }
    }

    /// Absorb framing metadata, domain-separated from `ad`.
    pub fn meta_ad(&mut self, data: &[u8], more: bool)
        requires
            old(self)@.wf(),
            begin_ok(old(self)@, FLAG_M | FLAG_A, more),
        ensures
            final(self)@ == spec_ad(old(self)@, data@, more, true),
            final(self)@.wf(),
            final(self)@.cur_flags == FLAG_M | FLAG_A,
    {
        self.begin_op(FLAG_M | FLAG_A, more);
        self.absorb(data);
        proof {
            if !more {
                crate::laws::lemma_begin_frame(old(self)@, FLAG_M | FLAG_A);
            }
            crate::laws::lemma_prim_frame(Prim::Absorb, spec_begin_op(old(self)@, FLAG_M | FLAG_A, more), data@);
        }
    }

    /// Mix a secret key into the state by overwriting rate bytes, making all
    /// further output depend on it.
    pub fn key(&mut self, data: &[u8], more: bool)
        requires
            old(self)@.wf(),
            begin_ok(old(self)@, FLAG_A | FLAG_C, more),
        ensures
            final(self)@ == spec_key(old(self)@, data@, more),
            final(self)@.wf(),
            final(self)@.cur_flags == FLAG_A | FLAG_C,
    {
        self.begin_op(FLAG_A | FLAG_C, more);
        self.overwrite(data);
        proof {
            if !more {
                crate::laws::lemma_begin_frame(old(self)@, FLAG_A | FLAG_C);
            }
            crate::laws::lemma_prim_frame(Prim::Overwrite, spec_begin_op(old(self)@, FLAG_A | FLAG_C, more), data@);
        }
    }

    /// Send cleartext to the other party: the payload is absorbed, and the
    /// peer calls `recv_clr` with the same bytes.
    pub fn send_clr(&mut self, data: &[u8], more: bool)
        requires
            old(self)@.wf(),
            begin_ok(old(self)@, FLAG_A | FLAG_T, more),
        ensures
            final(self)@ == spec_clr(old(self)@, data@, more, false, false),
            final(self)@.wf(),
            final(self)@.cur_flags == FLAG_A | FLAG_T,
    {
        self.begin_op(FLAG_A | FLAG_T, more);
        self.absorb(data);
        proof {
            if !more {
                crate::laws::lemma_begin_frame(old(self)@, FLAG_A | FLAG_T);
            }
            crate::laws::lemma_prim_frame(Prim::Absorb, spec_begin_op(old(self)@, FLAG_A | FLAG_T, more), data@);
        }
    }

    /// Send cleartext metadata; the counterpart of `meta_recv_clr`.
    pub fn meta_send_clr(&mut self, data: &[u8], more: bool)
        requires
            old(self)@.wf(),
            begin_ok(old(self)@, FLAG_M | FLAG_A | FLAG_T, more),
        ensures
            final(self)@ == spec_clr(old(self)@, data@, more, false, true),
            final(self)@.wf(),
            final(self)@.cur_flags == FLAG_M | FLAG_A | FLAG_T,
    {
        self.begin_op(FLAG_M | FLAG_A | FLAG_T, more);
        self.absorb(data);
        proof {
            if !more {
                crate::laws::lemma_begin_frame(old(self)@, FLAG_M | FLAG_A | FLAG_T);
            }
            crate::laws::lemma_prim_frame(Prim::Absorb, spec_begin_op(old(self)@, FLAG_M | FLAG_A | FLAG_T, more), data@);
        }
    }

    /// Receive cleartext; the counterpart of `send_clr`.
    pub fn recv_clr(&mut self, data: &[u8], more: bool)
        requires
            old(self)@.wf(),
            begin_ok(old(self)@, FLAG_I | FLAG_A | FLAG_T, more),
        ensures
            final(self)@ == spec_clr(old(self)@, data@, more, true, false),
            final(self)@.wf(),
            final(self)@.cur_flags == FLAG_I | FLAG_A | FLAG_T,
    {
        self.begin_op(FLAG_I | FLAG_A | FLAG_T, more);
        self.absorb(data);
        proof {
            if !more {
                crate::laws::lemma_begin_frame(old(self)@, FLAG_I | FLAG_A | FLAG_T);
            }
            crate::laws::lemma_prim_frame(Prim::Absorb, spec_begin_op(old(self)@, FLAG_I | FLAG_A | FLAG_T, more), data@);
        }
    }

    /// Receive cleartext metadata; the counterpart of `meta_send_clr`.
    pub fn meta_recv_clr(&mut self, data: &[u8], more: bool)
        requires
            old(self)@.wf(),
            begin_ok(old(self)@, FLAG_M | FLAG_I | FLAG_A | FLAG_T, more),
        ensures
            final(self)@ == spec_clr(old(self)@, data@, more, true, true),
            final(self)@.wf(),
            final(self)@.cur_flags == FLAG_M | FLAG_I | FLAG_A | FLAG_T,
    {
        self.begin_op(FLAG_M | FLAG_I | FLAG_A | FLAG_T, more);
        self.absorb(data);
        proof {
            if !more {
                crate::laws::lemma_begin_frame(old(self)@, FLAG_M | FLAG_I | FLAG_A | FLAG_T);
            }
            crate::laws::lemma_prim_frame(Prim::Absorb, spec_begin_op(old(self)@, FLAG_M | FLAG_I | FLAG_A | FLAG_T, more), data@);
        }
    }

    /// Encrypt in place: the buffer enters as plaintext and leaves as
    /// ciphertext, to be sent to the other party.
    pub fn send_enc(&mut self, data: &mut Vec<u8>, more: bool)
        requires
            old(self)@.wf(),
            begin_ok(old(self)@, FLAG_A | FLAG_C | FLAG_T, more),
        ensures
            final(self)@ == spec_send_enc(old(self)@, old(data)@, more, false).0,
            final(data)@ == spec_send_enc(old(self)@, old(data)@, more, false).1,
            final(self)@.wf(),
            final(self)@.cur_flags == FLAG_A | FLAG_C | FLAG_T,
    {
        self.begin_op(FLAG_A | FLAG_C | FLAG_T, more);
        self.absorb_and_set(data);
        proof {
            if !more {
                crate::laws::lemma_begin_frame(old(self)@, FLAG_A | FLAG_C | FLAG_T);
            }
            crate::laws::lemma_prim_frame(Prim::AbsorbAndSet, spec_begin_op(old(self)@, FLAG_A | FLAG_C | FLAG_T, more), old(data)@);
        }
    }

    /// Encrypt framing metadata in place; the counterpart of
    /// `meta_recv_enc`.
    pub fn meta_send_enc(&mut self, data: &mut Vec<u8>, more: bool)
        requires
            old(self)@.wf(),
            begin_ok(old(self)@, FLAG_M | FLAG_A | FLAG_C | FLAG_T, more),
        ensures
            final(self)@ == spec_send_enc(old(self)@, old(data)@, more, true).0,
            final(data)@ == spec_send_enc(old(self)@, old(data)@, more, true).1,
            final(self)@.wf(),
            final(self)@.cur_flags == FLAG_M | FLAG_A | FLAG_C | FLAG_T,
    {
        self.begin_op(FLAG_M | FLAG_A | FLAG_C | FLAG_T, more);
        self.absorb_and_set(data);
        proof {
            if !more {
                crate::laws::lemma_begin_frame(old(self)@, FLAG_M | FLAG_A | FLAG_C | FLAG_T);
            }
            crate::laws::lemma_prim_frame(Prim::AbsorbAndSet, spec_begin_op(old(self)@, FLAG_M | FLAG_A | FLAG_C | FLAG_T, more), old(data)@);
        }
    }

    /// Decrypt in place: the buffer enters as ciphertext and leaves as
    /// plaintext; the counterpart of `send_enc`.
    pub fn recv_enc(&mut self, data: &mut Vec<u8>, more: bool)
        requires
            old(self)@.wf(),
            begin_ok(old(self)@, FLAG_I | FLAG_A | FLAG_C | FLAG_T, more),
        ensures
            final(self)@ == spec_recv_enc(old(self)@, old(data)@, more, false).0,
            final(data)@ == spec_recv_enc(old(self)@, old(data)@, more, false).1,
            final(self)@.wf(),
            final(self)@.cur_flags == FLAG_I | FLAG_A | FLAG_C | FLAG_T,
    {
        self.begin_op(FLAG_I | FLAG_A | FLAG_C | FLAG_T, more);
        self.exchange(data);
        proof {
            if !more {
                crate::laws::lemma_begin_frame(old(self)@, FLAG_I | FLAG_A | FLAG_C | FLAG_T);
            }
            crate::laws::lemma_prim_frame(Prim::Exchange, spec_begin_op(old(self)@, FLAG_I | FLAG_A | FLAG_C | FLAG_T, more), old(data)@);
        }
    }

    /// Decrypt framing metadata in place; the counterpart of
    /// `meta_send_enc`.
    pub fn meta_recv_enc(&mut self, data: &mut Vec<u8>, more: bool)
        requires
            old(self)@.wf(),
            begin_ok(old(self)@, FLAG_M | FLAG_I | FLAG_A | FLAG_C | FLAG_T, more),
        ensures
            final(self)@ == spec_recv_enc(old(self)@, old(data)@, more, true).0,
            final(data)@ == spec_recv_enc(old(self)@, old(data)@, more, true).1,
            final(self)@.wf(),
            final(self)@.cur_flags == FLAG_M | FLAG_I | FLAG_A | FLAG_C | FLAG_T,
    {
        self.begin_op(FLAG_M | FLAG_I | FLAG_A | FLAG_C | FLAG_T, more);
        self.exchange(data);
        proof {
            if !more {
                crate::laws::lemma_begin_frame(old(self)@, FLAG_M | FLAG_I | FLAG_A | FLAG_C | FLAG_T);
            }
            crate::laws::lemma_prim_frame(Prim::Exchange, spec_begin_op(old(self)@, FLAG_M | FLAG_I | FLAG_A | FLAG_C | FLAG_T, more), old(data)@);
        }
    }

    /// Fill the buffer with a MAC over the whole transcript so far, to be
    /// sent to the other party. A MAC is always framed and emitted whole:
    /// no continuation is possible, because the MAC's own framing is part of
    /// what it authenticates.
    pub fn send_mac(&mut self, data: &mut Vec<u8>)
        requires
            old(self)@.wf(),
        ensures
            final(self)@ == spec_send_mac(old(self)@, old(data)@.len(), false).0,
            final(data)@ == spec_send_mac(old(self)@, old(data)@.len(), false).1,
            final(self)@.wf(),
    {
        self.begin_op(FLAG_C | FLAG_T, false);
        self.copy(data);
    }

    /// Fill the buffer with a MAC over the metadata transcript; very close
    /// to `send_mac`.
    pub fn meta_send_mac(&mut self, data: &mut Vec<u8>)
        requires
            old(self)@.wf(),
        ensures
            final(self)@ == spec_send_mac(old(self)@, old(data)@.len(), true).0,
            final(data)@ == spec_send_mac(old(self)@, old(data)@.len(), true).1,
            final(self)@.wf(),
    {
        self.begin_op(FLAG_M | FLAG_C | FLAG_T, false);
        self.copy(data);
    }

    /// Verify a received MAC: exchange the tag against the local state, then
    /// check in constant time that every resulting byte is zero. A non-zero
    /// byte means the transcripts diverged and is reported as `MacError`,
    /// never as a panic. Like `send_mac`, this cannot be continued.
    pub fn recv_mac(&mut self, data: &mut Vec<u8>) -> (r: Result<(), MacError>)
        requires
            old(self)@.wf(),
        ensures
            final(self)@ == spec_recv_mac(old(self)@, old(data)@, false).0,
            final(data)@ == spec_recv_mac(old(self)@, old(data)@, false).1,
            r is Ok <==> spec_recv_mac_ok(old(self)@, old(data)@, false),
            final(self)@.wf(),
    {
        self.begin_op(FLAG_I | FLAG_C | FLAG_T, false);
        self.exchange(data);
        check_zero(data.as_slice())
    }

    /// Verify a received MAC over the metadata transcript; very close to
    /// `recv_mac`.
    pub fn meta_recv_mac(&mut self, data: &mut Vec<u8>) -> (r: Result<(), MacError>)
        requires
            old(self)@.wf(),
        ensures
            final(self)@ == spec_recv_mac(old(self)@, old(data)@, true).0,
            final(data)@ == spec_recv_mac(old(self)@, old(data)@, true).1,
            r is Ok <==> spec_recv_mac_ok(old(self)@, old(data)@, true),
            final(self)@.wf(),
    {
        self.begin_op(FLAG_M | FLAG_I | FLAG_C | FLAG_T, false);
        self.exchange(data);
        check_zero(data.as_slice())
    }

    /// Fill the buffer with pseudorandom output squeezed from the state; the
    /// squeezed bytes are erased from the state for forward secrecy.
    pub fn prf(&mut self, data: &mut Vec<u8>, more: bool)
        requires
            old(self)@.wf(),
            begin_ok(old(self)@, FLAG_I | FLAG_A | FLAG_C, more),
        ensures
            final(self)@ == spec_prf(old(self)@, old(data)@.len(), more).0,
            final(data)@ == spec_prf(old(self)@, old(data)@.len(), more).1,
            final(self)@.wf(),
            final(self)@.cur_flags == FLAG_I | FLAG_A | FLAG_C,
    {
        self.begin_op(FLAG_I | FLAG_A | FLAG_C, more);
        self.squeeze(data);
        proof {
            if !more {
                crate::laws::lemma_begin_frame(old(self)@, FLAG_I | FLAG_A | FLAG_C);
            }
            crate::laws::lemma_prim_frame(Prim::Squeeze, spec_begin_op(old(self)@, FLAG_I | FLAG_A | FLAG_C, more), zeros(old(data)@.len()));
        }
    }

    /// Ratchet the state forward by the security parameter, so past secrets
    /// cannot be derived from a future compromise.
    pub fn ratchet(&mut self)
        requires
            old(self)@.wf(),
        ensures
            final(self)@ == spec_ratchet_many(old(self)@, RATCHET_LEN as nat, false),
            final(self)@.wf(),
    {
        self.ratchet_many(RATCHET_LEN, false)
    }

    /// Ratchet the state forward by erasing `len` state bytes; more than the
    /// security parameter in bytes works as a difficulty knob.
    pub fn ratchet_many(&mut self, len: usize, more: bool)
        requires
            old(self)@.wf(),
            begin_ok(old(self)@, FLAG_C, more),
        ensures
            final(self)@ == spec_ratchet_many(old(self)@, len as nat, more),
            final(self)@.wf(),
            final(self)@.cur_flags == FLAG_C,
    {
        self.begin_op(FLAG_C, more);
        self.zero_out(len);
        proof {
            if !more {
                crate::laws::lemma_begin_frame(old(self)@, FLAG_C);
            }
            crate::laws::lemma_prim_frame(Prim::Overwrite, spec_begin_op(old(self)@, FLAG_C, more), zeros(len as nat));
        }
    }

    /// Erase every field: the state bytes are zeroized, and cursor, role and
    /// latched flags are reset. Call this before releasing an instance that
    /// held secret material; nothing of the transcript survives it.
    pub fn wipe(&mut self)
        requires
            old(self)@.state.len() == STATE_SIZE_U8,
        ensures
            final(self)@ == wiped_model(),
    {
        self.state.clear();
        self.pos = 0;
        self.pos_begin = 0;
        self.role = Role::Undecided;
        self.cur_flags = 0;
        proof {
            assert(self@.state =~= zeros(STATE_SIZE_U8 as nat));
        }
    }
}

/// Byte `i` of the initial, pre-permutation state.
fn init_byte_val(i: usize) -> (b: u8)
    ensures
        b == init_byte(i as int),
{
    match i {
        0 => 0x01,
        1 => 168,
        2 => 0x01,
        3 => 0x00,
        4 => 0x01,
        5 => 0x60,
        6 => 0x4d,
        7 => 0x65,
        8 => 0x6f,
        9 => 0x77,
        10 => 0x20,
        11 => 0x76,
        12 => 0x30,
        13 => 0x2e,
        14 => 0x31,
        15 => 0x2e,
        16 => 0x30,
        _ => 0,
    }
}

} // verus!
