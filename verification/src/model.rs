//! The mathematical model of the duplex engine.
//!
//! Every public operation of the engine is specified as a pure function on
//! `MeowModel`: the 200 state bytes, the cursor, the negotiated role and the
//! latched operation flags. The executable code in `meow` carries contracts
//! that tie each method to these functions, and `laws` proves the engine's
//! protocol properties over them.

use vstd::prelude::*;
use crate::kitten::STATE_SIZE_U8;
use crate::kitten::permute_spec;

verus! {

/// Security parameter in bits, fixed for the whole construction.
pub const SECURITY_PARAM: usize = 128;

/// The sponge rate in bytes: state size minus twice the security parameter in
/// bytes, minus two framing bytes.
pub const MEOW_R: u8 = 166;

/// How many state bytes `ratchet` erases: the security parameter in bytes.
pub const RATCHET_LEN: usize = SECURITY_PARAM / 8;

/// Inbound flag: set when receiving data.
pub const FLAG_I: u8 = 0x01;

/// Application flag: data moves to or from the application.
pub const FLAG_A: u8 = 0x02;

/// Cipher flag: the output depends on the cipher state.
pub const FLAG_C: u8 = 0x04;

/// Transport flag: the operation sends or receives data on the transport.
pub const FLAG_T: u8 = 0x08;

/// Meta flag: the operation handles framing metadata.
pub const FLAG_M: u8 = 0x10;

/// Keytree flag: reserved and unimplemented; requesting it is a fatal misuse.
pub const FLAG_K: u8 = 0x20;

/// Which end of the transport this instance turned out to be. The role is
/// decided exactly once, on the first transport operation, and lets the two
/// peers absorb byte-identical headers even though one sends and one
/// receives.
#[derive(Clone, Copy)]
pub enum Role {
    /// No transport operation has happened yet.
    Undecided,
    /// This instance sent the first transport message.
    Initiator,
    /// This instance received the first transport message.
    Responder,
}

impl Role {
    /// The one-bit wire encoding of a decided role.
    pub open spec fn spec_flag(self) -> u8 {
        match self {
            Role::Undecided => 0,
            Role::Initiator => 0,
            Role::Responder => 1,
        }
    }

    /// The one-bit wire encoding; only a decided role has one.
    pub fn to_flag(self) -> (r: u8)
        requires
            !(self is Undecided),
        ensures
            r == self.spec_flag(),
    {
        match self {
            Role::Undecided => vstd::pervasive::unreached(),
            Role::Initiator => 0,
            Role::Responder => 1,
        }
    }

    /// The role decided by the inbound bit of the first transport operation:
    /// the side that receives becomes the responder.
    pub fn from_inbound(bit: u8) -> (r: Role)
        ensures
            r == role_for_inbound(bit),
    {
        match bit {
            0 => Role::Initiator,
            1 => Role::Responder,
            _ => Role::Undecided,
        }
    }
}

/// Spec twin of `Role::from_inbound`.
pub open spec fn role_for_inbound(bit: u8) -> Role {
    if bit == 0 {
        Role::Initiator
    } else if bit == 1 {
        Role::Responder
    } else {
        Role::Undecided
    }
}

/// The abstract state of one protocol instance.
#[verifier::ext_equal]
pub ghost struct MeowModel {
    /// The 200 sponge state bytes.
    pub state: Seq<u8>,
    /// Next writable rate offset.
    pub pos: u8,
    /// Rate offset at which the current operation's header began.
    pub pos_begin: u8,
    /// The negotiated role.
    pub role: Role,
    /// The flag byte latched by the most recent non-continuation operation.
    pub cur_flags: u8,
}

impl MeowModel {
    /// Well-formedness: full state, cursor strictly inside the rate.
    pub open spec fn wf(self) -> bool {
        &&& self.state.len() == STATE_SIZE_U8
        &&& self.pos < MEOW_R
    }
}

/// XOR on bytes is self-inverse: re-XORing the state byte into an exchanged
/// byte gives back the other operand, and an XOR is zero exactly on equal
/// operands. The exchange primitive and the MAC check rest on this.
pub(crate) proof fn lemma_xor_cancel(s: u8, b: u8)
    by (bit_vector)
    ensures
        s ^ (s ^ b) == b,
        (s ^ b) ^ s == b,
        (s ^ b == 0) <==> (s == b),
{
}

/// `n` zero bytes.
pub open spec fn zeros(n: nat) -> Seq<u8> {
    Seq::new(n, |i: int| 0u8)
}

/// Every byte of `s` is zero.
pub open spec fn all_zero(s: Seq<u8>) -> bool {
    forall|i: int| 0 <= i < s.len() ==> s[i] == 0
}

/// The six byte-wise duplex primitives. Each touches the state byte at the
/// cursor and possibly emits an output byte.
pub ghost enum Prim {
    /// XOR input into the state.
    Absorb,
    /// XOR input into the state and emit the new state byte (encrypt).
    AbsorbAndSet,
    /// Replace the state byte by the input (keying).
    Overwrite,
    /// Emit state XOR input and commit the input into the state (decrypt).
    Exchange,
    /// Emit the state byte, leaving it unchanged (MAC tag).
    Copy,
    /// Emit the state byte and erase it (PRF output, forward secret).
    Squeeze,
}

/// The new state byte a primitive leaves at the cursor, given the old state
/// byte `s` and the input byte `b`.
pub open spec fn prim_st(p: Prim, s: u8, b: u8) -> u8 {
    match p {
        Prim::Absorb => s ^ b,
        Prim::AbsorbAndSet => s ^ b,
        Prim::Overwrite => b,
        Prim::Exchange => b,
        Prim::Copy => s,
        Prim::Squeeze => 0,
    }
}

/// The output byte a primitive emits, given the old state byte `s` and the
/// input byte `b`. Primitives without output emit zero, which is ignored.
pub open spec fn prim_out(p: Prim, s: u8, b: u8) -> u8 {
    match p {
        Prim::Absorb => 0,
        Prim::AbsorbAndSet => s ^ b,
        Prim::Overwrite => 0,
        Prim::Exchange => s ^ b,
        Prim::Copy => s,
        Prim::Squeeze => s,
    }
}

/// The framing step: fold the operation's start offset and the frame mask
/// into the bytes at the cursor, flip the first capacity byte, permute, and
/// reset the cursor. Runs when the cursor reaches the rate boundary or when
/// an operation forces a fresh frame.
pub open spec fn spec_run_f(m: MeowModel) -> MeowModel {
    let s1 = m.state.update(m.pos as int, m.state[m.pos as int] & m.pos_begin);
    let s2 = s1.update(m.pos as int + 1, s1[m.pos as int + 1] & 0x04);
    let s3 = s2.update(MEOW_R as int + 1, s2[MEOW_R as int + 1] ^ 0x80);
    MeowModel { state: permute_spec(s3), pos: 0, pos_begin: 0, ..m }
}

/// Move the cursor one byte forward, framing and permuting at the rate
/// boundary.
pub open spec fn spec_advance(m: MeowModel) -> MeowModel {
    let m1 = MeowModel { pos: (m.pos + 1) as u8, ..m };
    if m1.pos == MEOW_R {
        spec_run_f(m1)
    } else {
        m1
    }
}

/// One primitive step: update the state byte at the cursor and advance.
pub open spec fn spec_prim_one(p: Prim, m: MeowModel, b: u8) -> MeowModel {
    spec_advance(
        MeowModel { state: m.state.update(m.pos as int, prim_st(p, m.state[m.pos as int], b)), ..m },
    )
}

/// The output byte of one primitive step.
pub open spec fn spec_prim_out_one(p: Prim, m: MeowModel, b: u8) -> u8 {
    prim_out(p, m.state[m.pos as int], b)
}

/// A primitive run over a whole input: the resulting model.
pub open spec fn spec_prim(p: Prim, m: MeowModel, data: Seq<u8>) -> MeowModel
    decreases data.len(),
{
    if data.len() == 0 {
        m
    } else {
        spec_prim_one(p, spec_prim(p, m, data.drop_last()), data.last())
    }
}

/// A primitive run over a whole input: the emitted output bytes.
pub open spec fn spec_prim_outs(p: Prim, m: MeowModel, data: Seq<u8>) -> Seq<u8>
    decreases data.len(),
{
    if data.len() == 0 {
        Seq::empty()
    } else {
        spec_prim_outs(p, m, data.drop_last()).push(
            spec_prim_out_one(p, spec_prim(p, m, data.drop_last()), data.last()),
        )
    }
}

/// The role after an operation with flag byte `flags` begins: the first
/// transport operation decides it from the inbound bit; afterwards it is
/// fixed.
pub open spec fn begin_role(m: MeowModel, flags: u8) -> Role {
    if flags & FLAG_T != 0 && m.role is Undecided {
        role_for_inbound(flags & FLAG_I)
    } else {
        m.role
    }
}

/// The header flag byte actually absorbed: for transport operations the
/// decided role's bit is folded in, so both peers absorb identical bytes.
pub open spec fn begin_wire_flags(m: MeowModel, flags: u8) -> u8 {
    if flags & FLAG_T != 0 {
        flags ^ begin_role(m, flags).spec_flag()
    } else {
        flags
    }
}

/// Whether beginning an operation is legal: a continuation must repeat the
/// latched flags exactly.
pub open spec fn begin_ok(m: MeowModel, flags: u8, more: bool) -> bool {
    more ==> m.cur_flags == flags
}

/// Begin an operation: latch the flags, decide the role if this is the first
/// transport operation, absorb the two header bytes (prior frame offset,
/// role-adjusted flags), and force a fresh frame for cipher operations. A
/// continuation changes nothing.
pub open spec fn spec_begin_op(m: MeowModel, flags: u8, more: bool) -> MeowModel {
    if more {
        m
    } else {
        let wire = begin_wire_flags(m, flags);
        let m1 = MeowModel {
            cur_flags: flags,
            role: begin_role(m, flags),
            pos_begin: (m.pos + 1) as u8,
            ..m
        };
        let m2 = spec_prim(Prim::Absorb, m1, seq![m.pos_begin, wire]);
        if wire & (FLAG_C | FLAG_K) != 0 && m2.pos != 0 {
            spec_run_f(m2)
        } else {
            m2
        }
    }
}

/// Absorb additional data (`ad`, and `meta_ad` with the meta flag).
pub open spec fn spec_ad(m: MeowModel, data: Seq<u8>, more: bool, meta: bool) -> MeowModel {
    spec_prim(Prim::Absorb, spec_begin_op(m, if meta { FLAG_M | FLAG_A } else { FLAG_A }, more), data)
}

/// Overwrite state bytes with a secret key.
pub open spec fn spec_key(m: MeowModel, data: Seq<u8>, more: bool) -> MeowModel {
    spec_prim(Prim::Overwrite, spec_begin_op(m, FLAG_A | FLAG_C, more), data)
}

/// The flag byte of the cleartext send/receive family.
pub open spec fn clr_flags(inbound: bool, meta: bool) -> u8 {
    if inbound && meta {
        FLAG_M | FLAG_I | FLAG_A | FLAG_T
    } else if inbound {
        FLAG_I | FLAG_A | FLAG_T
    } else if meta {
        FLAG_M | FLAG_A | FLAG_T
    } else {
        FLAG_A | FLAG_T
    }
}

/// Send or receive cleartext: both sides absorb the payload.
pub open spec fn spec_clr(m: MeowModel, data: Seq<u8>, more: bool, inbound: bool, meta: bool) -> MeowModel {
    spec_prim(Prim::Absorb, spec_begin_op(m, clr_flags(inbound, meta), more), data)
}

/// The flag byte of the encrypting send/receive family.
pub open spec fn enc_flags(inbound: bool, meta: bool) -> u8 {
    if inbound && meta {
        FLAG_M | FLAG_I | FLAG_A | FLAG_C | FLAG_T
    } else if inbound {
        FLAG_I | FLAG_A | FLAG_C | FLAG_T
    } else if meta {
        FLAG_M | FLAG_A | FLAG_C | FLAG_T
    } else {
        FLAG_A | FLAG_C | FLAG_T
    }
}

/// Encrypt in place: the resulting model and the ciphertext.
pub open spec fn spec_send_enc(m: MeowModel, data: Seq<u8>, more: bool, meta: bool) -> (
    MeowModel,
    Seq<u8>,
) {
    let m1 = spec_begin_op(m, enc_flags(false, meta), more);
    (spec_prim(Prim::AbsorbAndSet, m1, data), spec_prim_outs(Prim::AbsorbAndSet, m1, data))
}

/// Decrypt in place: the resulting model and the plaintext.
pub open spec fn spec_recv_enc(m: MeowModel, data: Seq<u8>, more: bool, meta: bool) -> (
    MeowModel,
    Seq<u8>,
) {
    let m1 = spec_begin_op(m, enc_flags(true, meta), more);
    (spec_prim(Prim::Exchange, m1, data), spec_prim_outs(Prim::Exchange, m1, data))
}

/// The flag byte of the MAC family.
pub open spec fn mac_flags(inbound: bool, meta: bool) -> u8 {
    if inbound && meta {
        FLAG_M | FLAG_I | FLAG_C | FLAG_T
    } else if inbound {
        FLAG_I | FLAG_C | FLAG_T
    } else if meta {
        FLAG_M | FLAG_C | FLAG_T
    } else {
        FLAG_C | FLAG_T
    }
}

/// Emit a MAC tag of `n` bytes: the resulting model and the tag. The copy
/// primitive ignores its input bytes, so they are fixed to zero here.
pub open spec fn spec_send_mac(m: MeowModel, n: nat, meta: bool) -> (MeowModel, Seq<u8>) {
    let m1 = spec_begin_op(m, mac_flags(false, meta), false);
    (spec_prim(Prim::Copy, m1, zeros(n)), spec_prim_outs(Prim::Copy, m1, zeros(n)))
}

/// Verify a received MAC tag: the resulting model and the exchanged bytes.
/// Verification succeeds exactly when every exchanged byte is zero.
pub open spec fn spec_recv_mac(m: MeowModel, tag: Seq<u8>, meta: bool) -> (MeowModel, Seq<u8>) {
    let m1 = spec_begin_op(m, mac_flags(true, meta), false);
    (spec_prim(Prim::Exchange, m1, tag), spec_prim_outs(Prim::Exchange, m1, tag))
}

/// Whether a received MAC tag verifies.
pub open spec fn spec_recv_mac_ok(m: MeowModel, tag: Seq<u8>, meta: bool) -> bool {
    all_zero(spec_recv_mac(m, tag, meta).1)
}

/// Squeeze `n` PRF bytes: the resulting model and the output. The squeeze
/// primitive ignores its input bytes, so they are fixed to zero here.
pub open spec fn spec_prf(m: MeowModel, n: nat, more: bool) -> (MeowModel, Seq<u8>) {
    let m1 = spec_begin_op(m, FLAG_I | FLAG_A | FLAG_C, more);
    (spec_prim(Prim::Squeeze, m1, zeros(n)), spec_prim_outs(Prim::Squeeze, m1, zeros(n)))
}

/// Erase `n` state bytes to cut the state off from its past (ratcheting).
pub open spec fn spec_ratchet_many(m: MeowModel, n: nat, more: bool) -> MeowModel {
    spec_prim(Prim::Overwrite, spec_begin_op(m, FLAG_C, more), zeros(n))
}

/// Byte `i` of the initial, pre-permutation state: the six-byte sponge
/// header, then the fixed context string, then zeros.
pub open spec fn init_byte(i: int) -> u8 {
    if i == 0 {
        0x01
    } else if i == 1 {
        (MEOW_R + 2) as u8
    } else if i == 2 {
        0x01
    } else if i == 3 {
        0x00
    } else if i == 4 {
        0x01
    } else if i == 5 {
        0x60
    } else if i == 6 {
        0x4d  // 'M'
    } else if i == 7 {
        0x65  // 'e'
    } else if i == 8 {
        0x6f  // 'o'
    } else if i == 9 {
        0x77  // 'w'
    } else if i == 10 {
        0x20  // ' '
    } else if i == 11 {
        0x76  // 'v'
    } else if i == 12 {
        0x30  // '0'
    } else if i == 13 {
        0x2e  // '.'
    } else if i == 14 {
        0x31  // '1'
    } else if i == 15 {
        0x2e  // '.'
    } else if i == 16 {
        0x30  // '0'
    } else {
        0
    }
}

/// The initial 200 state bytes, before the first permutation.
pub open spec fn init_bytes() -> Seq<u8> {
    Seq::new(STATE_SIZE_U8 as nat, |i: int| init_byte(i))
}

/// A fresh instance: zero-filled state with the fixed header and context
/// string, permuted once, then the caller's protocol label absorbed as
/// metadata.
pub open spec fn spec_new(protocol: Seq<u8>) -> MeowModel {
    let m0 = MeowModel {
        state: permute_spec(init_bytes()),
        pos: 0,
        pos_begin: 0,
        role: Role::Undecided,
        cur_flags: 0,
    };
    spec_ad(m0, protocol, false, true)
}

/// The model with every field erased, left by `wipe`.
pub open spec fn wiped_model() -> MeowModel {
    MeowModel {
        state: zeros(STATE_SIZE_U8 as nat),
        pos: 0,
        pos_begin: 0,
        role: Role::Undecided,
        cur_flags: 0,
    }
}

} // verus!
