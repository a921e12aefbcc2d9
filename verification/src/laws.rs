//! The engine's protocol laws, proved over the model.
//!
//! Two instances are *synchronized* when they agree on the sponge state and
//! the cursor; the negotiated roles of two peers are *dual*. The laws here
//! show that a matched pair of send/receive calls keeps two synchronized
//! instances synchronized, that encryption round-trips, that exactly the
//! MAC the sender emitted verifies, that streaming an operation equals one
//! whole call, and that synchronized instances squeeze identical output.

use vstd::prelude::*;
use crate::kitten::permute_spec;
use crate::model::FLAG_A;
use crate::model::FLAG_C;
use crate::model::FLAG_I;
use crate::model::FLAG_K;
use crate::model::FLAG_M;
use crate::model::FLAG_T;
use crate::model::RATCHET_LEN;
use crate::model::MeowModel;
use crate::model::Prim;
use crate::model::Role;
use crate::model::all_zero;
use crate::model::begin_role;
use crate::model::begin_wire_flags;
use crate::model::clr_flags;
use crate::model::enc_flags;
use crate::model::mac_flags;
use crate::model::spec_ad;
use crate::model::spec_advance;
use crate::model::spec_begin_op;
use crate::model::spec_clr;
use crate::model::spec_key;
use crate::model::spec_new;
use crate::model::spec_prf;
use crate::model::spec_prim;
use crate::model::spec_prim_one;
use crate::model::spec_prim_out_one;
use crate::model::spec_prim_outs;
use crate::model::spec_ratchet_many;
use crate::model::spec_recv_enc;
use crate::model::spec_recv_mac;
use crate::model::spec_recv_mac_ok;
use crate::model::spec_run_f;
use crate::model::spec_send_enc;
use crate::model::spec_send_mac;
use crate::model::zeros;

verus! {

/// Two instances agree on everything the sponge computes from: the state
/// bytes and the two cursor fields. Role and latched flags may differ.
pub open spec fn synced(a: MeowModel, b: MeowModel) -> bool {
    &&& a.state == b.state
    &&& a.pos == b.pos
    &&& a.pos_begin == b.pos_begin
}

/// The roles of two peers are dual: both still undecided, or one initiator
/// and one responder.
pub open spec fn roles_dual(a: Role, b: Role) -> bool {
    ||| (a is Undecided && b is Undecided)
    ||| (a is Initiator && b is Responder)
    ||| (a is Responder && b is Initiator)
}

/// The framing step yields a well-formed model on any input of full length.
proof fn lemma_run_f_wf(m: MeowModel)
    ensures
        spec_run_f(m).wf(),
        spec_run_f(m).role == m.role,
        spec_run_f(m).cur_flags == m.cur_flags,
{
}

/// Advancing preserves well-formedness, role and latched flags.
proof fn lemma_advance_wf(m: MeowModel)
    requires
        m.wf(),
    ensures
        spec_advance(m).wf(),
        spec_advance(m).role == m.role,
        spec_advance(m).cur_flags == m.cur_flags,
{
}

/// One primitive step preserves well-formedness, role and latched flags.
proof fn lemma_prim_one_wf(p: Prim, m: MeowModel, b: u8)
    requires
        m.wf(),
    ensures
        spec_prim_one(p, m, b).wf(),
        spec_prim_one(p, m, b).role == m.role,
        spec_prim_one(p, m, b).cur_flags == m.cur_flags,
{
    lemma_advance_wf(
        MeowModel { state: m.state.update(m.pos as int, crate::model::prim_st(p, m.state[m.pos as int], b)), ..m },
    );
}

/// A primitive run preserves well-formedness, role and latched flags.
proof fn lemma_prim_wf(p: Prim, m: MeowModel, d: Seq<u8>)
    requires
        m.wf(),
    ensures
        spec_prim(p, m, d).wf(),
        spec_prim(p, m, d).role == m.role,
        spec_prim(p, m, d).cur_flags == m.cur_flags,
    decreases d.len(),
{
    if d.len() > 0 {
        lemma_prim_wf(p, m, d.drop_last());
        lemma_prim_one_wf(p, spec_prim(p, m, d.drop_last()), d.last());
    }
}

/// A primitive run never touches the role or the latched flags.
pub(crate) proof fn lemma_prim_frame(p: Prim, m: MeowModel, d: Seq<u8>)
    ensures
        spec_prim(p, m, d).role == m.role,
        spec_prim(p, m, d).cur_flags == m.cur_flags,
    decreases d.len(),
{
    if d.len() > 0 {
        lemma_prim_frame(p, m, d.drop_last());
    }
}

/// A primitive run emits exactly one output byte per input byte.
proof fn lemma_outs_len(p: Prim, m: MeowModel, d: Seq<u8>)
    ensures
        spec_prim_outs(p, m, d).len() == d.len(),
    decreases d.len(),
{
    if d.len() > 0 {
        lemma_outs_len(p, m, d.drop_last());
    }
}

/// Beginning an operation preserves well-formedness and latches the flags;
/// the role becomes the decided one.
proof fn lemma_begin_wf(m: MeowModel, flags: u8, more: bool)
    requires
        m.wf(),
    ensures
        spec_begin_op(m, flags, more).wf(),
        more ==> spec_begin_op(m, flags, more) == m,
        !more ==> spec_begin_op(m, flags, more).cur_flags == flags,
        !more ==> spec_begin_op(m, flags, more).role == begin_role(m, flags),
    decreases 1int,
{
    if !more {
        let wire = begin_wire_flags(m, flags);
        let m1 = MeowModel {
            cur_flags: flags,
            role: begin_role(m, flags),
            pos_begin: (m.pos + 1) as u8,
            ..m
        };
        lemma_prim_wf(Prim::Absorb, m1, seq![m.pos_begin, wire]);
        let m2 = spec_prim(Prim::Absorb, m1, seq![m.pos_begin, wire]);
        if wire & (FLAG_C | FLAG_K) != 0 && m2.pos != 0 {
            lemma_run_f_wf(m2);
        }
    }
}

/// Beginning an operation latches its flags and decides the role.
pub(crate) proof fn lemma_begin_frame(m: MeowModel, flags: u8)
    ensures
        spec_begin_op(m, flags, false).cur_flags == flags,
        spec_begin_op(m, flags, false).role == begin_role(m, flags),
{
    let wire = begin_wire_flags(m, flags);
    let m1 = MeowModel {
        cur_flags: flags,
        role: begin_role(m, flags),
        pos_begin: (m.pos + 1) as u8,
        ..m
    };
    lemma_prim_frame(Prim::Absorb, m1, seq![m.pos_begin, wire]);
}

/// The framing step keeps two synchronized instances synchronized.
proof fn lemma_run_f_synced(a: MeowModel, b: MeowModel)
    requires
        synced(a, b),
    ensures
        synced(spec_run_f(a), spec_run_f(b)),
{
}

/// Advancing keeps two synchronized instances synchronized.
proof fn lemma_advance_synced(a: MeowModel, b: MeowModel)
    requires
        synced(a, b),
    ensures
        synced(spec_advance(a), spec_advance(b)),
{
}

/// One identical primitive step keeps two synchronized instances
/// synchronized and emits the same output byte on both.
proof fn lemma_prim_one_synced(p: Prim, a: MeowModel, b: MeowModel, x: u8)
    requires
        synced(a, b),
    ensures
        synced(spec_prim_one(p, a, x), spec_prim_one(p, b, x)),
        spec_prim_out_one(p, a, x) == spec_prim_out_one(p, b, x),
{
    lemma_advance_synced(
        MeowModel { state: a.state.update(a.pos as int, crate::model::prim_st(p, a.state[a.pos as int], x)), ..a },
        MeowModel { state: b.state.update(b.pos as int, crate::model::prim_st(p, b.state[b.pos as int], x)), ..b },
    );
}

/// An identical primitive run over the same input keeps two synchronized
/// instances synchronized and emits the same output on both.
proof fn lemma_prim_synced(p: Prim, a: MeowModel, b: MeowModel, d: Seq<u8>)
    requires
        synced(a, b),
    ensures
        synced(spec_prim(p, a, d), spec_prim(p, b, d)),
        spec_prim_outs(p, a, d) == spec_prim_outs(p, b, d),
    decreases d.len(),
{
    if d.len() > 0 {
        lemma_prim_synced(p, a, b, d.drop_last());
        lemma_prim_one_synced(
            p,
            spec_prim(p, a, d.drop_last()),
            spec_prim(p, b, d.drop_last()),
            d.last(),
        );
    }
}

/// Beginning the same non-transport operation on two synchronized instances
/// keeps them synchronized and leaves both roles unchanged.
proof fn lemma_begin_same(a: MeowModel, b: MeowModel, flags: u8, more: bool)
    requires
        synced(a, b),
        flags & FLAG_T == 0,
    ensures
        synced(spec_begin_op(a, flags, more), spec_begin_op(b, flags, more)),
        spec_begin_op(a, flags, more).role == a.role,
        spec_begin_op(b, flags, more).role == b.role,
{
    if !more {
        let a1 = MeowModel {
            cur_flags: flags,
            role: begin_role(a, flags),
            pos_begin: (a.pos + 1) as u8,
            ..a
        };
        let b1 = MeowModel {
            cur_flags: flags,
            role: begin_role(b, flags),
            pos_begin: (b.pos + 1) as u8,
            ..b
        };
        lemma_prim_synced(Prim::Absorb, a1, b1, seq![a.pos_begin, flags]);
        lemma_prim_frame(Prim::Absorb, a1, seq![a.pos_begin, flags]);
        lemma_prim_frame(Prim::Absorb, b1, seq![b.pos_begin, flags]);
        let a2 = spec_prim(Prim::Absorb, a1, seq![a.pos_begin, flags]);
        let b2 = spec_prim(Prim::Absorb, b1, seq![b.pos_begin, flags]);
        if flags & (FLAG_C | FLAG_K) != 0 && a2.pos != 0 {
            lemma_run_f_synced(a2, b2);
        }
    }
}

/// Beginning a matched pair of transport operations — the sender without the
/// inbound bit, the receiver with it — on two synchronized instances with
/// dual roles keeps them synchronized, keeps the roles dual, and absorbs
/// byte-identical headers on both sides.
proof fn lemma_begin_dual(a: MeowModel, b: MeowModel, flags: u8)
    requires
        synced(a, b),
        roles_dual(a.role, b.role),
        flags & FLAG_T != 0,
        flags & FLAG_I == 0,
    ensures
        synced(spec_begin_op(a, flags, false), spec_begin_op(b, (flags | FLAG_I), false)),
        roles_dual(spec_begin_op(a, flags, false).role, spec_begin_op(b, (flags | FLAG_I), false).role),
{
    let fi = flags | FLAG_I;
    assert((flags | 0x01u8) & 0x08u8 == flags & 0x08u8) by (bit_vector);
    assert((flags | 0x01u8) & 0x01u8 == 1u8) by (bit_vector);
    assert(flags & 0x01u8 == 0u8 ==> ((flags | 0x01u8) ^ 1u8 == flags ^ 0u8 && flags ^ 1u8 == (
    flags | 0x01u8) ^ 0u8)) by (bit_vector);
    let ra = begin_role(a, flags);
    let rb = begin_role(b, fi);
    assert(roles_dual(ra, rb));
    let wa = begin_wire_flags(a, flags);
    let wb = begin_wire_flags(b, fi);
    assert(wa == wb);
    let a1 = MeowModel { cur_flags: flags, role: ra, pos_begin: (a.pos + 1) as u8, ..a };
    let b1 = MeowModel { cur_flags: fi, role: rb, pos_begin: (b.pos + 1) as u8, ..b };
    lemma_prim_synced(Prim::Absorb, a1, b1, seq![a.pos_begin, wa]);
    lemma_prim_frame(Prim::Absorb, a1, seq![a.pos_begin, wa]);
    lemma_prim_frame(Prim::Absorb, b1, seq![b.pos_begin, wb]);
    let a2 = spec_prim(Prim::Absorb, a1, seq![a.pos_begin, wa]);
    let b2 = spec_prim(Prim::Absorb, b1, seq![b.pos_begin, wb]);
    assert(seq![a.pos_begin, wa] == seq![b.pos_begin, wb]);
    if wa & (FLAG_C | FLAG_K) != 0 && a2.pos != 0 {
        lemma_run_f_synced(a2, b2);
    }
}

/// Exchanging the bytes that absorb-and-set emitted gives back the original
/// input, and leaves the two instances synchronized: one encrypt step and
/// the matching decrypt step commit the same bytes on both sides.
proof fn lemma_enc_pair_prim(a: MeowModel, b: MeowModel, p: Seq<u8>)
    requires
        synced(a, b),
    ensures
        spec_prim_outs(Prim::Exchange, b, spec_prim_outs(Prim::AbsorbAndSet, a, p)) == p,
        synced(
            spec_prim(Prim::AbsorbAndSet, a, p),
            spec_prim(Prim::Exchange, b, spec_prim_outs(Prim::AbsorbAndSet, a, p)),
        ),
    decreases p.len(),
{
    let c = spec_prim_outs(Prim::AbsorbAndSet, a, p);
    lemma_outs_len(Prim::AbsorbAndSet, a, p);
    if p.len() == 0 {
        assert(c =~= Seq::<u8>::empty());
        assert(spec_prim_outs(Prim::Exchange, b, c) =~= p);
    } else {
        let p0 = p.drop_last();
        let x = p.last();
        lemma_enc_pair_prim(a, b, p0);
        let c0 = spec_prim_outs(Prim::AbsorbAndSet, a, p0);
        let a0 = spec_prim(Prim::AbsorbAndSet, a, p0);
        let b0 = spec_prim(Prim::Exchange, b, c0);
        let s = a0.state[a0.pos as int];
        let cx = spec_prim_out_one(Prim::AbsorbAndSet, a0, x);
        assert(c == c0.push(cx));
        assert(c.drop_last() =~= c0);
        assert(c.last() == cx);
        crate::model::lemma_xor_cancel(s, x);
        assert(spec_prim_out_one(Prim::Exchange, b0, cx) == x);
        assert(spec_prim_outs(Prim::Exchange, b, c) == spec_prim_outs(
            Prim::Exchange,
            b,
            c0,
        ).push(x));
        assert(p0.push(x) =~= p);
        lemma_advance_synced(
            MeowModel {
                state: a0.state.update(
                    a0.pos as int,
                    crate::model::prim_st(Prim::AbsorbAndSet, s, x),
                ),
                ..a0
            },
            MeowModel {
                state: b0.state.update(
                    b0.pos as int,
                    crate::model::prim_st(Prim::Exchange, b0.state[b0.pos as int], cx),
                ),
                ..b0
            },
        );
    }
}

/// Exchanging a received tag against the state leaves all-zero bytes exactly
/// when the tag equals the bytes that the synchronized sender's copy run
/// emitted; and on the genuine tag the two instances stay synchronized.
proof fn lemma_mac_pair_prim(a: MeowModel, b: MeowModel, t: Seq<u8>)
    requires
        synced(a, b),
    ensures
        all_zero(spec_prim_outs(Prim::Exchange, b, t)) <==> t == spec_prim_outs(
            Prim::Copy,
            a,
            zeros(t.len()),
        ),
        t == spec_prim_outs(Prim::Copy, a, zeros(t.len())) ==> synced(
            spec_prim(Prim::Copy, a, zeros(t.len())),
            spec_prim(Prim::Exchange, b, t),
        ),
    decreases t.len(),
{
    let n = t.len();
    let tag = spec_prim_outs(Prim::Copy, a, zeros(n));
    lemma_outs_len(Prim::Copy, a, zeros(n));
    if n == 0 {
        assert(zeros(0) =~= Seq::<u8>::empty());
        assert(t =~= tag);
        assert(spec_prim_outs(Prim::Exchange, b, t) =~= Seq::<u8>::empty());
    } else {
        let t0 = t.drop_last();
        let x = t.last();
        lemma_mac_pair_prim(a, b, t0);
        assert(zeros(n).drop_last() =~= zeros(t0.len()));
        let tag0 = spec_prim_outs(Prim::Copy, a, zeros(t0.len()));
        let a0 = spec_prim(Prim::Copy, a, zeros(t0.len()));
        let b0 = spec_prim(Prim::Exchange, b, t0);
        let s = a0.state[a0.pos as int];
        assert(tag == tag0.push(s));
        lemma_outs_len(Prim::Copy, a, zeros(t0.len()));
        let prefix = spec_prim_outs(Prim::Exchange, b, t0);
        let v = spec_prim_out_one(Prim::Exchange, b0, x);
        let eo = spec_prim_outs(Prim::Exchange, b, t);
        assert(eo == prefix.push(v));
        lemma_outs_len(Prim::Exchange, b, t0);
        crate::model::lemma_xor_cancel(s, x);
        if all_zero(eo) {
            assert forall|i: int| 0 <= i < prefix.len() implies prefix[i] == 0 by {
                assert(eo[i] == prefix[i]);
            }
            assert(t0 == tag0);
            assert(synced(a0, b0));
            assert(v == b0.state[b0.pos as int] ^ x);
            assert(eo[eo.len() - 1] == v);
            assert(v == 0);
            assert(x == s);
            assert(t =~= tag0.push(s));
        }
        if t == tag {
            assert(t0 =~= tag.drop_last());
            assert(tag.drop_last() =~= tag0);
            assert(x == tag.last());
            assert(tag.last() == s);
            assert(all_zero(prefix));
            assert(synced(a0, b0));
            assert(v == s ^ s);
            assert(v == 0) by {
                crate::model::lemma_xor_cancel(s, s);
            }
            assert forall|i: int| 0 <= i < eo.len() implies eo[i] == 0 by {
                if i < prefix.len() {
                    assert(eo[i] == prefix[i]);
                } else {
                    assert(eo[i] == v);
                }
            }
            lemma_advance_synced(
                MeowModel {
                    state: a0.state.update(
                        a0.pos as int,
                        crate::model::prim_st(Prim::Copy, s, 0),
                    ),
                    ..a0
                },
                MeowModel {
                    state: b0.state.update(
                        b0.pos as int,
                        crate::model::prim_st(Prim::Exchange, b0.state[b0.pos as int], x),
                    ),
                    ..b0
                },
            );
        }
    }
}

/// The flag-byte arithmetic the laws rest on: which operation families carry
/// the transport bit, that no sender flag byte carries the inbound bit, and
/// that each receiver flag byte is its sender twin with the inbound bit set.
proof fn lemma_flag_facts()
    by (bit_vector)
    ensures
        FLAG_A & FLAG_T == 0,
        (FLAG_M | FLAG_A) & FLAG_T == 0,
        (FLAG_A | FLAG_C) & FLAG_T == 0,
        (FLAG_I | FLAG_A | FLAG_C) & FLAG_T == 0,
        FLAG_C & FLAG_T == 0,
        (FLAG_A | FLAG_T) & FLAG_T != 0,
        (FLAG_A | FLAG_T) & FLAG_I == 0,
        (FLAG_I | FLAG_A | FLAG_T) == (FLAG_A | FLAG_T) | FLAG_I,
        (FLAG_M | FLAG_A | FLAG_T) & FLAG_T != 0,
        (FLAG_M | FLAG_A | FLAG_T) & FLAG_I == 0,
        (FLAG_M | FLAG_I | FLAG_A | FLAG_T) == (FLAG_M | FLAG_A | FLAG_T) | FLAG_I,
        (FLAG_A | FLAG_C | FLAG_T) & FLAG_T != 0,
        (FLAG_A | FLAG_C | FLAG_T) & FLAG_I == 0,
        (FLAG_I | FLAG_A | FLAG_C | FLAG_T) == (FLAG_A | FLAG_C | FLAG_T) | FLAG_I,
        (FLAG_M | FLAG_A | FLAG_C | FLAG_T) & FLAG_T != 0,
        (FLAG_M | FLAG_A | FLAG_C | FLAG_T) & FLAG_I == 0,
        (FLAG_M | FLAG_I | FLAG_A | FLAG_C | FLAG_T) == (FLAG_M | FLAG_A | FLAG_C | FLAG_T)
            | FLAG_I,
        (FLAG_C | FLAG_T) & FLAG_T != 0,
        (FLAG_C | FLAG_T) & FLAG_I == 0,
        (FLAG_I | FLAG_C | FLAG_T) == (FLAG_C | FLAG_T) | FLAG_I,
        (FLAG_M | FLAG_C | FLAG_T) & FLAG_T != 0,
        (FLAG_M | FLAG_C | FLAG_T) & FLAG_I == 0,
        (FLAG_M | FLAG_I | FLAG_C | FLAG_T) == (FLAG_M | FLAG_C | FLAG_T) | FLAG_I,
{
}

/// A primitive run over a concatenation equals the run over the first part
/// followed by the run over the second, with the outputs concatenated.
proof fn lemma_prim_concat(p: Prim, m: MeowModel, x: Seq<u8>, y: Seq<u8>)
    ensures
        spec_prim(p, m, x + y) == spec_prim(p, spec_prim(p, m, x), y),
        spec_prim_outs(p, m, x + y) == spec_prim_outs(p, m, x) + spec_prim_outs(
            p,
            spec_prim(p, m, x),
            y,
        ),
    decreases y.len(),
{
    let mx = spec_prim(p, m, x);
    if y.len() == 0 {
        assert(x + y =~= x);
        assert(spec_prim_outs(p, mx, y) =~= Seq::<u8>::empty());
        assert(spec_prim_outs(p, m, x) + spec_prim_outs(p, mx, y) =~= spec_prim_outs(p, m, x));
    } else {
        lemma_prim_concat(p, m, x, y.drop_last());
        assert((x + y).drop_last() =~= x + y.drop_last());
        assert((x + y).last() == y.last());
        assert(spec_prim_outs(p, m, x) + spec_prim_outs(p, mx, y.drop_last()).push(
            spec_prim_out_one(p, spec_prim(p, mx, y.drop_last()), y.last()),
        ) =~= (spec_prim_outs(p, m, x) + spec_prim_outs(p, mx, y.drop_last())).push(
            spec_prim_out_one(p, spec_prim(p, mx, y.drop_last()), y.last()),
        ));
    }
}

/// The permutation is deterministic: equal state bytes permute to equal
/// state bytes. The model reads and writes lanes in a fixed little-endian
/// order, so this holds on every host byte order.
pub proof fn lemma_permutation_deterministic(s1: Seq<u8>, s2: Seq<u8>)
    requires
        s1 == s2,
    ensures
        permute_spec(s1) == permute_spec(s2),
{
}

/// Streaming equivalence: absorbing `x` and then continuing with `y` leaves
/// the instance exactly as one call absorbing `x + y`, for any split point;
/// and the first call latches the flags the continuation must repeat.
pub proof fn lemma_ad_streaming(m: MeowModel, x: Seq<u8>, y: Seq<u8>, meta: bool)
    ensures
        spec_ad(spec_ad(m, x, false, meta), y, true, meta) == spec_ad(m, x + y, false, meta),
        spec_ad(m, x, false, meta).cur_flags == (if meta {
            FLAG_M | FLAG_A
        } else {
            FLAG_A
        }),
{
    let f = if meta {
        FLAG_M | FLAG_A
    } else {
        FLAG_A
    };
    let m1 = spec_begin_op(m, f, false);
    lemma_begin_frame(m, f);
    lemma_prim_frame(Prim::Absorb, m1, x);
    lemma_prim_concat(Prim::Absorb, m1, x, y);
}

/// A fresh instance is well formed and its role is still undecided.
proof fn lemma_new_wf(label: Seq<u8>)
    ensures
        spec_new(label).wf(),
        spec_new(label).role is Undecided,
{
    let m0 = MeowModel {
        state: permute_spec(crate::model::init_bytes()),
        pos: 0,
        pos_begin: 0,
        role: Role::Undecided,
        cur_flags: 0,
    };
    lemma_flag_facts();
    lemma_begin_wf(m0, FLAG_M | FLAG_A, false);
    lemma_prim_wf(Prim::Absorb, spec_begin_op(m0, FLAG_M | FLAG_A, false), label);
}

/// A matched cleartext pair: the sender's `send_clr` and the receiver's
/// `recv_clr` over the same payload keep two synchronized instances
/// synchronized and their roles dual.
pub proof fn lemma_clr_pairing(a: MeowModel, b: MeowModel, d: Seq<u8>, meta: bool)
    requires
        a.wf(),
        b.wf(),
        synced(a, b),
        roles_dual(a.role, b.role),
    ensures
        ({
            let a1 = spec_clr(a, d, false, false, meta);
            let b1 = spec_clr(b, d, false, true, meta);
            synced(a1, b1) && roles_dual(a1.role, b1.role) && a1.wf() && b1.wf()
        }),
{
    lemma_flag_facts();
    let f = clr_flags(false, meta);
    assert(clr_flags(true, meta) == f | FLAG_I);
    lemma_begin_dual(a, b, f);
    lemma_begin_wf(a, f, false);
    lemma_begin_wf(b, f | FLAG_I, false);
    let a2 = spec_begin_op(a, f, false);
    let b2 = spec_begin_op(b, f | FLAG_I, false);
    lemma_prim_synced(Prim::Absorb, a2, b2, d);
    lemma_prim_frame(Prim::Absorb, a2, d);
    lemma_prim_frame(Prim::Absorb, b2, d);
    lemma_prim_wf(Prim::Absorb, a2, d);
    lemma_prim_wf(Prim::Absorb, b2, d);
}

/// Round-trip of a matched encrypting pair: decrypting the ciphertext that
/// the synchronized sender emitted recovers the plaintext exactly, and the
/// two instances stay synchronized with dual roles.
pub proof fn lemma_enc_round_trip(a: MeowModel, b: MeowModel, p: Seq<u8>, meta: bool)
    requires
        a.wf(),
        b.wf(),
        synced(a, b),
        roles_dual(a.role, b.role),
    ensures
        ({
            let a1 = spec_send_enc(a, p, false, meta).0;
            let c = spec_send_enc(a, p, false, meta).1;
            let b1 = spec_recv_enc(b, c, false, meta).0;
            let q = spec_recv_enc(b, c, false, meta).1;
            q == p && synced(a1, b1) && roles_dual(a1.role, b1.role) && a1.wf() && b1.wf()
        }),
{
    lemma_flag_facts();
    let f = enc_flags(false, meta);
    assert(enc_flags(true, meta) == f | FLAG_I);
    lemma_begin_dual(a, b, f);
    lemma_begin_wf(a, f, false);
    lemma_begin_wf(b, f | FLAG_I, false);
    let a2 = spec_begin_op(a, f, false);
    let b2 = spec_begin_op(b, f | FLAG_I, false);
    lemma_enc_pair_prim(a2, b2, p);
    let c = spec_prim_outs(Prim::AbsorbAndSet, a2, p);
    lemma_prim_frame(Prim::AbsorbAndSet, a2, p);
    lemma_prim_frame(Prim::Exchange, b2, c);
    lemma_prim_wf(Prim::AbsorbAndSet, a2, p);
    lemma_prim_wf(Prim::Exchange, b2, c);
}

/// Authentication: against a synchronized receiver with dual role, exactly
/// the tag that the sender's `send_mac` emitted verifies — any received tag
/// that differs in even one bit is rejected — and on the genuine tag the
/// two instances stay synchronized.
pub proof fn lemma_mac_auth(a: MeowModel, b: MeowModel, t: Seq<u8>, meta: bool)
    requires
        a.wf(),
        b.wf(),
        synced(a, b),
        roles_dual(a.role, b.role),
    ensures
        ({
            let a1 = spec_send_mac(a, t.len(), meta).0;
            let tag = spec_send_mac(a, t.len(), meta).1;
            let b1 = spec_recv_mac(b, t, meta).0;
            (spec_recv_mac_ok(b, t, meta) <==> t == tag) && (t == tag ==> synced(a1, b1)
                && roles_dual(a1.role, b1.role) && a1.wf() && b1.wf())
        }),
{
    lemma_flag_facts();
    let f = mac_flags(false, meta);
    assert(mac_flags(true, meta) == f | FLAG_I);
    lemma_begin_dual(a, b, f);
    lemma_begin_wf(a, f, false);
    lemma_begin_wf(b, f | FLAG_I, false);
    let a2 = spec_begin_op(a, f, false);
    let b2 = spec_begin_op(b, f | FLAG_I, false);
    lemma_mac_pair_prim(a2, b2, t);
    lemma_prim_frame(Prim::Copy, a2, zeros(t.len()));
    lemma_prim_frame(Prim::Exchange, b2, t);
    lemma_prim_wf(Prim::Copy, a2, zeros(t.len()));
    lemma_prim_wf(Prim::Exchange, b2, t);
}

/// Synchronized instances squeeze identical PRF output and stay
/// synchronized: all transcript output is a function of the shared state.
pub proof fn lemma_prf_synced(a: MeowModel, b: MeowModel, n: nat, more: bool)
    requires
        synced(a, b),
    ensures
        spec_prf(a, n, more).1 == spec_prf(b, n, more).1,
        synced(spec_prf(a, n, more).0, spec_prf(b, n, more).0),
{
    if !more {
        lemma_flag_facts();
        lemma_begin_same(a, b, FLAG_I | FLAG_A | FLAG_C, false);
    }
    lemma_prim_synced(
        Prim::Squeeze,
        spec_begin_op(a, FLAG_I | FLAG_A | FLAG_C, more),
        spec_begin_op(b, FLAG_I | FLAG_A | FLAG_C, more),
        zeros(n),
    );
}

/// Round-trip from fresh instances: keying a fresh instance with any key and
/// encrypting any message, then keying an equal fresh instance and
/// decrypting the ciphertext, recovers the message exactly.
pub proof fn lemma_round_trip(label: Seq<u8>, key: Seq<u8>, msg: Seq<u8>)
    ensures
        ({
            let sender = spec_key(spec_new(label), key, false);
            let receiver = spec_key(spec_new(label), key, false);
            spec_recv_enc(receiver, spec_send_enc(sender, msg, false, false).1, false, false).1
                == msg
        }),
{
    lemma_new_wf(label);
    lemma_flag_facts();
    let m0 = spec_new(label);
    lemma_begin_wf(m0, FLAG_A | FLAG_C, false);
    let m1 = spec_begin_op(m0, FLAG_A | FLAG_C, false);
    lemma_prim_wf(Prim::Overwrite, m1, key);
    let m = spec_key(m0, key, false);
    assert(m.role is Undecided);
    lemma_enc_round_trip(m, m, msg, false);
}

/// One command of a two-party transcript. The boolean of `Clr` and `Enc`
/// says which party sends: the first instance when it is true.
pub ghost enum Cmd {
    /// Both parties absorb the same associated data.
    Ad(Seq<u8>),
    /// One party sends cleartext; the other receives the same bytes.
    Clr(bool, Seq<u8>),
    /// One party encrypts a plaintext; the other decrypts the ciphertext.
    Enc(bool, Seq<u8>),
    /// Both parties squeeze this many PRF bytes.
    Prf(nat),
    /// The first party emits a MAC of this length; the other verifies it.
    Mac(nat),
    /// Both parties ratchet.
    Ratchet,
}

/// Run one command on a pair of instances: the two resulting instances, the
/// PRF bytes the first party derived, and whether every check of the step
/// passed — the receiver recovered the sent plaintext, the MAC verified,
/// and the two PRF outputs agreed.
pub open spec fn step_pair(a: MeowModel, b: MeowModel, c: Cmd) -> (
    MeowModel,
    MeowModel,
    Seq<u8>,
    bool,
) {
    match c {
        Cmd::Ad(d) => (
            spec_ad(a, d, false, false),
            spec_ad(b, d, false, false),
            Seq::empty(),
            true,
        ),
        Cmd::Clr(swap, d) => if swap {
            (
                spec_clr(a, d, false, false, false),
                spec_clr(b, d, false, true, false),
                Seq::empty(),
                true,
            )
        } else {
            (
                spec_clr(a, d, false, true, false),
                spec_clr(b, d, false, false, false),
                Seq::empty(),
                true,
            )
        },
        Cmd::Enc(swap, d) => if swap {
            let a1 = spec_send_enc(a, d, false, false).0;
            let ct = spec_send_enc(a, d, false, false).1;
            let b1 = spec_recv_enc(b, ct, false, false).0;
            let q = spec_recv_enc(b, ct, false, false).1;
            (a1, b1, Seq::empty(), q == d)
        } else {
            let b1 = spec_send_enc(b, d, false, false).0;
            let ct = spec_send_enc(b, d, false, false).1;
            let a1 = spec_recv_enc(a, ct, false, false).0;
            let q = spec_recv_enc(a, ct, false, false).1;
            (a1, b1, Seq::empty(), q == d)
        },
        Cmd::Prf(n) => (
            spec_prf(a, n, false).0,
            spec_prf(b, n, false).0,
            spec_prf(a, n, false).1,
            spec_prf(a, n, false).1 == spec_prf(b, n, false).1,
        ),
        Cmd::Mac(n) => (
            spec_send_mac(a, n, false).0,
            spec_recv_mac(b, spec_send_mac(a, n, false).1, false).0,
            Seq::empty(),
            all_zero(spec_recv_mac(b, spec_send_mac(a, n, false).1, false).1),
        ),
        Cmd::Ratchet => (
            spec_ratchet_many(a, RATCHET_LEN as nat, false),
            spec_ratchet_many(b, RATCHET_LEN as nat, false),
            Seq::empty(),
            true,
        ),
    }
}

/// Run a whole command sequence on a pair of instances: the final instances,
/// the concatenated PRF output, and whether every step's checks passed.
pub open spec fn run_pair(a: MeowModel, b: MeowModel, cmds: Seq<Cmd>) -> (
    MeowModel,
    MeowModel,
    Seq<u8>,
    bool,
)
    decreases cmds.len(),
{
    if cmds.len() == 0 {
        (a, b, Seq::empty(), true)
    } else {
        let s = step_pair(a, b, cmds[0]);
        let r = run_pair(s.0, s.1, cmds.skip(1));
        (r.0, r.1, s.2 + r.2, s.3 && r.3)
    }
}

/// One transcript command keeps a synchronized pair with dual roles
/// synchronized, with dual roles and well formed, and all its checks pass.
proof fn lemma_step_pair(a: MeowModel, b: MeowModel, c: Cmd)
    requires
        a.wf(),
        b.wf(),
        synced(a, b),
        roles_dual(a.role, b.role),
    ensures
        step_pair(a, b, c).0.wf(),
        step_pair(a, b, c).1.wf(),
        synced(step_pair(a, b, c).0, step_pair(a, b, c).1),
        roles_dual(step_pair(a, b, c).0.role, step_pair(a, b, c).1.role),
        step_pair(a, b, c).3 == true,
{
    lemma_flag_facts();
    match c {
        Cmd::Ad(d) => {
            lemma_begin_same(a, b, FLAG_A, false);
            lemma_begin_wf(a, FLAG_A, false);
            lemma_begin_wf(b, FLAG_A, false);
            let a2 = spec_begin_op(a, FLAG_A, false);
            let b2 = spec_begin_op(b, FLAG_A, false);
            lemma_prim_synced(Prim::Absorb, a2, b2, d);
            lemma_prim_frame(Prim::Absorb, a2, d);
            lemma_prim_frame(Prim::Absorb, b2, d);
            lemma_prim_wf(Prim::Absorb, a2, d);
            lemma_prim_wf(Prim::Absorb, b2, d);
        }
        Cmd::Clr(swap, d) => {
            if swap {
                lemma_clr_pairing(a, b, d, false);
            } else {
                lemma_clr_pairing(b, a, d, false);
            }
        }
        Cmd::Enc(swap, d) => {
            if swap {
                lemma_enc_round_trip(a, b, d, false);
            } else {
                lemma_enc_round_trip(b, a, d, false);
            }
        }
        Cmd::Prf(n) => {
            lemma_prf_synced(a, b, n, false);
            lemma_begin_wf(a, FLAG_I | FLAG_A | FLAG_C, false);
            lemma_begin_wf(b, FLAG_I | FLAG_A | FLAG_C, false);
            let a2 = spec_begin_op(a, FLAG_I | FLAG_A | FLAG_C, false);
            let b2 = spec_begin_op(b, FLAG_I | FLAG_A | FLAG_C, false);
            lemma_prim_frame(Prim::Squeeze, a2, zeros(n));
            lemma_prim_frame(Prim::Squeeze, b2, zeros(n));
            lemma_prim_wf(Prim::Squeeze, a2, zeros(n));
            lemma_prim_wf(Prim::Squeeze, b2, zeros(n));
        }
        Cmd::Mac(n) => {
            let tag = spec_send_mac(a, n, false).1;
            lemma_outs_len(
                Prim::Copy,
                spec_begin_op(a, mac_flags(false, false), false),
                zeros(n),
            );
            lemma_mac_auth(a, b, tag, false);
        }
        Cmd::Ratchet => {
            lemma_begin_same(a, b, FLAG_C, false);
            lemma_begin_wf(a, FLAG_C, false);
            lemma_begin_wf(b, FLAG_C, false);
            let a2 = spec_begin_op(a, FLAG_C, false);
            let b2 = spec_begin_op(b, FLAG_C, false);
            lemma_prim_synced(Prim::Overwrite, a2, b2, zeros(RATCHET_LEN as nat));
            lemma_prim_frame(Prim::Overwrite, a2, zeros(RATCHET_LEN as nat));
            lemma_prim_frame(Prim::Overwrite, b2, zeros(RATCHET_LEN as nat));
            lemma_prim_wf(Prim::Overwrite, a2, zeros(RATCHET_LEN as nat));
            lemma_prim_wf(Prim::Overwrite, b2, zeros(RATCHET_LEN as nat));
        }
    }
}

/// Transcript consistency: however long the command sequence, a synchronized
/// pair with dual roles runs it with every per-step check passing — received
/// plaintext equals sent plaintext, every MAC verifies, PRF outputs agree —
/// and ends synchronized with dual roles. All derived output is a function
/// of the command sequence alone, so textually equal sequences derive equal
/// output.
pub proof fn lemma_transcript_sync(a: MeowModel, b: MeowModel, cmds: Seq<Cmd>)
    requires
        a.wf(),
        b.wf(),
        synced(a, b),
        roles_dual(a.role, b.role),
    ensures
        run_pair(a, b, cmds).3 == true,
        run_pair(a, b, cmds).0.wf(),
        run_pair(a, b, cmds).1.wf(),
        synced(run_pair(a, b, cmds).0, run_pair(a, b, cmds).1),
        roles_dual(run_pair(a, b, cmds).0.role, run_pair(a, b, cmds).1.role),
    decreases cmds.len(),
{
    if cmds.len() > 0 {
        lemma_step_pair(a, b, cmds[0]);
        let s = step_pair(a, b, cmds[0]);
        lemma_transcript_sync(s.0, s.1, cmds.skip(1));
    }
}

/// Two fresh instances of the same protocol run any paired transcript with
/// every check passing.
pub proof fn lemma_paired_transcript(label: Seq<u8>, cmds: Seq<Cmd>)
    ensures
        run_pair(spec_new(label), spec_new(label), cmds).3 == true,
{
    lemma_new_wf(label);
    lemma_transcript_sync(spec_new(label), spec_new(label), cmds);
}

/// Role symmetry: one party sending cleartext, ciphertext and a MAC, and the
/// other receiving them with the matching calls, keeps the two instances
/// synchronized — the received plaintext is the sent one, the MAC verifies —
/// and both then squeeze identical PRF output.
pub proof fn lemma_role_symmetry(
    a: MeowModel,
    b: MeowModel,
    d: Seq<u8>,
    p: Seq<u8>,
    nmac: nat,
    nprf: nat,
)
    requires
        a.wf(),
        b.wf(),
        synced(a, b),
        roles_dual(a.role, b.role),
    ensures
        ({
            let a1 = spec_clr(a, d, false, false, false);
            let b1 = spec_clr(b, d, false, true, false);
            let a2 = spec_send_enc(a1, p, false, false).0;
            let c = spec_send_enc(a1, p, false, false).1;
            let b2 = spec_recv_enc(b1, c, false, false).0;
            let a3 = spec_send_mac(a2, nmac, false).0;
            let tag = spec_send_mac(a2, nmac, false).1;
            let b3 = spec_recv_mac(b2, tag, false).0;
            spec_recv_enc(b1, c, false, false).1 == p && spec_recv_mac_ok(b2, tag, false)
                && spec_prf(a3, nprf, false).1 == spec_prf(b3, nprf, false).1
        }),
{
    lemma_clr_pairing(a, b, d, false);
    let a1 = spec_clr(a, d, false, false, false);
    let b1 = spec_clr(b, d, false, true, false);
    lemma_enc_round_trip(a1, b1, p, false);
    let a2 = spec_send_enc(a1, p, false, false).0;
    let c = spec_send_enc(a1, p, false, false).1;
    let b2 = spec_recv_enc(b1, c, false, false).0;
    let tag = spec_send_mac(a2, nmac, false).1;
    lemma_outs_len(
        Prim::Copy,
        spec_begin_op(a2, mac_flags(false, false), false),
        zeros(nmac),
    );
    lemma_mac_auth(a2, b2, tag, false);
    let a3 = spec_send_mac(a2, nmac, false).0;
    let b3 = spec_recv_mac(b2, tag, false).0;
    lemma_prf_synced(a3, b3, nprf, false);
}

} // verus!
