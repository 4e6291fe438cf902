//! Cross-function laws of the message engine.  The round-trip law below
//! states the central property of the ratchet: a message encrypted under a
//! pair of sessions whose chains are in sync is owed to decrypt back to
//! exactly the plaintext, and the two sessions stay in sync.

use vstd::prelude::*;

use crate::crypto::{ed_priv_to_x_spec, kdf_ck_next, lemma_pad_unpad, pad_spec, unpad_spec};
use crate::primitives::{ed_to_mont_of, kyber_decap_of, x25519_base_of, x25519_dh_of,
    MAX_AEAD_PLAINTEXT};
use crate::session::{dec_in_sync_next, dec_in_sync_ready, dec_main_next, dec_main_ready,
    dec_skipped_ready, encrypt_post, inbound_session_spec, lh_consistent, outbound_session_spec,
    skip_spec, skipped_has};
use crate::types::{EnvelopeV, PreKeyBundle, ProtocolIdentity, SessionV};

verus! {

/// The sending side of `sa` and the receiving side of `sb` are in sync: the
/// receiver holds the sender's current header key, chain key, ratchet key
/// and counter, no stale cache entry shadows a coming counter, and the
/// continuity hashes agree.
pub open spec fn chains_in_sync(sa: SessionV, sb: SessionV) -> bool {
    &&& sa.send_chain_key is Some
    &&& sa.send_ratchet_key_public matches Some(k) && k.len() == 32
    &&& sa.send_ratchet_key_public is Some
    &&& sa.send_header_key is Some
    &&& sb.recv_header_key == sa.send_header_key
    &&& sb.recv_chain_key == sa.send_chain_key
    &&& sb.recv_ratchet_key == sa.send_ratchet_key_public
    &&& sb.sequence_number_recv == sa.sequence_number_send
    &&& sa.sequence_number_send < u32::MAX
    &&& forall|i: int|
        0 <= i < sb.skipped_message_keys.len() ==> !((#[trigger] sb.skipped_message_keys[i]).ratchet_pub
            == sa.send_ratchet_key_public.unwrap() && sb.skipped_message_keys[i].n
            >= sa.sequence_number_send)
    &&& (sa.last_recv_hash matches Some(h) ==> (sb.last_sent_hash is None || sb.last_sent_hash
        == Some(h)))
}

/// The in-order case is an instance of the general owed clause of
/// `ratchet_decrypt`: a session ready in the `dec_in_sync_ready` sense is
/// ready in the `dec_main_ready` sense, the continuity echo is consistent,
/// and the promised next state coincides.
pub proof fn lemma_in_sync_owed(
    s0: SessionV,
    env: EnvelopeV,
    rk: Seq<u8>,
    n: u32,
    pn: u32,
    padded: Seq<u8>,
)
    requires
        dec_in_sync_ready(s0, env, rk, n, pn, padded),
    ensures
        dec_main_ready(s0, env, rk, n, pn, padded),
        lh_consistent(s0, env),
        dec_main_next(s0, env, rk, n, pn) == dec_in_sync_next(s0, env, n),
{
    assert(skip_spec(s0, n) == s0);
}

/// Round trip of one message between in-sync sessions.  If the sender's
/// `ratchet_encrypt` produced `env` (witnessed by `encrypt_post`), then the
/// receiver's session satisfies `dec_in_sync_ready` — and with
/// `lemma_in_sync_owed` the general owed clause of `ratchet_decrypt` — so
/// its decrypt is owed to succeed, to return exactly the plaintext, and to
/// advance to `dec_in_sync_next`, after which the two sessions are in sync
/// again and the law carries over any sequence of sends.
pub proof fn lemma_ratchet_step_round_trip(
    sa: SessionV,
    sa2: SessionV,
    sb: SessionV,
    env: EnvelopeV,
    id: ProtocolIdentity,
    pt: Seq<u8>,
    eph: Seq<u8>,
    nonce: Seq<u8>,
    hnonce: Seq<u8>,
)
    requires
        chains_in_sync(sa, sb),
        encrypt_post(sa, sa2, env, id, pt, eph, nonce, hnonce),
        pt.len() + 600 <= MAX_AEAD_PLAINTEXT,
        sa.sequence_number_send + 1 < u32::MAX,
    ensures
        dec_in_sync_ready(
            sb,
            env,
            sa.send_ratchet_key_public.unwrap(),
            sa.sequence_number_send,
            sa.prev_sequence_number_send,
            pad_spec(pt),
        ),
        dec_main_ready(
            sb,
            env,
            sa.send_ratchet_key_public.unwrap(),
            sa.sequence_number_send,
            sa.prev_sequence_number_send,
            pad_spec(pt),
        ),
        lh_consistent(sb, env),
        unpad_spec(pad_spec(pt)) == Some(pt),
        chains_in_sync(sa2, dec_in_sync_next(sb, env, sa.sequence_number_send)),
        dec_main_next(
            sb,
            env,
            sa.send_ratchet_key_public.unwrap(),
            sa.sequence_number_send,
            sa.prev_sequence_number_send,
        ) == dec_in_sync_next(sb, env, sa.sequence_number_send),
{
    lemma_pad_unpad(pt);
    let rk = sa.send_ratchet_key_public.unwrap();
    let n = sa.sequence_number_send;
    assert(!skipped_has(sb.skipped_message_keys, rk, n));
    let sb2 = dec_in_sync_next(sb, env, n);
    assert(sa2.send_chain_key == Some(kdf_ck_next(sa.send_chain_key.unwrap())));
    assert(sb2.recv_chain_key == Some(kdf_ck_next(sb.recv_chain_key.unwrap())));
    assert(forall|i: int|
        0 <= i < sb2.skipped_message_keys.len() ==> !((#[trigger] sb2.skipped_message_keys[i]).ratchet_pub
            == sa2.send_ratchet_key_public.unwrap() && sb2.skipped_message_keys[i].n
            >= sa2.sequence_number_send));
    lemma_in_sync_owed(
        sb,
        env,
        sa.send_ratchet_key_public.unwrap(),
        sa.sequence_number_send,
        sa.prev_sequence_number_send,
        pad_spec(pt),
    );
}

/// Handshake agreement: when the initiator runs the outbound hybrid
/// agreement against the responder's true bundle, and the responder
/// processes the resulting pre-key material, the two sessions come up in
/// sync in both directions — same root key and post-quantum secret, the
/// initiator's sending side aligned with the responder's receiving side,
/// and the header keys crossed as the label swap prescribes.  The
/// Diffie-Hellman agreement and KEM correctness hypotheses are exactly what
/// the trusted primitives guarantee of the underlying libraries.
pub proof fn lemma_handshake_in_sync(
    a_id: ProtocolIdentity,
    b_id: ProtocolIdentity,
    bundle: PreKeyBundle,
    eph: Seq<u8>,
    ss1: Seq<u8>,
    ct1: Seq<u8>,
    ss2: Seq<u8>,
    ct2: Seq<u8>,
)
    requires
        bundle.identity_key@ == b_id.identity_keys.public_key@,
        bundle.signed_pre_key@ == b_id.signed_pre_key.public_key@,
        bundle.signed_pre_key_pq@ == b_id.signed_pre_key.pq_public_key@,
        bundle.pq_identity_key@ == b_id.identity_keys.pq_public_key@,
        bundle.one_time_pre_key is None,
        eph.len() == 32,
        // KEM correctness of the two encapsulations, as the Kyber wrapper
        // states it.
        kyber_decap_of(ct1, b_id.identity_keys.pq_private_key@) == ss1,
        kyber_decap_of(ct2, b_id.signed_pre_key.pq_private_key@) == ss2,
        // Diffie-Hellman agreement for the three exchanged pairs, as the
        // X25519 wrapper states it.
        x25519_dh_of(
            ed_priv_to_x_spec(a_id.identity_keys.private_key@),
            b_id.signed_pre_key.public_key@,
        ) == x25519_dh_of(
            b_id.signed_pre_key.private_key@,
            ed_to_mont_of(a_id.identity_keys.public_key@).unwrap(),
        ),
        x25519_dh_of(eph, ed_to_mont_of(b_id.identity_keys.public_key@).unwrap())
            == x25519_dh_of(
            ed_priv_to_x_spec(b_id.identity_keys.private_key@),
            x25519_base_of(eph),
        ),
        x25519_dh_of(eph, b_id.signed_pre_key.public_key@) == x25519_dh_of(
            b_id.signed_pre_key.private_key@,
            x25519_base_of(eph),
        ),
        // The Montgomery form of the responder's identity key exists.
        ed_to_mont_of(b_id.identity_keys.public_key@) is Some,
    ensures
        ({
            let sa = outbound_session_spec(a_id, bundle, eph, ss1, ct1, ss2, ct2);
            let sb = inbound_session_spec(
                b_id,
                a_id.identity_keys.public_key@,
                x25519_base_of(eph),
                ct1,
                ct2,
            );
            &&& sa.send_ratchet_key_public.unwrap().len() == 32 ==> chains_in_sync(sa, sb)
            &&& sa.root_key == sb.root_key
            &&& sa.pq_shared_secret == sb.pq_shared_secret
            &&& sb.send_header_key == sa.recv_header_key
            &&& sb.send_ratchet_key_public == sa.recv_ratchet_key
            &&& sb.recv_chain_key == sa.send_chain_key
        }),
{
    let sa = outbound_session_spec(a_id, bundle, eph, ss1, ct1, ss2, ct2);
    let sb = inbound_session_spec(
        b_id,
        a_id.identity_keys.public_key@,
        x25519_base_of(eph),
        ct1,
        ct2,
    );
    assert(sb.skipped_message_keys.len() == 0);
    assert(!skipped_has(sb.skipped_message_keys, sa.send_ratchet_key_public.unwrap(), 0));
}

/// Round trip of one group message: when a member's stored copy of the
/// sender's chain key equals the sender's current chain key, a message that
/// `group_encrypt` produced from it is owed to decrypt back to exactly the
/// plaintext, and both chains advance one step together.
pub proof fn lemma_group_step_round_trip(
    gb: crate::types::GroupState,
    m: crate::types::GroupMessage,
    pt: Seq<u8>,
    sender: Seq<char>,
    i: int,
)
    requires
        0 <= i < gb.member_sender_keys@.len(),
        gb.member_sender_keys@[i].0@ == sender,
        forall|j: int| 0 <= j < i ==> (#[trigger] gb.member_sender_keys@[j]).0@ != sender,
        m.nonce@.len() == 12,
        m.body@ == crate::primitives::aes_gcm_ct_of(
            crate::crypto::kdf_ck_mk(gb.member_sender_keys@[i].1.chain_key@),
            m.nonce@,
            pad_spec(pt),
        ),
        pt.len() + 600 <= MAX_AEAD_PLAINTEXT,
    ensures
        crate::groups::group_dec_ready(gb, sender, m, i, pad_spec(pt)),
        unpad_spec(pad_spec(pt)) == Some(pt),
{
    lemma_pad_unpad(pt);
}

/// Replay rejection at the protocol level: once an in-order message has been
/// decrypted, its counter is behind the receiving chain and no cache entry
/// holds its key, so neither condition under which the engine owes success
/// holds for the same envelope again.  A second attempt reaches the chain at
/// a later position and fails the AEAD authentication.
pub proof fn lemma_replay_no_longer_owed(
    s0: SessionV,
    env: EnvelopeV,
    rk: Seq<u8>,
    n: u32,
    pn: u32,
    padded: Seq<u8>,
)
    requires
        dec_in_sync_ready(s0, env, rk, n, pn, padded),
    ensures
        !dec_in_sync_ready(dec_in_sync_next(s0, env, n), env, rk, n, pn, padded),
        forall|i: int, p2: Seq<u8>|
            !dec_skipped_ready(#[trigger] dec_in_sync_next(s0, env, n), env, rk, n, pn, i, p2),
{
    let s2 = dec_in_sync_next(s0, env, n);
    assert(s2.sequence_number_recv == n + 1);
    assert(!skipped_has(s0.skipped_message_keys, rk, n));
    assert forall|i: int, p2: Seq<u8>| !dec_skipped_ready(s2, env, rk, n, pn, i, p2) by {
        if dec_skipped_ready(s2, env, rk, n, pn, i, p2) {
            assert(skipped_has(s0.skipped_message_keys, rk, n));
        }
    }
}

} // verus!
