//! Session establishment and the double-ratchet message engine.
//!
//! An outbound session is created from a peer's pre-key bundle by the hybrid
//! X3DH + Kyber agreement; an inbound session is created lazily from the
//! first PreKey message.  `ratchet_encrypt` and `ratchet_decrypt` advance
//! the per-message symmetric chains, perform Diffie-Hellman ratchet steps,
//! stash and consume skipped message keys, and check cross-party continuity.

use vstd::prelude::*;

use crate::bytes::{bytes_concat, bytes_copy, bytes_eq};
use crate::crypto::{ed_priv_to_x_spec, ed25519_priv_to_x25519, ed25519_pub_to_x25519, info_header_recv_bytes,
    info_header_send_bytes, info_header_recv, info_header_send, info_x3dh, info_x3dh_bytes, kdf_ck,
    kdf_ck_mk, kdf_ck_next, kdf_rk, kdf_rk_chain, kdf_rk_header, kdf_rk_root, chain_at,
    pq_mix_spec, rk_mix_pq, pad_spec, unpad_spec, pad_message, unpad_message};
use crate::errors::ProtoError;
use crate::primitives::{aes_gcm_ct_of, aes256_gcm_decrypt, aes256_gcm_encrypt, b64_of, decode_b64,
    encode_b64, ed_to_mont_of, hex_spec, hex_encode, hkdf_sha256, hkdf_sha256_of, kyber_decap_of,
    kyber_pk_of, kyber1024_decapsulate, kyber1024_encapsulate, random_bytes, sha256, sha256_of,
    x25519_base_of, x25519_dh_of, x25519_diffie_hellman, x25519_public_key, KYBER_CT_LEN,
    KYBER_PK_LEN, MAX_AEAD_PLAINTEXT};
use crate::types::{Envelope, EnvelopeV, PreKeyBundle, ProtocolIdentity, SessionState, SessionV,
    SkippedKey, SkippedKeyV, identity_wf, session_wf, skipped_view};
use crate::wire::{encode_header, header_plain_of, parse_header_spec};

verus! {

/// The all-zero HKDF salt standing in for an absent salt.
pub open spec fn zero_salt() -> Seq<u8> {
    Seq::new(32, |i: int| 0u8)
}

/// Bytes of `zero_salt`.
pub fn zero_salt_bytes() -> (r: Vec<u8>)
    ensures
        r@ == zero_salt(),
{
    let mut o: Vec<u8> = Vec::new();
    let mut i: usize = 0;
    while i < 32
        invariant
            i <= 32,
            o@ == Seq::new(i as nat, |j: int| 0u8),
        decreases 32 - i,
    {
        o.push(0u8);
        i = i + 1;
        proof {
            assert(o@ =~= Seq::new(i as nat, |j: int| 0u8));
        }
    }
    proof {
        assert(o@ =~= zero_salt());
    }
    o
}

/// Whether a pre-key bundle is acceptable: all keys have their prescribed
/// lengths and the peer's Ed25519 identity key is a valid curve point.
pub open spec fn bundle_ok(b: PreKeyBundle) -> bool {
    &&& b.identity_key@.len() == 32
    &&& ed_to_mont_of(b.identity_key@) is Some
    &&& b.signed_pre_key@.len() == 32
    &&& b.signed_pre_key_pq@.len() == KYBER_PK_LEN
    &&& b.pq_identity_key@.len() == KYBER_PK_LEN
    &&& (b.one_time_pre_key matches Some(k) ==> k@.len() == 32)
}

/// The combined key material of the outbound hybrid agreement: the three
/// (or, with a one-time pre-key, four) Diffie-Hellman outputs followed by
/// the two KEM shared secrets.
pub open spec fn outbound_km(
    my_ik_x: Seq<u8>,
    eph: Seq<u8>,
    peer_ik_x: Seq<u8>,
    peer_spk: Seq<u8>,
    opk: Option<Seq<u8>>,
    ss1: Seq<u8>,
    ss2: Seq<u8>,
) -> Seq<u8> {
    let dh1 = x25519_dh_of(my_ik_x, peer_spk);
    let dh2 = x25519_dh_of(eph, peer_ik_x);
    let dh3 = x25519_dh_of(eph, peer_spk);
    let dhs = match opk {
        Some(k) => dh1 + dh2 + dh3 + x25519_dh_of(eph, k),
        None => dh1 + dh2 + dh3,
    };
    dhs + ss1 + ss2
}

/// The initial root key derived from combined key material.
pub open spec fn initial_root(km: Seq<u8>) -> Seq<u8> {
    hkdf_sha256_of(zero_salt(), km, info_x3dh(), 32)
}

/// The initial header key under the given label.
pub open spec fn initial_header_key(root0: Seq<u8>, label: Seq<u8>) -> Seq<u8> {
    hkdf_sha256_of(zero_salt(), root0, label, 32)
}

/// The session an initiator holds after the outbound handshake, given the
/// ephemeral secret and the two KEM results.
pub open spec fn outbound_session_spec(
    id: ProtocolIdentity,
    b: PreKeyBundle,
    eph: Seq<u8>,
    ss1: Seq<u8>,
    ct1: Seq<u8>,
    ss2: Seq<u8>,
    ct2: Seq<u8>,
) -> SessionV {
    let my_ik_x = ed_priv_to_x_spec(id.identity_keys.private_key@);
    let peer_ik_x = ed_to_mont_of(b.identity_key@).unwrap();
    let km = outbound_km(
        my_ik_x,
        eph,
        peer_ik_x,
        b.signed_pre_key@,
        match b.one_time_pre_key {
            Some(k) => Some(k@),
            None => None,
        },
        ss1,
        ss2,
    );
    let root0 = initial_root(km);
    let dh3 = x25519_dh_of(eph, b.signed_pre_key@);
    SessionV {
        remote_identity_key: Some(b.identity_key@),
        root_key: Some(kdf_rk_root(root0, dh3)),
        send_chain_key: Some(kdf_rk_chain(root0, dh3)),
        recv_chain_key: None,
        send_ratchet_key_private: Some(eph),
        send_ratchet_key_public: Some(x25519_base_of(eph)),
        recv_ratchet_key: Some(b.signed_pre_key@),
        sequence_number_send: 0,
        sequence_number_recv: 0,
        prev_sequence_number_send: 0,
        send_header_key: Some(initial_header_key(root0, info_header_send())),
        recv_header_key: Some(initial_header_key(root0, info_header_recv())),
        next_send_header_key: None,
        next_recv_header_key: None,
        skipped_message_keys: Seq::empty(),
        is_verified: false,
        verified_identity_key: Some(b.identity_key@),
        verification_timestamp: None,
        last_sent_hash: None,
        last_recv_hash: None,
        pq_ct1: Some(ct1),
        pq_ct2: Some(ct2),
        pq_shared_secret: Some(ss1 + ss2),
    }
}

/// Establish an outbound session from a peer's pre-key bundle: convert the
/// identity keys to X25519 form, run the three or four Diffie-Hellman
/// computations, encapsulate to both of the peer's Kyber keys, and derive
/// the root key, first sending chain and initial header keys.
pub fn establish_outbound_session(identity: &ProtocolIdentity, bundle: &PreKeyBundle) -> (r: Result<
    SessionState,
    ProtoError,
>)
    requires
        identity_wf(*identity),
    ensures
        r matches Ok(s) ==> bundle_ok(*bundle) && session_wf(s@) && exists|
            eph: Seq<u8>,
            ss1: Seq<u8>,
            ct1: Seq<u8>,
            ss2: Seq<u8>,
            ct2: Seq<u8>,
        |
            {
                &&& eph.len() == 32
                &&& ss1.len() == 32
                &&& ss2.len() == 32
                &&& ct1.len() == KYBER_CT_LEN
                &&& ct2.len() == KYBER_CT_LEN
                &&& #[trigger] s@ == outbound_session_spec(
                    *identity,
                    *bundle,
                    eph,
                    ss1,
                    ct1,
                    ss2,
                    ct2,
                )
                &&& forall|sk: Seq<u8>|
                    (sk.len() == crate::primitives::KYBER_SK_LEN && kyber_pk_of(sk)
                        == bundle.pq_identity_key@) ==> kyber_decap_of(ct1, sk) == ss1
                &&& forall|sk: Seq<u8>|
                    (sk.len() == crate::primitives::KYBER_SK_LEN && kyber_pk_of(sk)
                        == bundle.signed_pre_key_pq@) ==> kyber_decap_of(ct2, sk) == ss2
            },
        r matches Err(e) ==> e == ProtoError::Malformed && !bundle_ok(*bundle),
{
    if bundle.identity_key.len() != 32 || bundle.signed_pre_key.len() != 32
        || bundle.signed_pre_key_pq.len() != KYBER_PK_LEN || bundle.pq_identity_key.len()
        != KYBER_PK_LEN {
        return Err(ProtoError::Malformed);
    }
    let opk_ok = match &bundle.one_time_pre_key {
        Some(k) => k.len() == 32,
        None => true,
    };
    if !opk_ok {
        return Err(ProtoError::Malformed);
    }

    let my_ik_x = match ed25519_priv_to_x25519(identity.identity_keys.private_key.as_slice()) {
        Ok(v) => v,
        Err(_) => {
            return Err(ProtoError::Malformed);
        },
    };
    let peer_ik_x = match ed25519_pub_to_x25519(bundle.identity_key.as_slice()) {
        Ok(v) => v,
        Err(_) => {
            return Err(ProtoError::Malformed);
        },
    };

    let eph = random_bytes(32);
    let ghost g_eph = eph@;
    let eph_pub = x25519_public_key(eph.as_slice());

    let dh1 = x25519_diffie_hellman(my_ik_x.as_slice(), bundle.signed_pre_key.as_slice());
    let dh2 = x25519_diffie_hellman(eph.as_slice(), peer_ik_x.as_slice());
    let dh3 = x25519_diffie_hellman(eph.as_slice(), bundle.signed_pre_key.as_slice());

    let mut km = bytes_concat(dh1.as_slice(), dh2.as_slice());
    crate::bytes::bytes_extend(&mut km, dh3.as_slice());
    match &bundle.one_time_pre_key {
        Some(opk) => {
            let dh4 = x25519_diffie_hellman(eph.as_slice(), opk.as_slice());
            crate::bytes::bytes_extend(&mut km, dh4.as_slice());
        },
        None => {},
    }

    let (ss1, ct1) = kyber1024_encapsulate(bundle.pq_identity_key.as_slice());
    let (ss2, ct2) = kyber1024_encapsulate(bundle.signed_pre_key_pq.as_slice());
    let ghost g_ss1 = ss1@;
    let ghost g_ct1 = ct1@;
    let ghost g_ss2 = ss2@;
    let ghost g_ct2 = ct2@;
    crate::bytes::bytes_extend(&mut km, ss1.as_slice());
    crate::bytes::bytes_extend(&mut km, ss2.as_slice());

    let salt = zero_salt_bytes();
    let root0 = hkdf_sha256(salt.as_slice(), km.as_slice(), info_x3dh_bytes(), 32);
    let hk_send = hkdf_sha256(salt.as_slice(), root0.as_slice(), info_header_send_bytes(), 32);
    let hk_recv = hkdf_sha256(salt.as_slice(), root0.as_slice(), info_header_recv_bytes(), 32);

    let (rk_1, ck_1, _hk_ignored) = match kdf_rk(root0.as_slice(), dh3.as_slice()) {
        Ok(t) => t,
        Err(e) => {
            return Err(e);
        },
    };

    let pq_shared = bytes_concat(ss1.as_slice(), ss2.as_slice());
    let state = SessionState {
        remote_identity_key: Some(bytes_copy(bundle.identity_key.as_slice())),
        root_key: Some(rk_1),
        send_chain_key: Some(ck_1),
        recv_chain_key: None,
        send_ratchet_key_private: Some(eph),
        send_ratchet_key_public: Some(eph_pub),
        recv_ratchet_key: Some(bytes_copy(bundle.signed_pre_key.as_slice())),
        sequence_number_send: 0,
        sequence_number_recv: 0,
        prev_sequence_number_send: 0,
        send_header_key: Some(hk_send),
        recv_header_key: Some(hk_recv),
        next_send_header_key: None,
        next_recv_header_key: None,
        skipped_message_keys: Vec::new(),
        is_verified: false,
        verified_identity_key: Some(bytes_copy(bundle.identity_key.as_slice())),
        verification_timestamp: None,
        last_sent_hash: None,
        last_recv_hash: None,
        pq_ct1: Some(ct1),
        pq_ct2: Some(ct2),
        pq_shared_secret: Some(pq_shared),
    };
    proof {
        assert(state@.skipped_message_keys =~= Seq::<SkippedKeyV>::empty());
        let b_opk: Option<Seq<u8>> = match &bundle.one_time_pre_key {
            Some(k) => Some(k@),
            None => None,
        };
        let km_spec = outbound_km(
            ed_priv_to_x_spec(identity.identity_keys.private_key@),
            g_eph,
            ed_to_mont_of(bundle.identity_key@).unwrap(),
            bundle.signed_pre_key@,
            b_opk,
            g_ss1,
            g_ss2,
        );
        assert(km@ =~= km_spec);
        assert(state@ =~= outbound_session_spec(
            *identity,
            *bundle,
            g_eph,
            g_ss1,
            g_ct1,
            g_ss2,
            g_ct2,
        ));
    }
    Ok(state)
}

/// Whether an envelope carries everything a first PreKey message must: the
/// sender's valid Ed25519 identity key, its ephemeral ratchet key and the
/// two KEM ciphertexts.
pub open spec fn prekey_env_ok(env: EnvelopeV) -> bool {
    &&& env.ik matches Some(ik) && ik.len() == 32 && ed_to_mont_of(ik) is Some
    &&& env.ek.len() == 32
    &&& env.pq1 matches Some(c) && c.len() == KYBER_CT_LEN
    &&& env.pq2 matches Some(c) && c.len() == KYBER_CT_LEN
}

/// The session a responder holds after processing the pre-key material of a
/// first inbound message.  The header-key labels are swapped relative to the
/// initiator so that the two sides' send and receive keys line up.
pub open spec fn inbound_session_spec(
    id: ProtocolIdentity,
    ik: Seq<u8>,
    ek: Seq<u8>,
    pq1: Seq<u8>,
    pq2: Seq<u8>,
) -> SessionV {
    let ik_x = ed_to_mont_of(ik).unwrap();
    let my_ik_x = ed_priv_to_x_spec(id.identity_keys.private_key@);
    let spk = id.signed_pre_key.private_key@;
    let dh1 = x25519_dh_of(spk, ik_x);
    let dh2 = x25519_dh_of(my_ik_x, ek);
    let dh3 = x25519_dh_of(spk, ek);
    let ss1 = kyber_decap_of(pq1, id.identity_keys.pq_private_key@);
    let ss2 = kyber_decap_of(pq2, id.signed_pre_key.pq_private_key@);
    let km = dh1 + dh2 + dh3 + ss1 + ss2;
    let root0 = initial_root(km);
    SessionV {
        remote_identity_key: Some(ik),
        root_key: Some(kdf_rk_root(root0, dh3)),
        send_chain_key: None,
        recv_chain_key: Some(kdf_rk_chain(root0, dh3)),
        send_ratchet_key_private: Some(spk),
        send_ratchet_key_public: Some(id.signed_pre_key.public_key@),
        recv_ratchet_key: Some(ek),
        sequence_number_send: 0,
        sequence_number_recv: 0,
        prev_sequence_number_send: 0,
        send_header_key: Some(initial_header_key(root0, info_header_recv())),
        recv_header_key: Some(initial_header_key(root0, info_header_send())),
        next_send_header_key: None,
        next_recv_header_key: None,
        skipped_message_keys: Seq::empty(),
        is_verified: false,
        verified_identity_key: Some(ik),
        verification_timestamp: None,
        last_sent_hash: None,
        last_recv_hash: None,
        pq_ct1: Some(pq1),
        pq_ct2: Some(pq2),
        pq_shared_secret: Some(ss1 + ss2),
    }
}

/// Establish an inbound session from the pre-key fields of a first message:
/// recompute the Diffie-Hellman outputs with roles reversed, decapsulate the
/// two KEM ciphertexts, and derive the same root key as the initiator, with
/// the header-key labels swapped.
pub fn establish_inbound_session(identity: &ProtocolIdentity, env: &Envelope) -> (r: Result<
    SessionState,
    ProtoError,
>)
    requires
        identity_wf(*identity),
    ensures
        r matches Ok(s) ==> prekey_env_ok(env@) && session_wf(s@) && s@ == inbound_session_spec(
            *identity,
            env@.ik.unwrap(),
            env@.ek,
            env@.pq1.unwrap(),
            env@.pq2.unwrap(),
        ),
        r matches Err(e) ==> e == ProtoError::Malformed && !prekey_env_ok(env@),
{
    let ik = match &env.ik {
        Some(v) => v,
        None => {
            return Err(ProtoError::Malformed);
        },
    };
    let ek = &env.ek;
    let pq1 = match &env.pq1 {
        Some(v) => v,
        None => {
            return Err(ProtoError::Malformed);
        },
    };
    let pq2 = match &env.pq2 {
        Some(v) => v,
        None => {
            return Err(ProtoError::Malformed);
        },
    };
    if ek.len() != 32 || pq1.len() != KYBER_CT_LEN || pq2.len() != KYBER_CT_LEN {
        return Err(ProtoError::Malformed);
    }
    let ik_x = match ed25519_pub_to_x25519(ik.as_slice()) {
        Ok(v) => v,
        Err(_) => {
            return Err(ProtoError::Malformed);
        },
    };
    let my_ik_x = match ed25519_priv_to_x25519(identity.identity_keys.private_key.as_slice()) {
        Ok(v) => v,
        Err(_) => {
            return Err(ProtoError::Malformed);
        },
    };

    let spk = &identity.signed_pre_key.private_key;
    let dh1 = x25519_diffie_hellman(spk.as_slice(), ik_x.as_slice());
    let dh2 = x25519_diffie_hellman(my_ik_x.as_slice(), ek.as_slice());
    let dh3 = x25519_diffie_hellman(spk.as_slice(), ek.as_slice());

    let ss1 = kyber1024_decapsulate(
        pq1.as_slice(),
        identity.identity_keys.pq_private_key.as_slice(),
    );
    let ss2 = kyber1024_decapsulate(
        pq2.as_slice(),
        identity.signed_pre_key.pq_private_key.as_slice(),
    );

    let mut km = bytes_concat(dh1.as_slice(), dh2.as_slice());
    crate::bytes::bytes_extend(&mut km, dh3.as_slice());
    crate::bytes::bytes_extend(&mut km, ss1.as_slice());
    crate::bytes::bytes_extend(&mut km, ss2.as_slice());

    let salt = zero_salt_bytes();
    let root0 = hkdf_sha256(salt.as_slice(), km.as_slice(), info_x3dh_bytes(), 32);
    // Labels swapped relative to the initiator.
    let hk_send = hkdf_sha256(salt.as_slice(), root0.as_slice(), info_header_recv_bytes(), 32);
    let hk_recv = hkdf_sha256(salt.as_slice(), root0.as_slice(), info_header_send_bytes(), 32);

    let (rk_1, ck_1, _hk_ignored) = match kdf_rk(root0.as_slice(), dh3.as_slice()) {
        Ok(t) => t,
        Err(e) => {
            return Err(e);
        },
    };

    let pq_shared = bytes_concat(ss1.as_slice(), ss2.as_slice());
    let state = SessionState {
        remote_identity_key: Some(bytes_copy(ik.as_slice())),
        root_key: Some(rk_1),
        send_chain_key: None,
        recv_chain_key: Some(ck_1),
        send_ratchet_key_private: Some(bytes_copy(identity.signed_pre_key.private_key.as_slice())),
        send_ratchet_key_public: Some(bytes_copy(identity.signed_pre_key.public_key.as_slice())),
        recv_ratchet_key: Some(bytes_copy(ek.as_slice())),
        sequence_number_send: 0,
        sequence_number_recv: 0,
        prev_sequence_number_send: 0,
        send_header_key: Some(hk_send),
        recv_header_key: Some(hk_recv),
        next_send_header_key: None,
        next_recv_header_key: None,
        skipped_message_keys: Vec::new(),
        is_verified: false,
        verified_identity_key: Some(bytes_copy(ik.as_slice())),
        verification_timestamp: None,
        last_sent_hash: None,
        last_recv_hash: None,
        pq_ct1: Some(bytes_copy(pq1.as_slice())),
        pq_ct2: Some(bytes_copy(pq2.as_slice())),
        pq_shared_secret: Some(pq_shared),
    };
    proof {
        assert(state@.skipped_message_keys =~= Seq::<SkippedKeyV>::empty());
        assert(km@ =~= x25519_dh_of(identity.signed_pre_key.private_key@, ed_to_mont_of(ik@).unwrap())
            + x25519_dh_of(ed_priv_to_x_spec(identity.identity_keys.private_key@), ek@)
            + x25519_dh_of(identity.signed_pre_key.private_key@, ek@) + ss1@ + ss2@);
        assert(state@ =~= inbound_session_spec(*identity, ik@, ek@, pq1@, pq2@));
    }
    Ok(state)
}

/// The message keys stashed when the receiving chain is advanced from
/// counter `from` to `target` without decrypting.
pub open spec fn skipped_entries(rk: Seq<u8>, ck: Seq<u8>, from: u32, target: u32) -> Seq<
    SkippedKeyV,
> {
    Seq::new(
        (target - from) as nat,
        |i: int| SkippedKeyV { ratchet_pub: rk, n: (from + i) as u32, mk: kdf_ck_mk(chain_at(ck, i as nat)) },
    )
}

/// How many messages one call may skip before the session refuses to derive
/// more keys.
pub const MAX_SKIP: u32 = 100;

/// Advance the receiving chain to `target_n`, stashing a message key for
/// every skipped counter.  Refuses to skip more than `MAX_SKIP` messages in
/// one call; does nothing when the chain is already at or past `target_n`.
pub fn skip_message_keys(state: &mut SessionState, target_n: u32) -> (r: Result<(), ProtoError>)
    requires
        session_wf(old(state)@),
    ensures
        session_wf(final(state)@),
        old(state)@.sequence_number_recv >= target_n ==> r is Ok && final(state)@ == old(state)@,
        old(state)@.sequence_number_recv < target_n ==> {
            let s0 = old(state)@;
            if target_n - s0.sequence_number_recv > MAX_SKIP {
                r == Err::<(), ProtoError>(ProtoError::Protocol) && final(state)@ == s0
            } else if s0.recv_ratchet_key is None || s0.recv_chain_key is None {
                r == Err::<(), ProtoError>(ProtoError::NotFound) && final(state)@ == s0
            } else {
                r is Ok && final(state)@ == SessionV {
                    recv_chain_key: Some(
                        chain_at(
                            s0.recv_chain_key.unwrap(),
                            (target_n - s0.sequence_number_recv) as nat,
                        ),
                    ),
                    sequence_number_recv: target_n,
                    skipped_message_keys: s0.skipped_message_keys + skipped_entries(
                        s0.recv_ratchet_key.unwrap(),
                        s0.recv_chain_key.unwrap(),
                        s0.sequence_number_recv,
                        target_n,
                    ),
                    ..s0
                }
            }
        },
{
    if state.sequence_number_recv >= target_n {
        return Ok(());
    }
    if target_n - state.sequence_number_recv > MAX_SKIP {
        return Err(ProtoError::Protocol);
    }
    let ratchet_pub = match &state.recv_ratchet_key {
        Some(v) => bytes_copy(v.as_slice()),
        None => {
            return Err(ProtoError::NotFound);
        },
    };
    let ck0 = match &state.recv_chain_key {
        Some(v) => bytes_copy(v.as_slice()),
        None => {
            return Err(ProtoError::NotFound);
        },
    };

    let from = state.sequence_number_recv;
    let count = target_n - from;
    let mut adds: Vec<SkippedKey> = Vec::new();
    let mut cur_ck = bytes_copy(ck0.as_slice());
    let mut i: u32 = 0;
    while i < count
        invariant
            i <= count,
            from + count == target_n,
            target_n <= u32::MAX,
            ratchet_pub@.len() == 32,
            ck0@.len() == 32,
            cur_ck@ == chain_at(ck0@, i as nat),
            cur_ck@.len() == 32,
            skipped_view(adds@) =~= skipped_entries(
                ratchet_pub@,
                ck0@,
                from,
                (from + i) as u32,
            ),
            forall|j: int|
                0 <= j < adds@.len() ==> (#[trigger] adds@[j])@.ratchet_pub.len() == 32
                    && adds@[j]@.mk.len() == 32,
        decreases count - i,
    {
        let (next_ck, mk) = match kdf_ck(cur_ck.as_slice()) {
            Ok(t) => t,
            Err(e) => {
                return Err(e);
            },
        };
        let ghost prev_adds = adds@;
        adds.push(SkippedKey { ratchet_pub: bytes_copy(ratchet_pub.as_slice()), n: from + i, mk });
        cur_ck = next_ck;
        i = i + 1;
        proof {
            let entries = skipped_entries(ratchet_pub@, ck0@, from, (from + i) as u32);
            assert(entries.len() == i as int);
            assert(adds@.len() == prev_adds.len() + 1);
            assert(skipped_view(prev_adds).len() == prev_adds.len());
            assert(skipped_view(prev_adds).len() == (i - 1) as int);
            assert(adds@.len() == i as int);
            assert forall|j: int| 0 <= j < adds@.len() implies skipped_view(adds@)[j] == entries[j] by {
                assert(skipped_view(adds@)[j] == adds@[j]@);
                if j < prev_adds.len() {
                    assert(adds@[j] == prev_adds[j]);
                    assert(skipped_view(prev_adds)[j] == prev_adds[j]@);
                    assert(skipped_view(prev_adds)[j] == skipped_entries(
                        ratchet_pub@,
                        ck0@,
                        from,
                        (from + (i - 1)) as u32,
                    )[j]);
                } else {
                    assert(adds@[j]@.mk == kdf_ck_mk(chain_at(ck0@, (i - 1) as nat)));
                }
            }
            assert(skipped_view(adds@) =~= entries);
        }
    }
    state.skipped_message_keys.append(&mut adds);
    state.recv_chain_key = Some(cur_ck);
    state.sequence_number_recv = target_n;
    proof {
        assert(state@.skipped_message_keys =~= old(state)@.skipped_message_keys + skipped_entries(
            old(state)@.recv_ratchet_key.unwrap(),
            old(state)@.recv_chain_key.unwrap(),
            old(state)@.sequence_number_recv,
            target_n,
        ));
        assert(state@ =~= SessionV {
            recv_chain_key: Some(
                chain_at(
                    old(state)@.recv_chain_key.unwrap(),
                    (target_n - old(state)@.sequence_number_recv) as nat,
                ),
            ),
            sequence_number_recv: target_n,
            skipped_message_keys: old(state)@.skipped_message_keys + skipped_entries(
                old(state)@.recv_ratchet_key.unwrap(),
                old(state)@.recv_chain_key.unwrap(),
                old(state)@.sequence_number_recv,
                target_n,
            ),
            ..old(state)@
        });
    }
    Ok(())
}

/// Whether a session can encrypt: it has a current sending header key, and
/// either a live sending chain with its ratchet keypair or the material for
/// the first sending ratchet step.
pub open spec fn encrypt_ready(s: SessionV) -> bool {
    &&& s.send_header_key is Some
    &&& s.send_chain_key is Some ==> (s.send_ratchet_key_public is Some
        && s.send_ratchet_key_private is Some)
    &&& s.send_chain_key is None ==> (s.root_key is Some && s.recv_ratchet_key is Some)
}

/// The sending-side Diffie-Hellman ratchet step: a fresh ephemeral keypair,
/// a root-key step over its shared secret with the peer's ratchet key, and,
/// when present, the one-time mix of the post-quantum shared secret.
pub open spec fn send_ratchet_spec(s: SessionV, eph: Seq<u8>) -> SessionV {
    let dh = x25519_dh_of(eph, s.recv_ratchet_key.unwrap());
    let rk0 = s.root_key.unwrap();
    let mixed = match s.pq_shared_secret {
        Some(pq) => pq_mix_spec(kdf_rk_root(rk0, dh), pq),
        None => kdf_rk_root(rk0, dh),
    };
    SessionV {
        root_key: Some(mixed),
        send_chain_key: Some(kdf_rk_chain(rk0, dh)),
        send_header_key: Some(kdf_rk_header(rk0, dh)),
        send_ratchet_key_private: Some(eph),
        send_ratchet_key_public: Some(x25519_base_of(eph)),
        pq_shared_secret: None,
        ..s
    }
}

/// What one `ratchet_encrypt` call does: `s0` is the session before, `s2`
/// after; `env` the emitted envelope; `eph`, `nonce` and `hnonce` the
/// sampled ephemeral secret and the two AEAD nonces.  The header is
/// encrypted under the sending header key current before any ratchet step.
pub open spec fn encrypt_post(
    s0: SessionV,
    s2: SessionV,
    env: EnvelopeV,
    id: ProtocolIdentity,
    pt: Seq<u8>,
    eph: Seq<u8>,
    nonce: Seq<u8>,
    hnonce: Seq<u8>,
) -> bool {
    let s1 = if s0.send_chain_key is None {
        send_ratchet_spec(s0, eph)
    } else {
        s0
    };
    let hk_wire = s0.send_header_key.unwrap();
    let ck = s1.send_chain_key.unwrap();
    let mk = kdf_ck_mk(ck);
    let n = s1.sequence_number_send;
    let body = aes_gcm_ct_of(mk, nonce, pad_spec(pt));
    &&& (s0.send_chain_key is None ==> eph.len() == 32)
    &&& nonce.len() == 12
    &&& hnonce.len() == 12
    &&& env.msg_type == if n == 0 { 3u32 } else { 1u32 }
    &&& env.body == body
    &&& env.nonce == nonce
    &&& env.header_enc == aes_gcm_ct_of(
        hk_wire,
        hnonce,
        header_plain_of(
            b64_of(s1.send_ratchet_key_public.unwrap()),
            n,
            s1.prev_sequence_number_send,
        ),
    )
    &&& env.header_nonce == hnonce
    &&& env.lh == match s0.last_recv_hash {
        Some(h) => h,
        None => Seq::<u8>::empty(),
    }
    &&& env.pq1 == s1.pq_ct1
    &&& env.pq2 == s1.pq_ct2
    &&& env.ik == if n == 0 {
        Some(id.identity_keys.public_key@)
    } else {
        None::<Seq<u8>>
    }
    &&& env.pq_ik == if n == 0 {
        Some(id.identity_keys.pq_public_key@)
    } else {
        None::<Seq<u8>>
    }
    &&& env.ek == s1.send_ratchet_key_public.unwrap()
    &&& b64_of(s1.send_ratchet_key_public.unwrap()).len() == 44
    &&& s2 == SessionV {
        send_chain_key: Some(kdf_ck_next(ck)),
        sequence_number_send: (n + 1) as u32,
        last_sent_hash: Some(hex_spec(sha256_of(body))),
        pq_ct1: None::<Seq<u8>>,
        pq_ct2: None::<Seq<u8>>,
        ..s1
    }
}

/// Encrypt one message to the peer: perform the first sending ratchet step
/// if the sending chain is empty (mixing in the post-quantum secret once),
/// advance the sending chain, pad and seal the plaintext, and emit the
/// envelope with its independently encrypted header.  On the very first
/// message the envelope carries the sender's identity keys and the KEM
/// ciphertexts.
pub fn ratchet_encrypt(
    state: &mut SessionState,
    identity: &ProtocolIdentity,
    plaintext: &[u8],
) -> (r: Result<Envelope, ProtoError>)
    requires
        session_wf(old(state)@),
        old(state)@.sequence_number_send < u32::MAX,
        plaintext@.len() + 600 <= MAX_AEAD_PLAINTEXT,
    ensures
        session_wf(final(state)@),
        r matches Err(e) ==> final(state)@ == old(state)@ && e == ProtoError::NotFound
            && !encrypt_ready(old(state)@),
        r matches Ok(env) ==> encrypt_ready(old(state)@) && env@.body.len() == pad_spec(
            plaintext@,
        ).len() + 16 && exists|eph: Seq<u8>, nonce: Seq<u8>, hnonce: Seq<u8>|
            #[trigger] encrypt_post(
                old(state)@,
                final(state)@,
                env@,
                *identity,
                plaintext@,
                eph,
                nonce,
                hnonce,
            ),
{
    let hk_wire = match &state.send_header_key {
        Some(v) => bytes_copy(v.as_slice()),
        None => {
            return Err(ProtoError::NotFound);
        },
    };

    let mut g_eph: Ghost<Seq<u8>> = Ghost(Seq::empty());
    if state.send_chain_key.is_none() {
        let root_key = match &state.root_key {
            Some(v) => bytes_copy(v.as_slice()),
            None => {
                return Err(ProtoError::NotFound);
            },
        };
        let remote_ratchet = match &state.recv_ratchet_key {
            Some(v) => bytes_copy(v.as_slice()),
            None => {
                return Err(ProtoError::NotFound);
            },
        };
        let eph = random_bytes(32);
        proof {
            g_eph@ = eph@;
        }
        let eph_pub = x25519_public_key(eph.as_slice());
        let dh = x25519_diffie_hellman(eph.as_slice(), remote_ratchet.as_slice());
        let (new_rk, ck, next_hk) = match kdf_rk(root_key.as_slice(), dh.as_slice()) {
            Ok(t) => t,
            Err(e) => {
                return Err(e);
            },
        };
        let mixed_rk = match &state.pq_shared_secret {
            Some(pq) => {
                match rk_mix_pq(new_rk.as_slice(), pq.as_slice()) {
                    Ok(v) => v,
                    Err(e) => {
                        return Err(e);
                    },
                }
            },
            None => new_rk,
        };
        state.root_key = Some(mixed_rk);
        state.send_chain_key = Some(ck);
        state.send_header_key = Some(next_hk);
        state.send_ratchet_key_private = Some(eph);
        state.send_ratchet_key_public = Some(eph_pub);
        state.pq_shared_secret = None;
        proof {
            assert(state@ =~= send_ratchet_spec(old(state)@, g_eph@));
        }
    } else {
        if state.send_ratchet_key_public.is_none() || state.send_ratchet_key_private.is_none() {
            return Err(ProtoError::NotFound);
        }
    }
    let ghost s1 = state@;

    let ck = match &state.send_chain_key {
        Some(v) => bytes_copy(v.as_slice()),
        None => {
            return Err(ProtoError::NotFound);
        },
    };
    let (new_ck, mk) = match kdf_ck(ck.as_slice()) {
        Ok(t) => t,
        Err(e) => {
            return Err(e);
        },
    };

    let padded = pad_message(plaintext);
    let nonce = random_bytes(12);
    let body = aes256_gcm_encrypt(mk.as_slice(), nonce.as_slice(), padded.as_slice());
    let body_digest = sha256(body.as_slice());
    let body_hash = hex_encode(body_digest.as_slice());

    let lh = match &state.last_recv_hash {
        Some(h) => bytes_copy(h.as_slice()),
        None => Vec::new(),
    };
    proof {
        if old(state)@.last_recv_hash is None {
            assert(lh@ =~= Seq::<u8>::empty());
        }
    }

    let n = state.sequence_number_send;
    let pn = state.prev_sequence_number_send;
    let ratchet_pub = match &state.send_ratchet_key_public {
        Some(v) => bytes_copy(v.as_slice()),
        None => {
            return Err(ProtoError::NotFound);
        },
    };
    let rk_b64 = encode_b64(ratchet_pub.as_slice());
    let header_pt = encode_header(rk_b64.as_slice(), n, pn);
    proof {
        crate::wire::lemma_dec_of_u32_len(n);
        crate::wire::lemma_dec_of_u32_len(pn);
    }
    let hnonce = random_bytes(12);
    let header_enc = aes256_gcm_encrypt(hk_wire.as_slice(), hnonce.as_slice(), header_pt.as_slice());

    let pq1 = state.pq_ct1.take();
    let pq2 = state.pq_ct2.take();
    let ik = if n == 0 {
        Some(bytes_copy(identity.identity_keys.public_key.as_slice()))
    } else {
        None
    };
    let pq_ik = if n == 0 {
        Some(bytes_copy(identity.identity_keys.pq_public_key.as_slice()))
    } else {
        None
    };

    let ghost g_nonce = nonce@;
    let ghost g_hnonce = hnonce@;
    let env = Envelope {
        msg_type: if n == 0 {
            3
        } else {
            1
        },
        body,
        nonce,
        header_enc,
        header_nonce: hnonce,
        lh,
        pq1,
        pq2,
        ik,
        pq_ik,
        ek: ratchet_pub,
    };

    state.send_chain_key = Some(new_ck);
    state.sequence_number_send = n + 1;
    state.last_sent_hash = Some(body_hash);
    proof {
        assert(state@ =~= SessionV {
            send_chain_key: Some(kdf_ck_next(s1.send_chain_key.unwrap())),
            sequence_number_send: (s1.sequence_number_send + 1) as u32,
            last_sent_hash: Some(
                hex_spec(
                    sha256_of(
                        aes_gcm_ct_of(
                            kdf_ck_mk(s1.send_chain_key.unwrap()),
                            g_nonce,
                            pad_spec(plaintext@),
                        ),
                    ),
                ),
            ),
            pq_ct1: None::<Seq<u8>>,
            pq_ct2: None::<Seq<u8>>,
            ..s1
        });
        assert(encrypt_post(
            old(state)@,
            state@,
            env@,
            *identity,
            plaintext@,
            g_eph@,
            g_nonce,
            g_hnonce,
        ));
    }
    Ok(env)
}

/// Whether the skipped-key cache holds an entry for this ratchet key and
/// counter.
pub open spec fn skipped_has(sk: Seq<SkippedKeyV>, rk: Seq<u8>, n: u32) -> bool {
    exists|i: int| 0 <= i < sk.len() && sk[i].ratchet_pub == rk && (#[trigger] sk[i]).n == n
}

/// Find the first stashed message key for this ratchet key and counter.
fn find_skipped(skipped: &Vec<SkippedKey>, rk: &[u8], n: u32) -> (r: Option<usize>)
    ensures
        r matches Some(i) ==> i < skipped@.len() && skipped@[i as int]@.ratchet_pub == rk@
            && skipped@[i as int]@.n == n && forall|j: int|
            0 <= j < i ==> !((#[trigger] skipped@[j])@.ratchet_pub == rk@ && skipped@[j]@.n == n),
        r is None ==> !skipped_has(skipped_view(skipped@), rk@, n),
{
    let mut i: usize = 0;
    while i < skipped.len()
        invariant
            i <= skipped@.len(),
            forall|j: int|
                0 <= j < i ==> !((#[trigger] skipped@[j])@.ratchet_pub == rk@ && skipped@[j]@.n
                    == n),
        decreases skipped@.len() - i,
    {
        if skipped[i].n == n && bytes_eq(skipped[i].ratchet_pub.as_slice(), rk) {
            return Some(i);
        }
        i = i + 1;
    }
    proof {
        assert forall|k: int|
            0 <= k < skipped_view(skipped@).len() implies !(skipped_view(skipped@)[k].ratchet_pub
            == rk@ && skipped_view(skipped@)[k].n == n) by {
            assert(skipped_view(skipped@)[k] == skipped@[k]@);
        }
    }
    None
}

/// Advance a chain key `steps` times, discarding the message keys.
fn advance_chain(ck: &[u8], steps: u32) -> (r: Result<Vec<u8>, ProtoError>)
    requires
        ck@.len() == 32,
    ensures
        r matches Ok(v) ==> v@ == chain_at(ck@, steps as nat) && v@.len() == 32,
        r is Ok,
{
    let mut cur = bytes_copy(ck);
    let mut i: u32 = 0;
    while i < steps
        invariant
            i <= steps,
            cur@ == chain_at(ck@, i as nat),
            cur@.len() == 32,
        decreases steps - i,
    {
        let (next, _mk) = match kdf_ck(cur.as_slice()) {
            Ok(t) => t,
            Err(e) => {
                return Err(e);
            },
        };
        cur = next;
        i = i + 1;
    }
    Ok(cur)
}

/// The receiving chain after skipping ahead to `target` (a no-op when the
/// counter is already there).
pub open spec fn skip_spec(s: SessionV, target: u32) -> SessionV {
    if s.sequence_number_recv >= target {
        s
    } else {
        SessionV {
            recv_chain_key: Some(
                chain_at(s.recv_chain_key.unwrap(), (target - s.sequence_number_recv) as nat),
            ),
            sequence_number_recv: target,
            skipped_message_keys: s.skipped_message_keys + skipped_entries(
                s.recv_ratchet_key.unwrap(),
                s.recv_chain_key.unwrap(),
                s.sequence_number_recv,
                target,
            ),
            ..s
        }
    }
}

/// The receiving-side Diffie-Hellman ratchet step for a newly seen ratchet
/// key: a root-key step, a fresh receiving chain, the rotated receiving
/// header key, reset counters, and the one-time post-quantum mix.
pub open spec fn recv_ratchet_spec(s: SessionV, rk: Seq<u8>) -> SessionV {
    let dh = x25519_dh_of(s.send_ratchet_key_private.unwrap(), rk);
    let rk0 = s.root_key.unwrap();
    let mixed = match s.pq_shared_secret {
        Some(pq) => pq_mix_spec(kdf_rk_root(rk0, dh), pq),
        None => kdf_rk_root(rk0, dh),
    };
    SessionV {
        root_key: Some(mixed),
        recv_chain_key: Some(kdf_rk_chain(rk0, dh)),
        recv_ratchet_key: Some(rk),
        recv_header_key: Some(kdf_rk_header(rk0, dh)),
        next_recv_header_key: None,
        prev_sequence_number_send: s.sequence_number_send,
        sequence_number_send: 0,
        sequence_number_recv: 0,
        pq_shared_secret: None,
        ..s
    }
}

/// The envelope's header authenticates under the session's current receiving
/// header key and parses to these fields.
pub open spec fn header_of_env(
    s0: SessionV,
    env: EnvelopeV,
    rk_b64: Seq<u8>,
    n: u32,
    pn: u32,
) -> bool {
    &&& s0.recv_header_key is Some
    &&& exists|pt: Seq<u8>|
        env.header_enc == aes_gcm_ct_of(s0.recv_header_key.unwrap(), env.header_nonce, pt)
            && #[trigger] parse_header_spec(pt) == Some((rk_b64, n, pn))
}

/// A decrypt served from the skipped-key cache: the matching entry's key
/// opens the body, and the entry alone is removed from the session.
pub open spec fn dec_skipped_post(
    s0: SessionV,
    rk: Seq<u8>,
    n: u32,
    env: EnvelopeV,
    s2: SessionV,
    p: Seq<u8>,
) -> bool {
    exists|i: int, padded: Seq<u8>|
        {
            &&& 0 <= i < s0.skipped_message_keys.len()
            &&& s0.skipped_message_keys[i].ratchet_pub == rk
            &&& s0.skipped_message_keys[i].n == n
            &&& env.body == #[trigger] aes_gcm_ct_of(s0.skipped_message_keys[i].mk, env.nonce, padded)
            &&& unpad_spec(padded) == Some(p)
            &&& s2 == SessionV {
                skipped_message_keys: s0.skipped_message_keys.remove(i),
                ..s0
            }
        }
}

/// A decrypt on the live chain: an optional receiving ratchet step for a new
/// ratchet key (stashing keys up to `pn` on the old chain first), a skip to
/// `n`, one chain advance whose message key opens the body, the continuity
/// check against our last sent hash, and the new last-received hash.
pub open spec fn dec_main_post(
    s0: SessionV,
    rk: Seq<u8>,
    n: u32,
    pn: u32,
    env: EnvelopeV,
    s2: SessionV,
    p: Seq<u8>,
) -> bool {
    let new_r = s0.recv_ratchet_key != Some(rk);
    let s_a = if new_r {
        recv_ratchet_spec(skip_spec(s0, pn), rk)
    } else {
        s0
    };
    let s_b = skip_spec(s_a, n);
    let ck = s_b.recv_chain_key.unwrap();
    &&& s_b.recv_chain_key is Some
    &&& exists|padded: Seq<u8>|
        env.body == aes_gcm_ct_of(kdf_ck_mk(ck), env.nonce, padded) && #[trigger] unpad_spec(
            padded,
        ) == Some(p)
    &&& (env.lh.len() > 0 && s0.last_sent_hash is Some ==> env.lh == s0.last_sent_hash.unwrap())
    &&& s2 == SessionV {
        recv_chain_key: Some(kdf_ck_next(ck)),
        sequence_number_recv: (s_b.sequence_number_recv + 1) as u32,
        last_recv_hash: Some(hex_spec(sha256_of(env.body))),
        ..s_b
    }
}

/// What a successful decrypt did: some header authenticated under the
/// current receiving header key, its ratchet key decoded from Base64, and
/// the message was served either from the skipped-key cache or from the
/// live chain.
pub open spec fn dec_ok_post(s0: SessionV, s2: SessionV, env: EnvelopeV, p: Seq<u8>) -> bool {
    exists|rk_b64: Seq<u8>, rk: Seq<u8>, n: u32, pn: u32|
        #![trigger header_of_env(s0, env, rk_b64, n, pn), b64_of(rk)]
        {
            &&& header_of_env(s0, env, rk_b64, n, pn)
            &&& rk_b64 == b64_of(rk)
            &&& rk.len() == 32
            &&& (dec_skipped_post(s0, rk, n, env, s2, p) || (!skipped_has(
                s0.skipped_message_keys,
                rk,
                n,
            ) && dec_main_post(s0, rk, n, pn, env, s2, p)))
        }
}

/// The in-order case in which a decrypt is owed to succeed: the session's
/// receiving side is intact, the header authenticates under the current
/// receiving header key with the session's own ratchet key and the expected
/// counter, the body authenticates under the next message key of the
/// receiving chain with valid padding, no stale cache entry shadows the
/// counter, and the continuity hashes agree.
pub open spec fn dec_in_sync_ready(
    s0: SessionV,
    env: EnvelopeV,
    rk: Seq<u8>,
    n: u32,
    pn: u32,
    padded: Seq<u8>,
) -> bool {
    &&& s0.recv_header_key is Some
    &&& s0.recv_chain_key is Some
    &&& s0.recv_ratchet_key == Some(rk)
    &&& rk.len() == 32
    &&& b64_of(rk).len() == 44
    &&& n == s0.sequence_number_recv
    &&& n < u32::MAX
    &&& env.header_nonce.len() == 12
    &&& env.nonce.len() == 12
    &&& env.header_enc == aes_gcm_ct_of(
        s0.recv_header_key.unwrap(),
        env.header_nonce,
        header_plain_of(b64_of(rk), n, pn),
    )
    &&& env.body == aes_gcm_ct_of(kdf_ck_mk(s0.recv_chain_key.unwrap()), env.nonce, padded)
    &&& padded.len() <= MAX_AEAD_PLAINTEXT
    &&& unpad_spec(padded) is Some
    &&& !skipped_has(s0.skipped_message_keys, rk, n)
    &&& (env.lh.len() == 0 || s0.last_sent_hash is None || env.lh == s0.last_sent_hash.unwrap())
}

/// The session state after the in-order decrypt of `dec_in_sync_ready`.
pub open spec fn dec_in_sync_next(s0: SessionV, env: EnvelopeV, n: u32) -> SessionV {
    SessionV {
        recv_chain_key: Some(kdf_ck_next(s0.recv_chain_key.unwrap())),
        sequence_number_recv: (n + 1) as u32,
        last_recv_hash: Some(hex_spec(sha256_of(env.body))),
        ..s0
    }
}

/// The cache-hit case in which a decrypt is owed to succeed: the header
/// authenticates under the current receiving header key, and the first
/// matching stashed message key opens the body with valid padding.
pub open spec fn dec_skipped_ready(
    s0: SessionV,
    env: EnvelopeV,
    rk: Seq<u8>,
    n: u32,
    pn: u32,
    i: int,
    padded: Seq<u8>,
) -> bool {
    &&& s0.recv_header_key is Some
    &&& rk.len() == 32
    &&& b64_of(rk).len() == 44
    &&& env.header_nonce.len() == 12
    &&& env.nonce.len() == 12
    &&& env.header_enc == aes_gcm_ct_of(
        s0.recv_header_key.unwrap(),
        env.header_nonce,
        header_plain_of(b64_of(rk), n, pn),
    )
    &&& 0 <= i < s0.skipped_message_keys.len()
    &&& s0.skipped_message_keys[i].ratchet_pub == rk
    &&& s0.skipped_message_keys[i].n == n
    &&& forall|j: int|
        0 <= j < i ==> !((#[trigger] s0.skipped_message_keys[j]).ratchet_pub == rk
            && s0.skipped_message_keys[j].n == n)
    &&& env.body == aes_gcm_ct_of(s0.skipped_message_keys[i].mk, env.nonce, padded)
    &&& padded.len() <= MAX_AEAD_PLAINTEXT
    &&& unpad_spec(padded) is Some
}

/// The envelope's header authenticates under the session's current receiving
/// header key and carries these fields, and no cache entry shadows the
/// counter: the decrypt proceeds on the live chain.
pub open spec fn dec_headered(s0: SessionV, env: EnvelopeV, rk: Seq<u8>, n: u32, pn: u32) -> bool {
    &&& s0.recv_header_key is Some
    &&& rk.len() == 32
    &&& b64_of(rk).len() == 44
    &&& env.header_nonce.len() == 12
    &&& env.nonce.len() == 12
    &&& env.header_enc == aes_gcm_ct_of(
        s0.recv_header_key.unwrap(),
        env.header_nonce,
        header_plain_of(b64_of(rk), n, pn),
    )
    &&& !skipped_has(s0.skipped_message_keys, rk, n)
}

/// The session just before the body is opened: the receiving ratchet step
/// for a new ratchet key (stashing keys up to `pn` on the old chain first),
/// then the skip to the header's counter.
pub open spec fn dec_pre_state(s0: SessionV, rk: Seq<u8>, n: u32, pn: u32) -> SessionV {
    let new_r = s0.recv_ratchet_key != Some(rk);
    let s_a = if new_r {
        recv_ratchet_spec(skip_spec(s0, pn), rk)
    } else {
        s0
    };
    skip_spec(s_a, n)
}

/// The live-chain path is feasible: the material its steps read is present,
/// no skip exceeds the bound, and the advanced counter still fits.
pub open spec fn dec_main_feasible(s0: SessionV, rk: Seq<u8>, n: u32, pn: u32) -> bool {
    let new_r = s0.recv_ratchet_key != Some(rk);
    &&& (new_r ==> s0.root_key is Some && s0.send_ratchet_key_private is Some && n <= MAX_SKIP)
    &&& (new_r && pn > s0.sequence_number_recv ==> pn - s0.sequence_number_recv <= MAX_SKIP
        && s0.recv_chain_key is Some && s0.recv_ratchet_key is Some)
    &&& (!new_r ==> s0.recv_chain_key is Some)
    &&& (!new_r && n > s0.sequence_number_recv ==> n - s0.sequence_number_recv <= MAX_SKIP)
    &&& dec_pre_state(s0, rk, n, pn).sequence_number_recv < u32::MAX
}

/// The live-chain case in which a decrypt is owed to succeed: the header
/// authenticates and escapes the cache, the path is feasible (whether in
/// order, skipping ahead, behind a reset counter, or across a receiving
/// ratchet step), and the body authenticates with valid padding under the
/// message key the advanced chain yields.
pub open spec fn dec_main_ready(
    s0: SessionV,
    env: EnvelopeV,
    rk: Seq<u8>,
    n: u32,
    pn: u32,
    padded: Seq<u8>,
) -> bool {
    &&& dec_headered(s0, env, rk, n, pn)
    &&& dec_main_feasible(s0, rk, n, pn)
    &&& env.body == aes_gcm_ct_of(
        kdf_ck_mk(dec_pre_state(s0, rk, n, pn).recv_chain_key.unwrap()),
        env.nonce,
        padded,
    )
    &&& padded.len() <= MAX_AEAD_PLAINTEXT
    &&& unpad_spec(padded) is Some
}

/// The envelope's continuity echo is consistent with what we last sent.
pub open spec fn lh_consistent(s0: SessionV, env: EnvelopeV) -> bool {
    env.lh.len() == 0 || s0.last_sent_hash is None || env.lh == s0.last_sent_hash.unwrap()
}

/// The envelope's continuity echo contradicts what we last sent.
pub open spec fn lh_mismatch(s0: SessionV, env: EnvelopeV) -> bool {
    env.lh.len() > 0 && s0.last_sent_hash is Some && env.lh != s0.last_sent_hash.unwrap()
}

/// The session after a successful live-chain decrypt.
pub open spec fn dec_main_next(s0: SessionV, env: EnvelopeV, rk: Seq<u8>, n: u32, pn: u32) -> SessionV {
    let s_b = dec_pre_state(s0, rk, n, pn);
    SessionV {
        recv_chain_key: Some(kdf_ck_next(s_b.recv_chain_key.unwrap())),
        sequence_number_recv: (s_b.sequence_number_recv + 1) as u32,
        last_recv_hash: Some(hex_spec(sha256_of(env.body))),
        ..s_b
    }
}

/// Decrypt one envelope against an existing session.  The header is opened
/// under the current receiving header key; a skipped-key hit consumes its
/// cache entry, a new ratchet key triggers a receiving ratchet step, and the
/// chain is advanced to the header's counter, stashing the keys in between.
/// On any error the session is unchanged.  Success is owed on every feasible
/// live-chain envelope and on every cache hit; an over-bound skip is owed a
/// protocol error, and a continuity mismatch its distinguished error.
#[verifier::rlimit(100)]
#[verifier::spinoff_prover]
pub fn decrypt_with_session(state: &mut SessionState, env: &Envelope) -> (r: Result<
    Vec<u8>,
    ProtoError,
>)
    requires
        session_wf(old(state)@),
    ensures
        session_wf(final(state)@),
        r matches Err(e) ==> final(state)@ == old(state)@,
        r == Err::<Vec<u8>, ProtoError>(ProtoError::ContinuityBreak) ==> env@.lh.len() > 0 && (old(
            state,
        )@.last_sent_hash matches Some(h) && env@.lh != h),
        r matches Ok(p) ==> dec_ok_post(old(state)@, final(state)@, env@, p@),
        forall|rk: Seq<u8>, n: u32, pn: u32, padded: Seq<u8>|
            (#[trigger] dec_main_ready(old(state)@, env@, rk, n, pn, padded) && lh_consistent(
                old(state)@,
                env@,
            )) ==> r is Ok && Some(r.unwrap()@) == unpad_spec(padded) && final(state)@
                == dec_main_next(old(state)@, env@, rk, n, pn),
        forall|rk: Seq<u8>, n: u32, pn: u32, padded: Seq<u8>|
            (#[trigger] dec_main_ready(old(state)@, env@, rk, n, pn, padded) && lh_mismatch(
                old(state)@,
                env@,
            )) ==> r == Err::<Vec<u8>, ProtoError>(ProtoError::ContinuityBreak),
        forall|rk: Seq<u8>, n: u32, pn: u32|
            (#[trigger] dec_headered(old(state)@, env@, rk, n, pn) && old(state)@.recv_ratchet_key
                == Some(rk) && old(state)@.recv_chain_key is Some && n > old(
                state,
            )@.sequence_number_recv && n - old(state)@.sequence_number_recv > MAX_SKIP) ==> r
                == Err::<Vec<u8>, ProtoError>(ProtoError::Protocol),
        forall|rk: Seq<u8>, n: u32, pn: u32|
            (#[trigger] dec_headered(old(state)@, env@, rk, n, pn) && old(state)@.recv_ratchet_key
                != Some(rk) && pn > old(state)@.sequence_number_recv && pn - old(
                state,
            )@.sequence_number_recv > MAX_SKIP) ==> r == Err::<Vec<u8>, ProtoError>(
                ProtoError::Protocol,
            ),
        forall|rk: Seq<u8>, n: u32, pn: u32, i: int, padded: Seq<u8>|
            #[trigger] dec_skipped_ready(old(state)@, env@, rk, n, pn, i, padded) ==> r is Ok
                && Some(r.unwrap()@) == unpad_spec(padded) && final(state)@ == (SessionV {
                skipped_message_keys: old(state)@.skipped_message_keys.remove(i),
                ..old(state)@
            }),
{
    let ghost s0 = old(state)@;
    let rhk = match &state.recv_header_key {
        Some(v) => bytes_copy(v.as_slice()),
        None => {
            return Err(ProtoError::NotFound);
        },
    };
    let hdr = match crate::crypto::decrypt_header(
        rhk.as_slice(),
        env.header_enc.as_slice(),
        env.header_nonce.as_slice(),
    ) {
        Ok(h) => h,
        Err(e) => {
            return Err(e);
        },
    };
    let n = hdr.n;
    let pn = hdr.pn;
    let ghost g_rk_b64 = hdr.ratchet_key_b64@;
    let rk = match decode_b64(hdr.ratchet_key_b64.as_slice()) {
        Some(v) => v,
        None => {
            return Err(ProtoError::Malformed);
        },
    };
    if rk.len() != 32 {
        return Err(ProtoError::Malformed);
    }
    if env.nonce.len() != 12 {
        return Err(ProtoError::Malformed);
    }
    proof {
        assert(header_of_env(s0, env@, g_rk_b64, n, pn));
        // Any fields under which this envelope's header authenticates are
        // exactly the parsed ones: the header codec and the AEAD pin them.
        assert forall|rk0: Seq<u8>, n0: u32, pn0: u32|
            #[trigger] dec_headered(s0, env@, rk0, n0, pn0) implies rk@ == rk0 && n == n0 && pn
            == pn0 by {
            assert(hdr.ratchet_key_b64@ == b64_of(rk0));
        }
    }

    // Skipped-key hit: consume the stashed key and leave the chains alone.
    match find_skipped(&state.skipped_message_keys, rk.as_slice(), n) {
        Some(i) => {
            proof {
                assert(s0.skipped_message_keys[i as int] == state.skipped_message_keys@[i as int]@);
            }
            let mk = bytes_copy(state.skipped_message_keys[i].mk.as_slice());
            let padded = match aes256_gcm_decrypt(
                mk.as_slice(),
                env.nonce.as_slice(),
                env.body.as_slice(),
            ) {
                Some(v) => v,
                None => {
                    return Err(ProtoError::Crypto);
                },
            };
            let ghost g_padded = padded@;
            let p = match unpad_message(padded.as_slice()) {
                Ok(v) => v,
                Err(e) => {
                    return Err(e);
                },
            };
            state.skipped_message_keys.remove(i);
            proof {
                assert forall|j: int|
                    0 <= j < state@.skipped_message_keys.len() implies state@.skipped_message_keys[j]
                    == s0.skipped_message_keys.remove(i as int)[j] by {
                    assert(state@.skipped_message_keys[j] == state.skipped_message_keys@[j]@);
                    if j < i as int {
                        assert(s0.skipped_message_keys[j] == old(
                            state,
                        ).skipped_message_keys@[j]@);
                    } else {
                        assert(s0.skipped_message_keys[j + 1] == old(
                            state,
                        ).skipped_message_keys@[j + 1]@);
                    }
                }
                assert(state@.skipped_message_keys =~= s0.skipped_message_keys.remove(i as int));
                assert(state@ =~= SessionV {
                    skipped_message_keys: s0.skipped_message_keys.remove(i as int),
                    ..s0
                });
                assert(env@.body == aes_gcm_ct_of(
                    s0.skipped_message_keys[i as int].mk,
                    env@.nonce,
                    g_padded,
                ));
                assert(unpad_spec(g_padded) == Some(p@));
                assert(dec_skipped_post(s0, rk@, n, env@, state@, p@));
                assert(dec_ok_post(s0, state@, env@, p@));
            }
            return Ok(p);
        },
        None => {},
    }

    let new_ratchet = match &state.recv_ratchet_key {
        Some(v) => !bytes_eq(v.as_slice(), rk.as_slice()),
        None => true,
    };
    proof {
        assert(new_ratchet == (s0.recv_ratchet_key != Some(rk@)));
    }

    // Validate everything and compute the message key without touching the
    // session, so that a failure leaves it unchanged.
    let mut ratchet_parts: Option<(Vec<u8>, Vec<u8>, Vec<u8>)> = None;
    let base_ck: Vec<u8>;
    if new_ratchet {
        if pn > state.sequence_number_recv {
            if pn - state.sequence_number_recv > MAX_SKIP {
                return Err(ProtoError::Protocol);
            }
            if state.recv_chain_key.is_none() || state.recv_ratchet_key.is_none() {
                return Err(ProtoError::NotFound);
            }
        }
        if n > MAX_SKIP {
            return Err(ProtoError::Protocol);
        }
        let root = match &state.root_key {
            Some(v) => bytes_copy(v.as_slice()),
            None => {
                return Err(ProtoError::NotFound);
            },
        };
        let my_priv = match &state.send_ratchet_key_private {
            Some(v) => bytes_copy(v.as_slice()),
            None => {
                return Err(ProtoError::NotFound);
            },
        };
        let dh = x25519_diffie_hellman(my_priv.as_slice(), rk.as_slice());
        let (new_rk, ck_r, hk_r) = match kdf_rk(root.as_slice(), dh.as_slice()) {
            Ok(t) => t,
            Err(e) => {
                return Err(e);
            },
        };
        let mixed = match &state.pq_shared_secret {
            Some(pq) => {
                match rk_mix_pq(new_rk.as_slice(), pq.as_slice()) {
                    Ok(v) => v,
                    Err(e) => {
                        return Err(e);
                    },
                }
            },
            None => new_rk,
        };
        base_ck = match advance_chain(ck_r.as_slice(), n) {
            Ok(v) => v,
            Err(e) => {
                return Err(e);
            },
        };
        ratchet_parts = Some((mixed, ck_r, hk_r));
    } else {
        let ck_cur = match &state.recv_chain_key {
            Some(v) => bytes_copy(v.as_slice()),
            None => {
                return Err(ProtoError::NotFound);
            },
        };
        let steps: u32 = if n > state.sequence_number_recv {
            if n - state.sequence_number_recv > MAX_SKIP {
                return Err(ProtoError::Protocol);
            }
            n - state.sequence_number_recv
        } else {
            0
        };
        base_ck = match advance_chain(ck_cur.as_slice(), steps) {
            Ok(v) => v,
            Err(e) => {
                return Err(e);
            },
        };
    }
    let (ck_next, mk) = match kdf_ck(base_ck.as_slice()) {
        Ok(t) => t,
        Err(e) => {
            return Err(e);
        },
    };
    proof {
        let s_b = dec_pre_state(s0, rk@, n, pn);
        assert(base_ck@ == s_b.recv_chain_key.unwrap());
        assert(mk@ == kdf_ck_mk(s_b.recv_chain_key.unwrap()));
    }
    let nb: u32 = if new_ratchet {
        n
    } else {
        if n > state.sequence_number_recv {
            n
        } else {
            state.sequence_number_recv
        }
    };
    proof {
        assert(nb == dec_pre_state(s0, rk@, n, pn).sequence_number_recv);
    }
    if nb == u32::MAX {
        return Err(ProtoError::Protocol);
    }

    let padded = match aes256_gcm_decrypt(mk.as_slice(), env.nonce.as_slice(), env.body.as_slice())
    {
        Some(v) => v,
        None => {
            return Err(ProtoError::Crypto);
        },
    };
    let ghost g_padded = padded@;
    let p = match unpad_message(padded.as_slice()) {
        Ok(v) => v,
        Err(e) => {
            return Err(e);
        },
    };

    if env.lh.len() > 0 {
        match &state.last_sent_hash {
            Some(ls) => {
                if !bytes_eq(env.lh.as_slice(), ls.as_slice()) {
                    return Err(ProtoError::ContinuityBreak);
                }
            },
            None => {},
        }
    }
    proof {
        assert(!lh_mismatch(s0, env@));
    }

    let body_digest = sha256(env.body.as_slice());
    let body_hash = hex_encode(body_digest.as_slice());

    // All checks passed: commit the new session state.
    let ghost s_a_expect = if new_ratchet {
        recv_ratchet_spec(skip_spec(s0, pn), rk@)
    } else {
        s0
    };
    match ratchet_parts {
        Some((mixed, ck_r, hk_r)) => {
            match skip_message_keys(state, pn) {
                Ok(()) => {},
                Err(e) => {
                    proof {
                        assert(false);
                    }
                    return Err(e);
                },
            }
            proof {
                assert(state@ =~= skip_spec(s0, pn));
            }
            state.root_key = Some(mixed);
            state.recv_chain_key = Some(ck_r);
            state.recv_ratchet_key = Some(bytes_copy(rk.as_slice()));
            state.recv_header_key = Some(hk_r);
            state.next_recv_header_key = None;
            state.prev_sequence_number_send = state.sequence_number_send;
            state.sequence_number_send = 0;
            state.sequence_number_recv = 0;
            state.pq_shared_secret = None;
            proof {
                assert(state@ =~= s_a_expect);
            }
        },
        None => {},
    }
    match skip_message_keys(state, n) {
        Ok(()) => {},
        Err(e) => {
            proof {
                assert(false);
            }
            return Err(e);
        },
    }
    proof {
        assert(state@ =~= skip_spec(s_a_expect, n));
    }
    state.recv_chain_key = Some(ck_next);
    state.sequence_number_recv = nb + 1;
    state.last_recv_hash = Some(body_hash);
    proof {
        let s_b = skip_spec(s_a_expect, n);
        assert(state@ =~= SessionV {
            recv_chain_key: Some(kdf_ck_next(s_b.recv_chain_key.unwrap())),
            sequence_number_recv: (s_b.sequence_number_recv + 1) as u32,
            last_recv_hash: Some(hex_spec(sha256_of(env@.body))),
            ..s_b
        });
        assert(dec_main_post(s0, rk@, n, pn, env@, state@, p@));
        assert(dec_ok_post(s0, state@, env@, p@));
        assert(state@ == dec_main_next(s0, env@, rk@, n, pn));
    }
    Ok(p)
}

/// Decrypt one envelope, creating the session from the envelope's pre-key
/// fields when none exists yet.  On any error no state is kept.
pub fn ratchet_decrypt(
    state_opt: &mut Option<SessionState>,
    identity: &ProtocolIdentity,
    env: &Envelope,
) -> (r: Result<Vec<u8>, ProtoError>)
    requires
        identity_wf(*identity),
        (*old(state_opt)) matches Some(s) ==> session_wf(s@),
    ensures
        (*final(state_opt)) matches Some(s) ==> session_wf(s@),
        r == Err::<Vec<u8>, ProtoError>(ProtoError::ContinuityBreak) ==> ((*old(state_opt))
            matches Some(s) && env@.lh.len() > 0 && (s@.last_sent_hash matches Some(h) && env@.lh
            != h)),
        r is Err ==> match (*old(state_opt), *final(state_opt)) {
            (Some(a), Some(b)) => a@ == b@,
            (None, None) => true,
            _ => false,
        },
        r matches Ok(p) ==> (*final(state_opt)) matches Some(s2) && {
            let s0 = match *old(state_opt) {
                Some(s) => s@,
                None => inbound_session_spec(
                    *identity,
                    env@.ik.unwrap(),
                    env@.ek,
                    env@.pq1.unwrap(),
                    env@.pq2.unwrap(),
                ),
            };
            &&& ((*old(state_opt)) is None ==> prekey_env_ok(env@))
            &&& dec_ok_post(s0, s2@, env@, p@)
        },
        forall|rk: Seq<u8>, n: u32, pn: u32, padded: Seq<u8>|
            ((*old(state_opt)) is Some && #[trigger] dec_main_ready(
                (*old(state_opt)).unwrap()@,
                env@,
                rk,
                n,
                pn,
                padded,
            ) && lh_consistent((*old(state_opt)).unwrap()@, env@)) ==> r is Ok && Some(
                r.unwrap()@,
            ) == unpad_spec(padded) && (*final(state_opt)) is Some && (*final(state_opt)).unwrap()@ == dec_main_next((*old(state_opt)).unwrap()@, env@, rk, n, pn),
        forall|rk: Seq<u8>, n: u32, pn: u32, padded: Seq<u8>|
            ((*old(state_opt)) is None && prekey_env_ok(env@) && #[trigger] dec_main_ready(
                inbound_session_spec(
                    *identity,
                    env@.ik.unwrap(),
                    env@.ek,
                    env@.pq1.unwrap(),
                    env@.pq2.unwrap(),
                ),
                env@,
                rk,
                n,
                pn,
                padded,
            )) ==> r is Ok && Some(r.unwrap()@) == unpad_spec(padded) && (*final(state_opt))
                is Some && (*final(state_opt)).unwrap()@ == dec_main_next(
                inbound_session_spec(
                    *identity,
                    env@.ik.unwrap(),
                    env@.ek,
                    env@.pq1.unwrap(),
                    env@.pq2.unwrap(),
                ),
                env@,
                rk,
                n,
                pn,
            ),
        forall|rk: Seq<u8>, n: u32, pn: u32, padded: Seq<u8>|
            ((*old(state_opt)) is Some && #[trigger] dec_main_ready(
                (*old(state_opt)).unwrap()@,
                env@,
                rk,
                n,
                pn,
                padded,
            ) && lh_mismatch((*old(state_opt)).unwrap()@, env@)) ==> r == Err::<
                Vec<u8>,
                ProtoError,
            >(ProtoError::ContinuityBreak),
        forall|rk: Seq<u8>, n: u32, pn: u32|
            ((*old(state_opt)) is Some && #[trigger] dec_headered(
                (*old(state_opt)).unwrap()@,
                env@,
                rk,
                n,
                pn,
            ) && (*old(state_opt)).unwrap()@.recv_ratchet_key == Some(rk) && (*old(state_opt)).unwrap()@.recv_chain_key is Some && n > (*old(state_opt)).unwrap()@.sequence_number_recv && n - (*old(state_opt)).unwrap()@.sequence_number_recv > MAX_SKIP) ==> r == Err::<Vec<u8>, ProtoError>(
                ProtoError::Protocol,
            ),
        forall|rk: Seq<u8>, n: u32, pn: u32|
            ((*old(state_opt)) is Some && #[trigger] dec_headered(
                (*old(state_opt)).unwrap()@,
                env@,
                rk,
                n,
                pn,
            ) && (*old(state_opt)).unwrap()@.recv_ratchet_key != Some(rk) && pn > (*old(state_opt)).unwrap()@.sequence_number_recv && pn - (*old(state_opt)).unwrap()@.sequence_number_recv > MAX_SKIP) ==> r == Err::<Vec<u8>, ProtoError>(
                ProtoError::Protocol,
            ),
        forall|rk: Seq<u8>, n: u32, pn: u32, i: int, padded: Seq<u8>|
            ((*old(state_opt)) is Some && #[trigger] dec_skipped_ready(
                (*old(state_opt)).unwrap()@,
                env@,
                rk,
                n,
                pn,
                i,
                padded,
            )) ==> r is Ok && Some(r.unwrap()@) == unpad_spec(padded) && ((*final(state_opt))
                matches Some(s2) && s2@ == (SessionV {
                skipped_message_keys: (*old(state_opt)).unwrap()@.skipped_message_keys.remove(i),
                ..(*old(state_opt)).unwrap()@
            })),
{
    match state_opt {
        Some(s) => decrypt_with_session(s, env),
        None => {
            let mut fresh = match establish_inbound_session(identity, env) {
                Ok(s) => s,
                Err(e) => {
                    return Err(e);
                },
            };
            match decrypt_with_session(&mut fresh, env) {
                Ok(p) => {
                    *state_opt = Some(fresh);
                    Ok(p)
                },
                Err(e) => Err(e),
            }
        },
    }
}

/// Mark a session verified or unverified; a verification records the time.
pub fn verify_session(state: &mut SessionState, is_verified: bool, now_secs: u64) -> (r: Result<
    (),
    ProtoError,
>)
    ensures
        r is Ok,
        final(state)@ == (SessionV {
            is_verified,
            verification_timestamp: if is_verified {
                Some(now_secs)
            } else {
                None::<u64>
            },
            ..old(state)@
        }),
{
    state.is_verified = is_verified;
    state.verification_timestamp = if is_verified {
        Some(now_secs)
    } else {
        None
    };
    proof {
        assert(state@ =~= SessionV {
            is_verified,
            verification_timestamp: if is_verified {
                Some(now_secs)
            } else {
                None::<u64>
            },
            ..old(state)@
        });
    }
    Ok(())
}

} // verus!
