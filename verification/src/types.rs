//! Data model of the protocol core: the long-term identity, per-peer
//! session state, group state, wire envelopes, media key bundles and the
//! pending-message queue, together with their mathematical views and
//! well-formedness predicates.

use vstd::prelude::*;

use crate::errors::ProtoError;
use crate::primitives::{ed25519_pub_of, ed25519_sig_of, ed_to_mont_of, kyber_pk_of,
    x25519_base_of};
use crate::primitives::{KYBER_CT_LEN, KYBER_PK_LEN, KYBER_SK_LEN};
use crate::primitives::{ed25519_public_key, ed25519_sign, kyber1024_keypair, random_bytes,
    random_u32, x25519_public_key};

verus! {

/// View of an optional byte vector.
pub open spec fn opt_view(o: Option<Vec<u8>>) -> Option<Seq<u8>> {
    match o {
        Some(v) => Some(v@),
        None => None,
    }
}

/// Whether an optional byte sequence, when present, has length `n`.
pub open spec fn opt_len_is(o: Option<Seq<u8>>, n: nat) -> bool {
    o matches Some(v) ==> v.len() == n
}

/// The long-term Ed25519 and Kyber-1024 identity key material.
pub struct IdentityKeyPair {
    pub public_key: Vec<u8>,
    pub private_key: Vec<u8>,
    pub pq_public_key: Vec<u8>,
    pub pq_private_key: Vec<u8>,
}

/// The signed pre-key: an X25519 pair and a Kyber pair, with an Ed25519
/// signature by the identity key over the two public halves.
pub struct SignedPreKey {
    pub public_key: Vec<u8>,
    pub private_key: Vec<u8>,
    pub pq_public_key: Vec<u8>,
    pub pq_private_key: Vec<u8>,
    pub signature: Vec<u8>,
}

/// A one-time pre-key: an X25519 pair and a Kyber pair.
pub struct OneTimePreKey {
    pub public_key: Vec<u8>,
    pub private_key: Vec<u8>,
    pub pq_public_key: Vec<u8>,
    pub pq_private_key: Vec<u8>,
}

/// The installation's protocol identity, created once and kept in the vault.
pub struct ProtocolIdentity {
    pub registration_id: u32,
    pub alias: String,
    pub identity_keys: IdentityKeyPair,
    pub signed_pre_key: SignedPreKey,
    pub one_time_pre_keys: Vec<OneTimePreKey>,
}

/// Well-formedness of the identity: every key has the length its algorithm
/// prescribes, the derived public halves belong to the private halves, and
/// the registration id is a 14-bit value.
pub open spec fn identity_wf(id: ProtocolIdentity) -> bool {
    &&& id.identity_keys.private_key@.len() == 32
    &&& id.identity_keys.public_key@ == ed25519_pub_of(id.identity_keys.private_key@)
    &&& id.identity_keys.public_key@.len() == 32
    &&& ed_to_mont_of(id.identity_keys.public_key@) is Some
    &&& id.identity_keys.pq_public_key@.len() == KYBER_PK_LEN
    &&& id.identity_keys.pq_private_key@.len() == KYBER_SK_LEN
    &&& id.identity_keys.pq_public_key@ == kyber_pk_of(id.identity_keys.pq_private_key@)
    &&& id.signed_pre_key.private_key@.len() == 32
    &&& id.signed_pre_key.public_key@ == x25519_base_of(id.signed_pre_key.private_key@)
    &&& id.signed_pre_key.public_key@.len() == 32
    &&& id.signed_pre_key.pq_public_key@.len() == KYBER_PK_LEN
    &&& id.signed_pre_key.pq_private_key@.len() == KYBER_SK_LEN
    &&& id.signed_pre_key.pq_public_key@ == kyber_pk_of(id.signed_pre_key.pq_private_key@)
    &&& id.signed_pre_key.signature@.len() == 64
    &&& 1 <= id.registration_id <= 16383
}

/// A stashed message key for an out-of-order message: the sending ratchet
/// public key and counter it belongs to, and the key itself.
pub struct SkippedKey {
    pub ratchet_pub: Vec<u8>,
    pub n: u32,
    pub mk: Vec<u8>,
}

/// View of a stashed message key.
#[verifier::ext_equal]
pub ghost struct SkippedKeyV {
    pub ratchet_pub: Seq<u8>,
    pub n: u32,
    pub mk: Seq<u8>,
}

/// View of a vector of stashed message keys.
pub open spec fn skipped_view(v: Seq<SkippedKey>) -> Seq<SkippedKeyV> {
    v.map_values(|k: SkippedKey| k@)
}

impl View for SkippedKey {
    type V = SkippedKeyV;

    open spec fn view(&self) -> SkippedKeyV {
        SkippedKeyV { ratchet_pub: self.ratchet_pub@, n: self.n, mk: self.mk@ }
    }
}

/// Per-peer double-ratchet session state.
pub struct SessionState {
    pub remote_identity_key: Option<Vec<u8>>,
    pub root_key: Option<Vec<u8>>,
    pub send_chain_key: Option<Vec<u8>>,
    pub recv_chain_key: Option<Vec<u8>>,
    pub send_ratchet_key_private: Option<Vec<u8>>,
    pub send_ratchet_key_public: Option<Vec<u8>>,
    pub recv_ratchet_key: Option<Vec<u8>>,
    pub sequence_number_send: u32,
    pub sequence_number_recv: u32,
    pub prev_sequence_number_send: u32,
    pub send_header_key: Option<Vec<u8>>,
    pub recv_header_key: Option<Vec<u8>>,
    pub next_send_header_key: Option<Vec<u8>>,
    pub next_recv_header_key: Option<Vec<u8>>,
    pub skipped_message_keys: Vec<SkippedKey>,
    pub is_verified: bool,
    pub verified_identity_key: Option<Vec<u8>>,
    pub verification_timestamp: Option<u64>,
    pub last_sent_hash: Option<Vec<u8>>,
    pub last_recv_hash: Option<Vec<u8>>,
    pub pq_ct1: Option<Vec<u8>>,
    pub pq_ct2: Option<Vec<u8>>,
    pub pq_shared_secret: Option<Vec<u8>>,
}

/// View of a session state.
#[verifier::ext_equal]
pub ghost struct SessionV {
    pub remote_identity_key: Option<Seq<u8>>,
    pub root_key: Option<Seq<u8>>,
    pub send_chain_key: Option<Seq<u8>>,
    pub recv_chain_key: Option<Seq<u8>>,
    pub send_ratchet_key_private: Option<Seq<u8>>,
    pub send_ratchet_key_public: Option<Seq<u8>>,
    pub recv_ratchet_key: Option<Seq<u8>>,
    pub sequence_number_send: u32,
    pub sequence_number_recv: u32,
    pub prev_sequence_number_send: u32,
    pub send_header_key: Option<Seq<u8>>,
    pub recv_header_key: Option<Seq<u8>>,
    pub next_send_header_key: Option<Seq<u8>>,
    pub next_recv_header_key: Option<Seq<u8>>,
    pub skipped_message_keys: Seq<SkippedKeyV>,
    pub is_verified: bool,
    pub verified_identity_key: Option<Seq<u8>>,
    pub verification_timestamp: Option<u64>,
    pub last_sent_hash: Option<Seq<u8>>,
    pub last_recv_hash: Option<Seq<u8>>,
    pub pq_ct1: Option<Seq<u8>>,
    pub pq_ct2: Option<Seq<u8>>,
    pub pq_shared_secret: Option<Seq<u8>>,
}

impl View for SessionState {
    type V = SessionV;

    open spec fn view(&self) -> SessionV {
        SessionV {
            remote_identity_key: opt_view(self.remote_identity_key),
            root_key: opt_view(self.root_key),
            send_chain_key: opt_view(self.send_chain_key),
            recv_chain_key: opt_view(self.recv_chain_key),
            send_ratchet_key_private: opt_view(self.send_ratchet_key_private),
            send_ratchet_key_public: opt_view(self.send_ratchet_key_public),
            recv_ratchet_key: opt_view(self.recv_ratchet_key),
            sequence_number_send: self.sequence_number_send,
            sequence_number_recv: self.sequence_number_recv,
            prev_sequence_number_send: self.prev_sequence_number_send,
            send_header_key: opt_view(self.send_header_key),
            recv_header_key: opt_view(self.recv_header_key),
            next_send_header_key: opt_view(self.next_send_header_key),
            next_recv_header_key: opt_view(self.next_recv_header_key),
            skipped_message_keys: skipped_view(self.skipped_message_keys@),
            is_verified: self.is_verified,
            verified_identity_key: opt_view(self.verified_identity_key),
            verification_timestamp: self.verification_timestamp,
            last_sent_hash: opt_view(self.last_sent_hash),
            last_recv_hash: opt_view(self.last_recv_hash),
            pq_ct1: opt_view(self.pq_ct1),
            pq_ct2: opt_view(self.pq_ct2),
            pq_shared_secret: opt_view(self.pq_shared_secret),
        }
    }
}

/// Well-formedness of a session: every key field has the length its role
/// prescribes.
pub open spec fn session_wf(s: SessionV) -> bool {
    &&& opt_len_is(s.remote_identity_key, 32)
    &&& opt_len_is(s.root_key, 32)
    &&& opt_len_is(s.send_chain_key, 32)
    &&& opt_len_is(s.recv_chain_key, 32)
    &&& opt_len_is(s.send_ratchet_key_private, 32)
    &&& opt_len_is(s.send_ratchet_key_public, 32)
    &&& opt_len_is(s.recv_ratchet_key, 32)
    &&& opt_len_is(s.send_header_key, 32)
    &&& opt_len_is(s.recv_header_key, 32)
    &&& opt_len_is(s.next_send_header_key, 32)
    &&& opt_len_is(s.next_recv_header_key, 32)
    &&& opt_len_is(s.verified_identity_key, 32)
    &&& opt_len_is(s.last_sent_hash, 64)
    &&& opt_len_is(s.last_recv_hash, 64)
    &&& opt_len_is(s.pq_ct1, KYBER_CT_LEN as nat)
    &&& opt_len_is(s.pq_ct2, KYBER_CT_LEN as nat)
    &&& opt_len_is(s.pq_shared_secret, 64)
    &&& forall|i: int|
        0 <= i < s.skipped_message_keys.len() ==> (#[trigger] s.skipped_message_keys[i]).ratchet_pub.len()
            == 32 && s.skipped_message_keys[i].mk.len() == 32
}

/// A pairwise wire envelope.  Binary fields are raw bytes here; the host
/// serializes them as Base64 inside a JSON object.
pub struct Envelope {
    pub msg_type: u32,
    pub body: Vec<u8>,
    pub nonce: Vec<u8>,
    pub header_enc: Vec<u8>,
    pub header_nonce: Vec<u8>,
    pub lh: Vec<u8>,
    pub pq1: Option<Vec<u8>>,
    pub pq2: Option<Vec<u8>>,
    pub ik: Option<Vec<u8>>,
    pub pq_ik: Option<Vec<u8>>,
    pub ek: Vec<u8>,
}

/// View of a wire envelope.
#[verifier::ext_equal]
pub ghost struct EnvelopeV {
    pub msg_type: u32,
    pub body: Seq<u8>,
    pub nonce: Seq<u8>,
    pub header_enc: Seq<u8>,
    pub header_nonce: Seq<u8>,
    pub lh: Seq<u8>,
    pub pq1: Option<Seq<u8>>,
    pub pq2: Option<Seq<u8>>,
    pub ik: Option<Seq<u8>>,
    pub pq_ik: Option<Seq<u8>>,
    pub ek: Seq<u8>,
}

impl View for Envelope {
    type V = EnvelopeV;

    open spec fn view(&self) -> EnvelopeV {
        EnvelopeV {
            msg_type: self.msg_type,
            body: self.body@,
            nonce: self.nonce@,
            header_enc: self.header_enc@,
            header_nonce: self.header_nonce@,
            lh: self.lh@,
            pq1: opt_view(self.pq1),
            pq2: opt_view(self.pq2),
            ik: opt_view(self.ik),
            pq_ik: opt_view(self.pq_ik),
            ek: self.ek@,
        }
    }
}

/// A peer's published pre-key bundle, already decoded to raw bytes.
pub struct PreKeyBundle {
    pub identity_key: Vec<u8>,
    pub signed_pre_key: Vec<u8>,
    pub signed_pre_key_pq: Vec<u8>,
    pub pq_identity_key: Vec<u8>,
    pub one_time_pre_key: Option<Vec<u8>>,
}

/// A member's sender key in a group: a chain key advanced once per message
/// and an Ed25519 signature keypair.
pub struct SenderKey {
    pub key_id: u32,
    pub chain_key: Vec<u8>,
    pub signature_key_private: Vec<u8>,
    pub signature_key_public: Vec<u8>,
}

/// View of a sender key.
#[verifier::ext_equal]
pub ghost struct SenderKeyV {
    pub key_id: u32,
    pub chain_key: Seq<u8>,
    pub signature_key_private: Seq<u8>,
    pub signature_key_public: Seq<u8>,
}

impl View for SenderKey {
    type V = SenderKeyV;

    open spec fn view(&self) -> SenderKeyV {
        SenderKeyV {
            key_id: self.key_id,
            chain_key: self.chain_key@,
            signature_key_private: self.signature_key_private@,
            signature_key_public: self.signature_key_public@,
        }
    }
}

/// Per-group state: our own sender key and those of the other members,
/// keyed by peer identifier.
pub struct GroupState {
    pub group_id: String,
    pub my_sender_key: Option<SenderKey>,
    pub member_sender_keys: Vec<(String, SenderKey)>,
}

/// The per-file key material of an encrypted media blob.
pub struct MediaKeyBundle {
    pub key: Vec<u8>,
    pub nonce: Vec<u8>,
    pub digest: Vec<u8>,
    pub file_name: String,
    pub file_type: String,
}

/// A queued outgoing message awaiting delivery.
pub struct PendingMessage {
    pub id: String,
    pub recipient_hash: String,
    pub body: String,
    pub timestamp: u64,
    pub retries: u32,
}

/// An out-of-band sender-key distribution message for a group.
pub struct GroupDistributionMessage {
    pub group_id: String,
    pub key_id: u32,
    pub chain_key: Vec<u8>,
    pub signature_key_public: Vec<u8>,
}

/// A group message envelope.
pub struct GroupMessage {
    pub body: Vec<u8>,
    pub nonce: Vec<u8>,
    pub key_id: u32,
}

/// A sealed-sender envelope.
pub struct SealedMessage {
    pub ephemeral_public: Vec<u8>,
    pub pq_ct: Vec<u8>,
    pub nonce: Vec<u8>,
    pub ciphertext: Vec<u8>,
}

impl SessionState {
    /// An exact copy of the session state.
    pub fn duplicate(&self) -> (r: SessionState)
        ensures
            r@ == self@,
    {
        let mut skipped: Vec<SkippedKey> = Vec::new();
        let mut i: usize = 0;
        while i < self.skipped_message_keys.len()
            invariant
                i <= self.skipped_message_keys@.len(),
                skipped_view(skipped@) =~= skipped_view(
                    self.skipped_message_keys@.subrange(0, i as int),
                ),
                skipped@.len() == i,
            decreases self.skipped_message_keys@.len() - i,
        {
            let e = &self.skipped_message_keys[i];
            let ghost prev = skipped@;
            skipped.push(
                SkippedKey {
                    ratchet_pub: crate::bytes::bytes_copy(e.ratchet_pub.as_slice()),
                    n: e.n,
                    mk: crate::bytes::bytes_copy(e.mk.as_slice()),
                },
            );
            i = i + 1;
            proof {
                let target = skipped_view(self.skipped_message_keys@.subrange(0, i as int));
                assert forall|j: int|
                    0 <= j < skipped@.len() implies skipped_view(skipped@)[j] == target[j] by {
                    assert(skipped_view(skipped@)[j] == skipped@[j]@);
                    assert(target[j] == self.skipped_message_keys@.subrange(0, i as int)[j]@);
                    if j < i - 1 {
                        assert(skipped@[j] == prev[j]);
                        assert(skipped_view(prev)[j] == prev[j]@);
                        assert(skipped_view(
                            self.skipped_message_keys@.subrange(0, (i - 1) as int),
                        )[j] == self.skipped_message_keys@.subrange(0, (i - 1) as int)[j]@);
                    }
                }
                assert(skipped_view(skipped@) =~= target);
            }
        }
        let r = SessionState {
            remote_identity_key: copy_opt(&self.remote_identity_key),
            root_key: copy_opt(&self.root_key),
            send_chain_key: copy_opt(&self.send_chain_key),
            recv_chain_key: copy_opt(&self.recv_chain_key),
            send_ratchet_key_private: copy_opt(&self.send_ratchet_key_private),
            send_ratchet_key_public: copy_opt(&self.send_ratchet_key_public),
            recv_ratchet_key: copy_opt(&self.recv_ratchet_key),
            sequence_number_send: self.sequence_number_send,
            sequence_number_recv: self.sequence_number_recv,
            prev_sequence_number_send: self.prev_sequence_number_send,
            send_header_key: copy_opt(&self.send_header_key),
            recv_header_key: copy_opt(&self.recv_header_key),
            next_send_header_key: copy_opt(&self.next_send_header_key),
            next_recv_header_key: copy_opt(&self.next_recv_header_key),
            skipped_message_keys: skipped,
            is_verified: self.is_verified,
            verified_identity_key: copy_opt(&self.verified_identity_key),
            verification_timestamp: self.verification_timestamp,
            last_sent_hash: copy_opt(&self.last_sent_hash),
            last_recv_hash: copy_opt(&self.last_recv_hash),
            pq_ct1: copy_opt(&self.pq_ct1),
            pq_ct2: copy_opt(&self.pq_ct2),
            pq_shared_secret: copy_opt(&self.pq_shared_secret),
        };
        proof {
            assert(skipped_view(self.skipped_message_keys@.subrange(
                0,
                self.skipped_message_keys@.len() as int,
            )) =~= skipped_view(self.skipped_message_keys@));
            assert(r@ =~= self@);
        }
        r
    }
}

/// Copy an optional byte vector.
pub fn copy_opt(o: &Option<Vec<u8>>) -> (r: Option<Vec<u8>>)
    ensures
        opt_view(r) == opt_view(*o),
{
    match o {
        Some(v) => Some(crate::bytes::bytes_copy(v.as_slice())),
        None => None,
    }
}

impl ProtocolIdentity {
    /// Sign a message with the long-term Ed25519 identity key.
    pub fn sign(&self, message: &[u8]) -> (r: Result<Vec<u8>, ProtoError>)
        ensures
            r matches Ok(sig) ==> sig@ == ed25519_sig_of(
                self.identity_keys.private_key@,
                message@,
            ) && sig@.len() == 64,
            r matches Err(e) ==> e == ProtoError::Malformed && self.identity_keys.private_key@.len()
                != 32,
    {
        if self.identity_keys.private_key.len() != 32 {
            return Err(ProtoError::Malformed);
        }
        Ok(ed25519_sign(self.identity_keys.private_key.as_slice(), message))
    }
}

/// Create a fresh identity: a random Ed25519 identity keypair, a Kyber-1024
/// identity keypair, a signed pre-key (X25519 and Kyber pairs, signed over
/// the concatenation of their public halves), and a 14-bit registration id.
pub fn generate_new_identity() -> (r: ProtocolIdentity)
    ensures
        identity_wf(r),
        r.signed_pre_key.signature@ == ed25519_sig_of(
            r.identity_keys.private_key@,
            r.signed_pre_key.public_key@ + r.signed_pre_key.pq_public_key@,
        ),
        r.alias@ == "User"@,
        r.one_time_pre_keys@.len() == 0,
{
    let seed = random_bytes(32);
    let public_key = ed25519_public_key(seed.as_slice());
    let (pq_pk, pq_sk) = kyber1024_keypair();

    let spk_priv = random_bytes(32);
    let spk_pub = x25519_public_key(spk_priv.as_slice());
    let (spk_pq_pk, spk_pq_sk) = kyber1024_keypair();
    let signed_halves = crate::bytes::bytes_concat(spk_pub.as_slice(), spk_pq_pk.as_slice());
    let signature = ed25519_sign(seed.as_slice(), signed_halves.as_slice());

    let registration_id = (random_u32() % 16383) + 1;
    ProtocolIdentity {
        registration_id,
        alias: "User".to_owned(),
        identity_keys: IdentityKeyPair {
            public_key,
            private_key: seed,
            pq_public_key: pq_pk,
            pq_private_key: pq_sk,
        },
        signed_pre_key: SignedPreKey {
            public_key: spk_pub,
            private_key: spk_priv,
            pq_public_key: spk_pq_pk,
            pq_private_key: spk_pq_sk,
            signature,
        },
        one_time_pre_keys: Vec::new(),
    }
}

} // verus!
