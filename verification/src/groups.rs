//! Sender-key group messaging: each member owns a symmetric chain advanced
//! once per message with the same chain KDF as the pairwise ratchet.  There
//! is no Diffie-Hellman step and no skipped-key cache; messages decrypt in
//! order per sender.

use vstd::prelude::*;

use crate::bytes::bytes_copy;
use crate::crypto::{kdf_ck, kdf_ck_mk, kdf_ck_next, pad_message, pad_spec, unpad_message,
    unpad_spec};
use crate::errors::ProtoError;
use crate::primitives::{aes_gcm_ct_of, aes256_gcm_decrypt, aes256_gcm_encrypt, ed25519_pub_of,
    ed25519_public_key, random_bytes, random_u32, MAX_AEAD_PLAINTEXT};
use vstd::prelude::Seq;
use crate::types::{GroupDistributionMessage, GroupMessage, GroupState, SenderKey};

verus! {

/// Well-formedness of a sender key: a 32-byte chain key and an Ed25519
/// signature keypair.
pub open spec fn sender_key_wf(sk: SenderKey) -> bool {
    &&& sk.chain_key@.len() == 32
    &&& sk.signature_key_private@.len() == 32
    &&& sk.signature_key_public@.len() == 32
}

/// Well-formedness of a group: every held sender key is well formed and the
/// members are keyed by pairwise distinct identifiers.
pub open spec fn group_wf(g: GroupState) -> bool {
    &&& (g.my_sender_key matches Some(sk) ==> sender_key_wf(sk))
    &&& forall|i: int|
        0 <= i < g.member_sender_keys@.len() ==> sender_key_wf(
            (#[trigger] g.member_sender_keys@[i]).1,
        )
    &&& forall|i: int, j: int|
        0 <= i < j < g.member_sender_keys@.len() ==> (#[trigger] g.member_sender_keys@[i]).0@ != (
        #[trigger] g.member_sender_keys@[j]).0@
}

/// Whether two sender keys hold the same material.
pub open spec fn sender_key_eqv(a: SenderKey, b: SenderKey) -> bool {
    &&& a.key_id == b.key_id
    &&& a.chain_key@ == b.chain_key@
    &&& a.signature_key_private@ == b.signature_key_private@
    &&& a.signature_key_public@ == b.signature_key_public@
}

/// Whether two group states hold the same material.
pub open spec fn group_eqv(a: GroupState, b: GroupState) -> bool {
    &&& a.group_id@ == b.group_id@
    &&& match (a.my_sender_key, b.my_sender_key) {
        (Some(x), Some(y)) => sender_key_eqv(x, y),
        (None, None) => true,
        _ => false,
    }
    &&& a.member_sender_keys@.len() == b.member_sender_keys@.len()
    &&& forall|i: int|
        0 <= i < a.member_sender_keys@.len() ==> (#[trigger] a.member_sender_keys@[i]).0@
            == b.member_sender_keys@[i].0@ && sender_key_eqv(
            a.member_sender_keys@[i].1,
            b.member_sender_keys@[i].1,
        )
}

/// An exact copy of a sender key.
pub fn duplicate_sender_key(sk: &SenderKey) -> (r: SenderKey)
    ensures
        sender_key_eqv(r, *sk),
{
    SenderKey {
        key_id: sk.key_id,
        chain_key: bytes_copy(sk.chain_key.as_slice()),
        signature_key_private: bytes_copy(sk.signature_key_private.as_slice()),
        signature_key_public: bytes_copy(sk.signature_key_public.as_slice()),
    }
}

impl GroupState {
    /// An exact copy of the group state.
    pub fn duplicate(&self) -> (r: GroupState)
        ensures
            group_eqv(r, *self),
    {
        let my = match &self.my_sender_key {
            Some(sk) => Some(duplicate_sender_key(sk)),
            None => None,
        };
        let mut members: Vec<(String, SenderKey)> = Vec::new();
        let mut i: usize = 0;
        while i < self.member_sender_keys.len()
            invariant
                i <= self.member_sender_keys@.len(),
                members@.len() == i,
                forall|j: int|
                    0 <= j < i ==> (#[trigger] members@[j]).0@
                        == self.member_sender_keys@[j].0@ && sender_key_eqv(
                        members@[j].1,
                        self.member_sender_keys@[j].1,
                    ),
            decreases self.member_sender_keys@.len() - i,
        {
            let e = &self.member_sender_keys[i];
            members.push((e.0.clone(), duplicate_sender_key(&e.1)));
            i = i + 1;
        }
        GroupState { group_id: self.group_id.clone(), my_sender_key: my, member_sender_keys: members }
    }
}

/// Create a fresh sender key: a random chain key, a random key id, and an
/// Ed25519 signature keypair.
pub fn create_group_sender_key() -> (r: SenderKey)
    ensures
        sender_key_wf(r),
        r.signature_key_public@ == ed25519_pub_of(r.signature_key_private@),
{
    let ck = random_bytes(32);
    let sig_priv = random_bytes(32);
    let sig_pub = ed25519_public_key(sig_priv.as_slice());
    SenderKey {
        key_id: random_u32(),
        chain_key: ck,
        signature_key_private: sig_priv,
        signature_key_public: sig_pub,
    }
}

/// Build the out-of-band distribution message for our own sender key: the
/// group id, the key id, the current chain key and the public signature key.
pub fn create_group_distribution_message(state: &GroupState) -> (r: Result<
    GroupDistributionMessage,
    ProtoError,
>)
    ensures
        r matches Ok(d) ==> state.my_sender_key matches Some(sk) && d.group_id@ == state.group_id@
            && d.key_id == sk.key_id && d.chain_key@ == sk.chain_key@ && d.signature_key_public@
            == sk.signature_key_public@,
        r matches Err(e) ==> e == ProtoError::NotFound && state.my_sender_key is None,
{
    let sk = match &state.my_sender_key {
        Some(sk) => sk,
        None => {
            return Err(ProtoError::NotFound);
        },
    };
    Ok(GroupDistributionMessage {
        group_id: state.group_id.clone(),
        key_id: sk.key_id,
        chain_key: bytes_copy(sk.chain_key.as_slice()),
        signature_key_public: bytes_copy(sk.signature_key_public.as_slice()),
    })
}

/// Encrypt a group message under our own sender key, advancing its chain by
/// one step.
pub fn group_encrypt(state: &mut GroupState, plaintext: &[u8]) -> (r: Result<
    GroupMessage,
    ProtoError,
>)
    requires
        group_wf(*old(state)),
        plaintext@.len() + 600 <= MAX_AEAD_PLAINTEXT,
    ensures
        group_wf(*final(state)),
        r matches Err(e) ==> *final(state) == *old(state) && e == ProtoError::NotFound && old(
            state,
        ).my_sender_key is None,
        r matches Ok(m) ==> old(state).my_sender_key matches Some(sk0) && {
            &&& exists|nonce: Seq<u8>|
                nonce.len() == 12 && m.nonce@ == nonce && m.body@ == #[trigger] aes_gcm_ct_of(
                    kdf_ck_mk(sk0.chain_key@),
                    nonce,
                    pad_spec(plaintext@),
                )
            &&& m.key_id == sk0.key_id
            &&& final(state).my_sender_key matches Some(sk2) && sk2.chain_key@ == kdf_ck_next(
                sk0.chain_key@,
            ) && sk2.key_id == sk0.key_id && sk2.signature_key_private@
                == sk0.signature_key_private@ && sk2.signature_key_public@
                == sk0.signature_key_public@
            &&& final(state).group_id@ == old(state).group_id@
            &&& final(state).member_sender_keys == old(state).member_sender_keys
        },
{
    let (ck0, key_id) = match &state.my_sender_key {
        Some(sk) => (bytes_copy(sk.chain_key.as_slice()), sk.key_id),
        None => {
            return Err(ProtoError::NotFound);
        },
    };
    let (next_ck, mk) = match kdf_ck(ck0.as_slice()) {
        Ok(t) => t,
        Err(e) => {
            return Err(e);
        },
    };
    let padded = pad_message(plaintext);
    let nonce = random_bytes(12);
    let body = aes256_gcm_encrypt(mk.as_slice(), nonce.as_slice(), padded.as_slice());
    let ghost g_nonce = nonce@;

    match &mut state.my_sender_key {
        Some(sk) => {
            sk.chain_key = next_ck;
        },
        None => {
            return Err(ProtoError::NotFound);
        },
    }
    Ok(GroupMessage { body, nonce, key_id })
}

/// The case in which a group decrypt is owed to succeed: the sender is the
/// first member stored under this hash, and its current chain's message key
/// opens the body with valid padding.
pub open spec fn group_dec_ready(
    g: GroupState,
    sender: Seq<char>,
    m: GroupMessage,
    i: int,
    padded: Seq<u8>,
) -> bool {
    &&& m.nonce@.len() == 12
    &&& 0 <= i < g.member_sender_keys@.len()
    &&& g.member_sender_keys@[i].0@ == sender
    &&& forall|j: int| 0 <= j < i ==> (#[trigger] g.member_sender_keys@[j]).0@ != sender
    &&& m.body@ == aes_gcm_ct_of(
        kdf_ck_mk(g.member_sender_keys@[i].1.chain_key@),
        m.nonce@,
        padded,
    )
    &&& padded.len() <= MAX_AEAD_PLAINTEXT
    &&& unpad_spec(padded) is Some
}

/// Decrypt a group message with the stored sender key of the given member,
/// advancing that member's chain by one step.  Fails with `NotFound` when no
/// sender key is stored for the member.
pub fn group_decrypt(state: &mut GroupState, sender_hash: &String, msg: &GroupMessage) -> (r:
    Result<Vec<u8>, ProtoError>)
    requires
        group_wf(*old(state)),
    ensures
        group_wf(*final(state)),
        r matches Err(e) ==> *final(state) == *old(state),
        r matches Ok(p) ==> exists|i: int, padded: Seq<u8>|
            #![trigger aes_gcm_ct_of(kdf_ck_mk(old(state).member_sender_keys@[i].1.chain_key@), msg.nonce@, padded)]
            {
                &&& 0 <= i < old(state).member_sender_keys@.len()
                &&& old(state).member_sender_keys@[i].0@ == sender_hash@
                &&& msg.body@ == aes_gcm_ct_of(
                    kdf_ck_mk(old(state).member_sender_keys@[i].1.chain_key@),
                    msg.nonce@,
                    padded,
                )
                &&& unpad_spec(padded) == Some(p@)
                &&& final(state).member_sender_keys@.len() == old(state).member_sender_keys@.len()
                &&& forall|j: int|
                    0 <= j < old(state).member_sender_keys@.len() && j != i
                        ==> final(state).member_sender_keys@[j]
                        == old(state).member_sender_keys@[j]
                &&& final(state).member_sender_keys@[i].0@ == sender_hash@
                &&& final(state).member_sender_keys@[i].1.chain_key@ == kdf_ck_next(
                    old(state).member_sender_keys@[i].1.chain_key@,
                )
                &&& final(state).member_sender_keys@[i].1.key_id
                    == old(state).member_sender_keys@[i].1.key_id
                &&& final(state).group_id@ == old(state).group_id@
                &&& final(state).my_sender_key == old(state).my_sender_key
            },
        forall|i: int, padded: Seq<u8>|
            #[trigger] group_dec_ready(*old(state), sender_hash@, *msg, i, padded) ==> r is Ok
                && Some(r.unwrap()@) == unpad_spec(padded)
                && final(state).member_sender_keys@[i].1.chain_key@ == kdf_ck_next(
                old(state).member_sender_keys@[i].1.chain_key@,
            ),
{
    if msg.nonce.len() != 12 {
        return Err(ProtoError::Malformed);
    }
    let mut i: usize = 0;
    let mut found: Option<usize> = None;
    while i < state.member_sender_keys.len()
        invariant
            i <= state.member_sender_keys@.len(),
            found matches Some(k) ==> k < state.member_sender_keys@.len()
                && state.member_sender_keys@[k as int].0@ == sender_hash@ && (forall|j: int|
                0 <= j < k ==> (#[trigger] state.member_sender_keys@[j]).0@ != sender_hash@),
            found is None ==> forall|j: int|
                0 <= j < i ==> (#[trigger] state.member_sender_keys@[j]).0@ != sender_hash@,
        decreases state.member_sender_keys@.len() - i,
    {
        if found.is_none() && state.member_sender_keys[i].0 == *sender_hash {
            found = Some(i);
        }
        i = i + 1;
    }
    let idx = match found {
        Some(k) => k,
        None => {
            return Err(ProtoError::NotFound);
        },
    };

    let ck0 = bytes_copy(state.member_sender_keys[idx].1.chain_key.as_slice());
    let (next_ck, mk) = match kdf_ck(ck0.as_slice()) {
        Ok(t) => t,
        Err(e) => {
            return Err(e);
        },
    };
    let padded = match aes256_gcm_decrypt(mk.as_slice(), msg.nonce.as_slice(), msg.body.as_slice())
    {
        Some(v) => v,
        None => {
            return Err(ProtoError::Crypto);
        },
    };
    let ghost g_padded = padded@;
    let p = match unpad_message(padded.as_slice()) {
        Ok(v) => v,
        Err(e) => {
            return Err(e);
        },
    };

    let entry = &mut state.member_sender_keys[idx];

    // Commit: advance the member's chain.
    entry.1.chain_key = next_ck;
    Ok(p)
}

} // verus!
