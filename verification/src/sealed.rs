//! Sealed sender: an anonymous envelope built from an ephemeral X25519
//! agreement plus a Kyber-1024 encapsulation to the recipient's identity
//! keys.  The AEAD key is the SHA-256 digest of the two shared secrets; the
//! inner plaintext is a JSON object naming the sender.

use vstd::prelude::*;

use crate::errors::ProtoError;
use crate::primitives::{aes_gcm_ct_of, aes256_gcm_decrypt, aes256_gcm_encrypt, kyber_decap_of,
    kyber_pk_of, kyber1024_decapsulate, kyber1024_encapsulate, random_bytes, sha256, sha256_of,
    x25519_base_of, x25519_dh_of, x25519_diffie_hellman, x25519_public_key, KYBER_CT_LEN, KYBER_PK_LEN, KYBER_SK_LEN,
    MAX_AEAD_PLAINTEXT};
use crate::types::SealedMessage;
use crate::wire::{encode_sealed, lemma_sealed_round_trip, parse_sealed, parse_sealed_spec,
    sealed_plain_of};

verus! {

/// The AEAD key of a sealed envelope: the digest of the X25519 shared secret
/// followed by the KEM shared secret.
pub open spec fn sealed_key_of(dh: Seq<u8>, pq_ss: Seq<u8>) -> Seq<u8> {
    sha256_of(dh + pq_ss)
}

/// Seal a message to a recipient: sample an ephemeral X25519 key, agree with
/// the recipient's identity key, encapsulate to their Kyber identity key,
/// and seal the inner envelope naming the sender under the combined key.
pub fn seal_sender(
    message: &[u8],
    my_identity_public_b64: &[u8],
    recipient_identity_public: &[u8],
    recipient_pq_identity_public: &[u8],
) -> (r: Result<SealedMessage, ProtoError>)
    requires
        message@.len() + 200 <= MAX_AEAD_PLAINTEXT,
    ensures
        r is Ok <==> (my_identity_public_b64@.len() == 44 && recipient_identity_public@.len() == 32
            && recipient_pq_identity_public@.len() == KYBER_PK_LEN),
        r matches Err(e) ==> e == ProtoError::Malformed,
        r matches Ok(sm) ==> sm.ephemeral_public@.len() == 32,
        r matches Ok(sm) ==> exists|eph: Seq<u8>, pq_ss: Seq<u8>|
            #![trigger sealed_key_of(x25519_dh_of(eph, recipient_identity_public@), pq_ss)]
            {
                &&& eph.len() == 32
                &&& pq_ss.len() == 32
                &&& sm.ephemeral_public@ == x25519_base_of(eph)
                &&& sm.pq_ct@.len() == KYBER_CT_LEN
                &&& forall|sk: Seq<u8>|
                    (sk.len() == KYBER_SK_LEN && kyber_pk_of(sk)
                        == recipient_pq_identity_public@) ==> kyber_decap_of(sm.pq_ct@, sk)
                        == pq_ss
                &&& sm.nonce@.len() == 12
                &&& sm.ciphertext@ == aes_gcm_ct_of(
                    sealed_key_of(x25519_dh_of(eph, recipient_identity_public@), pq_ss),
                    sm.nonce@,
                    sealed_plain_of(my_identity_public_b64@, message@),
                )
                &&& forall|o: Seq<u8>|
                    (o.len() == 32 && recipient_identity_public@ == x25519_base_of(o))
                        ==> x25519_dh_of(eph, recipient_identity_public@) == #[trigger] x25519_dh_of(
                        o,
                        x25519_base_of(eph),
                    )
                &&& sm.ciphertext@.len() == sealed_plain_of(
                    my_identity_public_b64@,
                    message@,
                ).len() + 16
            },
{
    if my_identity_public_b64.len() != 44 || recipient_identity_public.len() != 32
        || recipient_pq_identity_public.len() != KYBER_PK_LEN {
        return Err(ProtoError::Malformed);
    }
    let eph = random_bytes(32);
    let ghost g_eph = eph@;
    let eph_pub = x25519_public_key(eph.as_slice());
    let dh = x25519_diffie_hellman(eph.as_slice(), recipient_identity_public);
    let (pq_ss, pq_ct) = kyber1024_encapsulate(recipient_pq_identity_public);
    let ghost g_pq_ss = pq_ss@;

    let km = crate::bytes::bytes_concat(dh.as_slice(), pq_ss.as_slice());
    let aes_key = sha256(km.as_slice());

    let inner = encode_sealed(my_identity_public_b64, message);
    let nonce = random_bytes(12);
    let ciphertext = aes256_gcm_encrypt(aes_key.as_slice(), nonce.as_slice(), inner.as_slice());
    let out = SealedMessage { ephemeral_public: eph_pub, pq_ct, nonce, ciphertext };
    proof {
        assert(aes_key@ == sealed_key_of(x25519_dh_of(g_eph, recipient_identity_public@), g_pq_ss));
        assert(out.ciphertext@ == aes_gcm_ct_of(
            sealed_key_of(x25519_dh_of(g_eph, recipient_identity_public@), g_pq_ss),
            out.nonce@,
            sealed_plain_of(my_identity_public_b64@, message@),
        ));
        assert(g_eph.len() == 32);
        assert(g_pq_ss.len() == 32);
        assert(out.ephemeral_public@ == x25519_base_of(g_eph));
        assert(out.pq_ct@.len() == KYBER_CT_LEN);
        assert(forall|sk: Seq<u8>|
            (sk.len() == KYBER_SK_LEN && kyber_pk_of(sk) == recipient_pq_identity_public@)
                ==> kyber_decap_of(out.pq_ct@, sk) == g_pq_ss);
        assert(out.nonce@.len() == 12);
        assert(forall|o: Seq<u8>|
            (o.len() == 32 && recipient_identity_public@ == x25519_base_of(o)) ==> x25519_dh_of(
                g_eph,
                recipient_identity_public@,
            ) == #[trigger] x25519_dh_of(o, x25519_base_of(g_eph)));
        assert(out.ciphertext@.len() == sealed_plain_of(my_identity_public_b64@, message@).len()
            + 16);
    }
    Ok(out)
}

/// Unseal an envelope with our identity scalars: recompute the X25519
/// agreement with the ephemeral key, decapsulate the KEM ciphertext, open
/// the AEAD and parse the inner envelope into the sender's Base64 identity
/// key and the payload.
pub fn unseal_sender(
    sealed: &SealedMessage,
    my_identity_secret: &[u8],
    my_pq_identity_secret: &[u8],
) -> (r: Result<(Vec<u8>, Vec<u8>), ProtoError>)
    requires
        my_identity_secret@.len() == 32,
        my_pq_identity_secret@.len() == KYBER_SK_LEN,
    ensures
        r matches Ok(t) ==> exists|pt: Seq<u8>|
            sealed.ciphertext@ == aes_gcm_ct_of(
                sealed_key_of(
                    x25519_dh_of(my_identity_secret@, sealed.ephemeral_public@),
                    kyber_decap_of(sealed.pq_ct@, my_pq_identity_secret@),
                ),
                sealed.nonce@,
                pt,
            ) && #[trigger] parse_sealed_spec(pt) == Some((t.0@, t.1@)),
        forall|sender_b64: Seq<u8>, msg: Seq<u8>|
            (sender_b64.len() == 44 && sealed.ephemeral_public@.len() == 32 && sealed.pq_ct@.len()
                == KYBER_CT_LEN && sealed.nonce@.len() == 12 && sealed_plain_of(
                sender_b64,
                msg,
            ).len() <= MAX_AEAD_PLAINTEXT && sealed.ciphertext@ == aes_gcm_ct_of(
                sealed_key_of(
                    x25519_dh_of(my_identity_secret@, sealed.ephemeral_public@),
                    kyber_decap_of(sealed.pq_ct@, my_pq_identity_secret@),
                ),
                sealed.nonce@,
                sealed_plain_of(sender_b64, msg),
            )) ==> r is Ok && r.unwrap().0@ == sender_b64 && r.unwrap().1@ == msg,
{
    if sealed.ephemeral_public.len() != 32 || sealed.pq_ct.len() != KYBER_CT_LEN
        || sealed.nonce.len() != 12 {
        return Err(ProtoError::Malformed);
    }
    let dh = x25519_diffie_hellman(my_identity_secret, sealed.ephemeral_public.as_slice());
    let pq_ss = kyber1024_decapsulate(sealed.pq_ct.as_slice(), my_pq_identity_secret);
    let km = crate::bytes::bytes_concat(dh.as_slice(), pq_ss.as_slice());
    let aes_key = sha256(km.as_slice());

    let pt = match aes256_gcm_decrypt(
        aes_key.as_slice(),
        sealed.nonce.as_slice(),
        sealed.ciphertext.as_slice(),
    ) {
        Some(v) => v,
        None => {
            proof {
                assert forall|sender_b64: Seq<u8>, msg: Seq<u8>|
                    (sender_b64.len() == 44 && sealed_plain_of(sender_b64, msg).len()
                        <= MAX_AEAD_PLAINTEXT && sealed.ciphertext@ == aes_gcm_ct_of(
                        sealed_key_of(
                            x25519_dh_of(my_identity_secret@, sealed.ephemeral_public@),
                            kyber_decap_of(sealed.pq_ct@, my_pq_identity_secret@),
                        ),
                        sealed.nonce@,
                        sealed_plain_of(sender_b64, msg),
                    )) implies false by {}
            }
            return Err(ProtoError::Crypto);
        },
    };
    match parse_sealed(pt.as_slice()) {
        Some(t) => {
            proof {
                assert forall|sender_b64: Seq<u8>, msg: Seq<u8>|
                    (sender_b64.len() == 44 && sealed_plain_of(sender_b64, msg).len()
                        <= MAX_AEAD_PLAINTEXT && sealed.ciphertext@ == aes_gcm_ct_of(
                        sealed_key_of(
                            x25519_dh_of(my_identity_secret@, sealed.ephemeral_public@),
                            kyber_decap_of(sealed.pq_ct@, my_pq_identity_secret@),
                        ),
                        sealed.nonce@,
                        sealed_plain_of(sender_b64, msg),
                    )) implies t.0@ == sender_b64 && t.1@ == msg by {
                    lemma_sealed_round_trip(sender_b64, msg);
                }
            }
            Ok(t)
        },
        None => {
            proof {
                assert forall|sender_b64: Seq<u8>, msg: Seq<u8>|
                    (sender_b64.len() == 44 && sealed_plain_of(sender_b64, msg).len()
                        <= MAX_AEAD_PLAINTEXT && sealed.ciphertext@ == aes_gcm_ct_of(
                        sealed_key_of(
                            x25519_dh_of(my_identity_secret@, sealed.ephemeral_public@),
                            kyber_decap_of(sealed.pq_ct@, my_pq_identity_secret@),
                        ),
                        sealed.nonce@,
                        sealed_plain_of(sender_b64, msg),
                    )) implies false by {
                    lemma_sealed_round_trip(sender_b64, msg);
                }
            }
            Err(ProtoError::Malformed)
        },
    }
}

} // verus!
