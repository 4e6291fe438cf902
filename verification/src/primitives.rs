//! Trusted boundary of the crate: every call into an outside cryptographic
//! library goes through exactly one wrapper in this module.  Each wrapper's
//! contract states only what the library's source or documentation shows.
//! Results that are pure functions of the arguments but have no short
//! mathematical statement (hashes, MACs, curve operations, KEM operations,
//! the Base64 code) are given uninterpreted names; everything the rest of
//! the crate proves about them flows through these contracts.

use vstd::prelude::*;

use aes_gcm::aead::{Aead, KeyInit};
use aes_gcm::{Aes256Gcm, Nonce};
use base64::engine::general_purpose::STANDARD as BASE64;
use base64::Engine as _;
use curve25519_dalek::edwards::CompressedEdwardsY;
use ed25519_dalek::Signer;
use hkdf::Hkdf;
use hmac::Mac;
use pqcrypto_kyber::kyber1024;
use pqcrypto_traits::kem::{Ciphertext, PublicKey as PqPublicKey, SecretKey as PqSecretKey,
    SharedSecret};
use rand::{thread_rng, RngCore};
use sha2::{Digest, Sha256, Sha512};
use x25519_dalek::{PublicKey as XPublicKey, StaticSecret};

verus! {

/// Byte length of a Kyber-1024 public key.
pub const KYBER_PK_LEN: usize = 1568;

/// Byte length of a Kyber-1024 secret key.
pub const KYBER_SK_LEN: usize = 3168;

/// Byte length of a Kyber-1024 KEM ciphertext.
pub const KYBER_CT_LEN: usize = 1568;

/// Byte length of a Kyber-1024 shared secret.
pub const KYBER_SS_LEN: usize = 32;

/// Largest plaintext the AEAD wrappers accept: 256 MiB.  AES-GCM itself
/// permits up to 2^36 bytes, but that constant would not even fit a 32-bit
/// `usize`; this bound keeps every length computation (padding, framing,
/// digests) trivially within `usize` on any platform, and is far beyond any
/// message or media file the protocol carries.
pub const MAX_AEAD_PLAINTEXT: usize = 0x10000000;

/// The bytes of the standard padded Base64 encoding of `b`.
pub uninterp spec fn b64_of(b: Seq<u8>) -> Seq<u8>;

/// Length of the standard padded Base64 encoding of `n` input bytes.
pub open spec fn b64_len(n: nat) -> nat {
    4 * ((n + 2) / 3)
}

/// The SHA-256 digest of a byte sequence.
pub uninterp spec fn sha256_of(m: Seq<u8>) -> Seq<u8>;

/// The SHA-512 digest of a byte sequence.
pub uninterp spec fn sha512_of(m: Seq<u8>) -> Seq<u8>;

/// The HMAC-SHA-256 tag of message `m` under key `key`.
pub uninterp spec fn hmac_sha256_of(key: Seq<u8>, m: Seq<u8>) -> Seq<u8>;

/// The `n`-byte HKDF-SHA-256 output for the given salt, input key material
/// and info label.
pub uninterp spec fn hkdf_sha256_of(salt: Seq<u8>, ikm: Seq<u8>, info: Seq<u8>, n: nat) -> Seq<u8>;

/// The AES-256-GCM ciphertext (message body followed by the 16-byte tag) of
/// `pt` under `key` and the 12-byte `nonce`, with empty associated data.
pub uninterp spec fn aes_gcm_ct_of(key: Seq<u8>, nonce: Seq<u8>, pt: Seq<u8>) -> Seq<u8>;

/// The X25519 public key of the (clamped) private scalar `sk`.
pub uninterp spec fn x25519_base_of(sk: Seq<u8>) -> Seq<u8>;

/// The X25519 shared secret between private scalar `sk` and public key `pk`.
pub uninterp spec fn x25519_dh_of(sk: Seq<u8>, pk: Seq<u8>) -> Seq<u8>;

/// The Ed25519 public key derived from a 32-byte seed.
pub uninterp spec fn ed25519_pub_of(seed: Seq<u8>) -> Seq<u8>;

/// The Ed25519 signature over `m` by the key with seed `seed`.
pub uninterp spec fn ed25519_sig_of(seed: Seq<u8>, m: Seq<u8>) -> Seq<u8>;

/// The Montgomery u-coordinate of a compressed Edwards point, or `None`
/// when the bytes are not a valid point.
pub uninterp spec fn ed_to_mont_of(ed: Seq<u8>) -> Option<Seq<u8>>;

/// The Kyber-1024 public key whose encapsulations a secret key correctly
/// decapsulates; `keypair` returns exactly such a pair.
pub uninterp spec fn kyber_pk_of(sk: Seq<u8>) -> Seq<u8>;

/// The Kyber-1024 decapsulation of ciphertext `ct` under secret key `sk`.
pub uninterp spec fn kyber_decap_of(ct: Seq<u8>, sk: Seq<u8>) -> Seq<u8>;

/// Relies on base64's `STANDARD` engine `encode`: standard alphabet with
/// padding, four output bytes for every three input bytes.
#[verifier::external_body]
pub fn encode_b64(b: &[u8]) -> (r: Vec<u8>)
    ensures
        r@ == b64_of(b@),
        r@.len() == b64_len(b@.len()),
{
    BASE64.encode(b).into_bytes()
}

/// Relies on base64's `STANDARD` engine `decode`: it requires canonical
/// padding and rejects non-zero trailing bits, so it accepts exactly the
/// canonical encodings and inverts `encode`.
#[verifier::external_body]
pub fn decode_b64(s: &[u8]) -> (r: Option<Vec<u8>>)
    ensures
        r matches Some(v) ==> s@ == b64_of(v@),
        forall|b: Seq<u8>| s@ == b64_of(b) ==> r is Some && r.unwrap()@ == b,
{
    BASE64.decode(s).ok()
}

/// Relies on sha2's `Sha256`: a 32-byte digest of the input alone.
#[verifier::external_body]
pub fn sha256(m: &[u8]) -> (r: Vec<u8>)
    ensures
        r@ == sha256_of(m@),
        r@.len() == 32,
{
    let mut h = Sha256::new();
    h.update(m);
    h.finalize().to_vec()
}

/// Relies on sha2's `Sha512`: a 64-byte digest of the input alone.
#[verifier::external_body]
pub fn sha512(m: &[u8]) -> (r: Vec<u8>)
    ensures
        r@ == sha512_of(m@),
        r@.len() == 64,
{
    let mut h = Sha512::new();
    h.update(m);
    h.finalize().to_vec()
}

/// Relies on hmac's `Hmac<Sha256>`: a 32-byte tag, a function of key and
/// message alone; any key length is accepted.
#[verifier::external_body]
pub fn hmac_sha256(key: &[u8], m: &[u8]) -> (r: Vec<u8>)
    ensures
        r@ == hmac_sha256_of(key@, m@),
        r@.len() == 32,
{
    let mut mac = <hmac::Hmac<Sha256> as Mac>::new_from_slice(key).expect("any key length");
    mac.update(m);
    mac.finalize().into_bytes().to_vec()
}

/// Relies on hkdf's `Hkdf::<Sha256>::new` and `expand`: `n` output bytes, a
/// function of salt, input key material and info alone; `expand` fails only
/// for outputs longer than 8160 bytes, which the precondition excludes.
#[verifier::external_body]
pub fn hkdf_sha256(salt: &[u8], ikm: &[u8], info: &[u8], n: usize) -> (r: Vec<u8>)
    requires
        n <= 8160,
    ensures
        r@ == hkdf_sha256_of(salt@, ikm@, info@, n as nat),
        r@.len() == n,
{
    let hk = Hkdf::<Sha256>::new(Some(salt), ikm);
    let mut okm = vec![0u8; n];
    hk.expand(info, &mut okm).expect("length checked");
    okm
}

/// Relies on aes-gcm's `Aes256Gcm` `encrypt` with empty associated data: the
/// ciphertext is a function of key, nonce and plaintext, 16 bytes longer
/// than the plaintext; encryption fails only above 2^36 bytes, which the
/// precondition excludes.
#[verifier::external_body]
pub fn aes256_gcm_encrypt(key: &[u8], nonce: &[u8], pt: &[u8]) -> (r: Vec<u8>)
    requires
        key@.len() == 32,
        nonce@.len() == 12,
        pt@.len() <= MAX_AEAD_PLAINTEXT,
    ensures
        r@ == aes_gcm_ct_of(key@, nonce@, pt@),
        r@.len() == pt@.len() + 16,
{
    let cipher = Aes256Gcm::new_from_slice(key).expect("32-byte key");
    cipher.encrypt(Nonce::from_slice(nonce), pt).expect("length checked")
}

/// Relies on aes-gcm's `Aes256Gcm` `decrypt`: it succeeds exactly on valid
/// ciphertexts, returning the unique plaintext whose encryption under the
/// same key and nonce is the input.
#[verifier::external_body]
pub fn aes256_gcm_decrypt(key: &[u8], nonce: &[u8], ct: &[u8]) -> (r: Option<Vec<u8>>)
    requires
        key@.len() == 32,
        nonce@.len() == 12,
    ensures
        r matches Some(p) ==> ct@ == aes_gcm_ct_of(key@, nonce@, p@) && p@.len() + 16 == ct@.len(),
        forall|p: Seq<u8>|
            (p.len() <= MAX_AEAD_PLAINTEXT && ct@ == aes_gcm_ct_of(key@, nonce@, p)) ==> r
                is Some && r.unwrap()@ == p,
{
    let cipher = Aes256Gcm::new_from_slice(key).expect("32-byte key");
    cipher.decrypt(Nonce::from_slice(nonce), ct).ok()
}

/// Relies on rand's `thread_rng` `fill_bytes`: `n` bytes from the operating
/// system's entropy source; nothing is promised of their values.
#[verifier::external_body]
pub fn random_bytes(n: usize) -> (r: Vec<u8>)
    ensures
        r@.len() == n,
{
    let mut out = vec![0u8; n];
    thread_rng().fill_bytes(&mut out);
    out
}

/// Relies on rand's `thread_rng` `next_u32`; nothing is promised of the
/// value.
#[verifier::external_body]
pub fn random_u32() -> (r: u32)
{
    thread_rng().next_u32()
}

/// Relies on x25519-dalek's `PublicKey::from(&StaticSecret)`: the public key
/// is a function of the private scalar alone.
#[verifier::external_body]
pub fn x25519_public_key(sk: &[u8]) -> (r: Vec<u8>)
    requires
        sk@.len() == 32,
    ensures
        r@ == x25519_base_of(sk@),
        r@.len() == 32,
{
    let secret = StaticSecret::from(<[u8; 32]>::try_from(sk).expect("32-byte scalar"));
    XPublicKey::from(&secret).as_bytes().to_vec()
}

/// Relies on x25519-dalek's `StaticSecret::diffie_hellman`: the shared
/// secret is a function of the two keys alone, and both parties derive the
/// same secret from their own scalar and the other's public key.
#[verifier::external_body]
pub fn x25519_diffie_hellman(sk: &[u8], pk: &[u8]) -> (r: Vec<u8>)
    requires
        sk@.len() == 32,
        pk@.len() == 32,
    ensures
        r@ == x25519_dh_of(sk@, pk@),
        r@.len() == 32,
        forall|o: Seq<u8>|
            (o.len() == 32 && pk@ == x25519_base_of(o)) ==> r@ == x25519_dh_of(
                o,
                x25519_base_of(sk@),
            ),
{
    let secret = StaticSecret::from(<[u8; 32]>::try_from(sk).expect("32-byte scalar"));
    let public = XPublicKey::from(<[u8; 32]>::try_from(pk).expect("32-byte key"));
    secret.diffie_hellman(&public).as_bytes().to_vec()
}

/// Relies on ed25519-dalek's `SigningKey::from_bytes` and `verifying_key`:
/// the public key is a function of the 32-byte seed alone, and its bytes are
/// the compressed encoding of a curve point, so the Montgomery conversion of
/// a derived public key always exists.
#[verifier::external_body]
pub fn ed25519_public_key(seed: &[u8]) -> (r: Vec<u8>)
    requires
        seed@.len() == 32,
    ensures
        r@ == ed25519_pub_of(seed@),
        r@.len() == 32,
        ed_to_mont_of(r@) is Some,
{
    let sk = ed25519_dalek::SigningKey::from_bytes(
        &<[u8; 32]>::try_from(seed).expect("32-byte seed"),
    );
    sk.verifying_key().to_bytes().to_vec()
}

/// Relies on ed25519-dalek's `SigningKey::sign`: Ed25519 signing is
/// deterministic, a 64-byte function of seed and message alone.
#[verifier::external_body]
pub fn ed25519_sign(seed: &[u8], m: &[u8]) -> (r: Vec<u8>)
    requires
        seed@.len() == 32,
    ensures
        r@ == ed25519_sig_of(seed@, m@),
        r@.len() == 64,
{
    let sk = ed25519_dalek::SigningKey::from_bytes(
        &<[u8; 32]>::try_from(seed).expect("32-byte seed"),
    );
    sk.sign(m).to_bytes().to_vec()
}

/// Relies on curve25519-dalek's `CompressedEdwardsY::decompress` and
/// `EdwardsPoint::to_montgomery`: decompression fails exactly on invalid
/// point encodings, and the Montgomery u-coordinate is a function of the
/// point alone.
#[verifier::external_body]
pub fn ed25519_pub_to_montgomery(ed: &[u8]) -> (r: Option<Vec<u8>>)
    requires
        ed@.len() == 32,
    ensures
        r matches Some(v) ==> ed_to_mont_of(ed@) == Some(v@) && v@.len() == 32,
        r is None ==> ed_to_mont_of(ed@) is None,
{
    let compressed = CompressedEdwardsY::from_slice(ed).expect("32-byte encoding");
    compressed.decompress().map(|p| p.to_montgomery().to_bytes().to_vec())
}

/// Relies on pqcrypto-kyber's `kyber1024::keypair`: a fresh keypair whose
/// secret key embeds the public key.
#[verifier::external_body]
pub fn kyber1024_keypair() -> (r: (Vec<u8>, Vec<u8>))
    ensures
        r.0@.len() == KYBER_PK_LEN,
        r.1@.len() == KYBER_SK_LEN,
        r.0@ == kyber_pk_of(r.1@),
{
    let (pk, sk) = kyber1024::keypair();
    (pk.as_bytes().to_vec(), sk.as_bytes().to_vec())
}

/// Relies on pqcrypto-kyber's `kyber1024::encapsulate` and KEM correctness:
/// decapsulating the returned ciphertext with the secret key belonging to
/// `pk` yields the returned shared secret.
#[verifier::external_body]
pub fn kyber1024_encapsulate(pk: &[u8]) -> (r: (Vec<u8>, Vec<u8>))
    requires
        pk@.len() == KYBER_PK_LEN,
    ensures
        r.0@.len() == KYBER_SS_LEN,
        r.1@.len() == KYBER_CT_LEN,
        forall|sk: Seq<u8>|
            (sk.len() == KYBER_SK_LEN && kyber_pk_of(sk) == pk@) ==> kyber_decap_of(r.1@, sk)
                == r.0@,
{
    let pk = kyber1024::PublicKey::from_bytes(pk).expect("length checked");
    let (ss, ct) = kyber1024::encapsulate(&pk);
    (ss.as_bytes().to_vec(), ct.as_bytes().to_vec())
}

/// Relies on pqcrypto-kyber's `kyber1024::decapsulate`: a 32-byte shared
/// secret, a function of ciphertext and secret key alone (implicit
/// rejection, no failure).
#[verifier::external_body]
pub fn kyber1024_decapsulate(ct: &[u8], sk: &[u8]) -> (r: Vec<u8>)
    requires
        ct@.len() == KYBER_CT_LEN,
        sk@.len() == KYBER_SK_LEN,
    ensures
        r@ == kyber_decap_of(ct@, sk@),
        r@.len() == KYBER_SS_LEN,
{
    let ct = kyber1024::Ciphertext::from_bytes(ct).expect("length checked");
    let sk = kyber1024::SecretKey::from_bytes(sk).expect("length checked");
    kyber1024::decapsulate(&ct, &sk).as_bytes().to_vec()
}

/// Hex digit (lowercase) for a nibble value below 16.
pub open spec fn hex_digit(n: u8) -> u8 {
    if n < 10 {
        (48 + n) as u8
    } else {
        (87 + n) as u8
    }
}

/// The lowercase hex encoding of a byte sequence, high nibble first.
pub open spec fn hex_spec(b: Seq<u8>) -> Seq<u8> {
    Seq::new(
        2 * b.len(),
        |i: int|
            if i % 2 == 0 {
                hex_digit(b[i / 2] / 16)
            } else {
                hex_digit(b[i / 2] % 16)
            },
    )
}

/// Relies on hex's `encode`: two lowercase hex digits per input byte, high
/// nibble first.
#[verifier::external_body]
pub fn hex_encode(b: &[u8]) -> (r: Vec<u8>)
    ensures
        r@ == hex_spec(b@),
        r@.len() == 2 * b@.len(),
{
    hex::encode(b).into_bytes()
}

} // verus!
