use vstd::prelude::*;

use crate::errors::ProtoError;
use crate::primitives::{aes256_gcm_decrypt, aes256_gcm_encrypt, hkdf_sha256, hmac_sha256, sha512};
use crate::primitives::{aes_gcm_ct_of, b64_of, hex_spec, hkdf_sha256_of, hmac_sha256_of,
    sha256_of, sha512_of};
use crate::primitives::{encode_b64, random_bytes, MAX_AEAD_PLAINTEXT};
use crate::primitives::{ed25519_pub_to_montgomery, ed_to_mont_of};
use crate::wire::{encode_header, header_plain_of, lemma_dec_of_u32_len, lemma_header_round_trip,
    parse_header, parse_header_spec, Header};
use vstd::string::StringSliceAdditionalSpecFns;

verus! {

/// HKDF label for the initial root key of the hybrid X3DH+PQ agreement.
pub open spec fn info_x3dh() -> Seq<u8> {
    "EntropyV1 X3DH+PQ".spec_bytes()
}

/// HKDF label for a root-key ratchet step.
pub open spec fn info_ratchet() -> Seq<u8> {
    "EntropyV1 Ratchet".spec_bytes()
}

/// HKDF label for mixing the post-quantum shared secret into the root key.
pub open spec fn info_pq_mix() -> Seq<u8> {
    "EntropyV1 PQ Mix".spec_bytes()
}

/// HKDF label for the initiator's initial sending header key.
pub open spec fn info_header_send() -> Seq<u8> {
    "EntropyV1 HeaderSend".spec_bytes()
}

/// HKDF label for the initiator's initial receiving header key.
pub open spec fn info_header_recv() -> Seq<u8> {
    "EntropyV1 HeaderRecv".spec_bytes()
}

/// Domain-separation prefix hashed into every safety number.
pub open spec fn safety_label() -> Seq<u8> {
    "EntropySafetyNumberV1".spec_bytes()
}

/// Label bytes for `info_x3dh`.
pub fn info_x3dh_bytes() -> (r: &'static [u8])
    ensures
        r@ == info_x3dh(),
{
    "EntropyV1 X3DH+PQ".as_bytes()
}

/// Label bytes for `info_ratchet`.
pub fn info_ratchet_bytes() -> (r: &'static [u8])
    ensures
        r@ == info_ratchet(),
{
    "EntropyV1 Ratchet".as_bytes()
}

/// Label bytes for `info_pq_mix`.
pub fn info_pq_mix_bytes() -> (r: &'static [u8])
    ensures
        r@ == info_pq_mix(),
{
    "EntropyV1 PQ Mix".as_bytes()
}

/// Label bytes for `info_header_send`.
pub fn info_header_send_bytes() -> (r: &'static [u8])
    ensures
        r@ == info_header_send(),
{
    "EntropyV1 HeaderSend".as_bytes()
}

/// Label bytes for `info_header_recv`.
pub fn info_header_recv_bytes() -> (r: &'static [u8])
    ensures
        r@ == info_header_recv(),
{
    "EntropyV1 HeaderRecv".as_bytes()
}

/// Label bytes for `safety_label`.
pub fn safety_label_bytes() -> (r: &'static [u8])
    ensures
        r@ == safety_label(),
{
    "EntropySafetyNumberV1".as_bytes()
}

/// The next chain key in a symmetric chain: `HMAC-SHA-256(ck, 0x01)`.
pub open spec fn kdf_ck_next(ck: Seq<u8>) -> Seq<u8> {
    hmac_sha256_of(ck, seq![1u8])
}

/// The message key drawn from a chain key: `HMAC-SHA-256(ck, 0x02)`.
pub open spec fn kdf_ck_mk(ck: Seq<u8>) -> Seq<u8> {
    hmac_sha256_of(ck, seq![2u8])
}

/// The chain key after `k` advances of the symmetric chain.
pub open spec fn chain_at(ck: Seq<u8>, k: nat) -> Seq<u8>
    decreases k,
{
    if k == 0 {
        ck
    } else {
        kdf_ck_next(chain_at(ck, (k - 1) as nat))
    }
}

/// The 96 bytes of HKDF output of a root-key ratchet step.
pub open spec fn kdf_rk_okm(rk: Seq<u8>, dh: Seq<u8>) -> Seq<u8> {
    hkdf_sha256_of(rk, dh, info_ratchet(), 96)
}

/// The new root key of a ratchet step.
pub open spec fn kdf_rk_root(rk: Seq<u8>, dh: Seq<u8>) -> Seq<u8> {
    kdf_rk_okm(rk, dh).subrange(0, 32)
}

/// The new chain key of a ratchet step.
pub open spec fn kdf_rk_chain(rk: Seq<u8>, dh: Seq<u8>) -> Seq<u8> {
    kdf_rk_okm(rk, dh).subrange(32, 64)
}

/// The next header key of a ratchet step.
pub open spec fn kdf_rk_header(rk: Seq<u8>, dh: Seq<u8>) -> Seq<u8> {
    kdf_rk_okm(rk, dh).subrange(64, 96)
}

/// The root key after the post-quantum shared secret is mixed in.
pub open spec fn pq_mix_spec(rk: Seq<u8>, pq: Seq<u8>) -> Seq<u8> {
    hkdf_sha256_of(rk, pq, info_pq_mix(), 32)
}

/// Advance a symmetric chain: derive the next chain key and the message key
/// for the current position.
pub fn kdf_ck(ck: &[u8]) -> (r: Result<(Vec<u8>, Vec<u8>), ProtoError>)
    ensures
        r matches Ok(p) ==> p.0@ == kdf_ck_next(ck@) && p.1@ == kdf_ck_mk(ck@) && p.0@.len() == 32
            && p.1@.len() == 32,
        r is Ok,
{
    let mut one: Vec<u8> = Vec::new();
    one.push(1u8);
    let mut two: Vec<u8> = Vec::new();
    two.push(2u8);
    proof {
        assert(one@ =~= seq![1u8]);
        assert(two@ =~= seq![2u8]);
    }
    let next = hmac_sha256(ck, one.as_slice());
    let mk = hmac_sha256(ck, two.as_slice());
    Ok((next, mk))
}

/// One root-key ratchet step: HKDF the Diffie-Hellman output with the old
/// root key as salt into a new root key, a fresh chain key and the next
/// header key.
pub fn kdf_rk(rk: &[u8], dh_out: &[u8]) -> (r: Result<(Vec<u8>, Vec<u8>, Vec<u8>), ProtoError>)
    ensures
        r matches Ok(t) ==> t.0@ == kdf_rk_root(rk@, dh_out@) && t.1@ == kdf_rk_chain(rk@, dh_out@)
            && t.2@ == kdf_rk_header(rk@, dh_out@) && t.0@.len() == 32 && t.1@.len() == 32
            && t.2@.len() == 32,
        r is Ok,
{
    let okm = hkdf_sha256(rk, dh_out, info_ratchet_bytes(), 96);
    let new_rk = crate::bytes::bytes_range(okm.as_slice(), 0, 32);
    let new_ck = crate::bytes::bytes_range(okm.as_slice(), 32, 64);
    let new_hk = crate::bytes::bytes_range(okm.as_slice(), 64, 96);
    Ok((new_rk, new_ck, new_hk))
}

/// Mix the post-quantum shared secret into a root key.
pub fn rk_mix_pq(rk: &[u8], pq_secret: &[u8]) -> (r: Result<Vec<u8>, ProtoError>)
    ensures
        r matches Ok(v) ==> v@ == pq_mix_spec(rk@, pq_secret@) && v@.len() == 32,
        r is Ok,
{
    Ok(hkdf_sha256(rk, pq_secret, info_pq_mix_bytes(), 32))
}

/// Convert an Ed25519 public key to its X25519 (Montgomery) form.  Fails
/// with `Malformed` when the bytes are not 32 long or do not decompress to a
/// curve point.
pub fn ed25519_pub_to_x25519(ed_pub: &[u8]) -> (r: Result<Vec<u8>, ProtoError>)
    ensures
        r matches Ok(v) ==> ed_pub@.len() == 32 && ed_to_mont_of(ed_pub@) == Some(v@) && v@.len()
            == 32,
        r matches Err(e) ==> e == ProtoError::Malformed && (ed_pub@.len() != 32 || ed_to_mont_of(
            ed_pub@,
        ) is None),
{
    if ed_pub.len() != 32 {
        return Err(ProtoError::Malformed);
    }
    match ed25519_pub_to_montgomery(ed_pub) {
        Some(v) => Ok(v),
        None => Err(ProtoError::Malformed),
    }
}

/// The X25519 scalar belonging to an Ed25519 seed: the first 32 bytes of the
/// seed's SHA-512 digest.
pub open spec fn ed_priv_to_x_spec(seed: Seq<u8>) -> Seq<u8> {
    sha512_of(seed).subrange(0, 32)
}

/// Convert an Ed25519 private seed to the matching X25519 private scalar.
pub fn ed25519_priv_to_x25519(ed_priv_seed: &[u8]) -> (r: Result<Vec<u8>, ProtoError>)
    ensures
        r matches Ok(v) ==> ed_priv_seed@.len() == 32 && v@ == ed_priv_to_x_spec(ed_priv_seed@)
            && v@.len() == 32,
        r matches Err(e) ==> e == ProtoError::Malformed && ed_priv_seed@.len() != 32,
{
    if ed_priv_seed.len() != 32 {
        return Err(ProtoError::Malformed);
    }
    let h = sha512(ed_priv_seed);
    Ok(crate::bytes::bytes_range(h.as_slice(), 0, 32))
}

/// Plaintexts are padded to the next multiple of this block size before
/// encryption, so ciphertext lengths leak at most a coarse size class.
pub const PAD_BLOCK: usize = 512;

/// Number of pad bytes appended to a message of length `len`, not counting
/// the two-byte trailer: always between 1 and 512.
pub open spec fn pad_len_of(len: nat) -> nat {
    (512 - (len % 512)) as nat
}

/// The padded form of a message: the message, `pad_len_of` filler bytes each
/// holding `pad_len mod 256`, then the pad length as a big-endian 16-bit
/// trailer.
pub open spec fn pad_spec(m: Seq<u8>) -> Seq<u8> {
    let p = pad_len_of(m.len());
    m + Seq::new(p, |i: int| (p % 256) as u8) + seq![(p / 256) as u8, (p % 256) as u8]
}

/// Reading back a padded message: the trailer gives the pad length, which
/// must satisfy `1 <= pad_len <= len - 2`; the message is what precedes the
/// pad. `None` means the padding is invalid.
pub open spec fn unpad_spec(p: Seq<u8>) -> Option<Seq<u8>> {
    if p.len() < 2 {
        None
    } else {
        let pl = (p[p.len() - 2] as nat) * 256 + (p[p.len() - 1] as nat);
        if 1 <= pl && pl <= p.len() - 2 {
            Some(p.subrange(0, p.len() - pl - 2))
        } else {
            None
        }
    }
}

/// Pad a plaintext up to the next multiple of 512 bytes and append the
/// big-endian 16-bit pad-length trailer.
pub fn pad_message(message: &[u8]) -> (r: Vec<u8>)
    requires
        message@.len() + 514 <= usize::MAX,
    ensures
        r@ == pad_spec(message@),
        r@.len() == message@.len() + pad_len_of(message@.len()) + 2,
        (r@.len() - 2) % 512 == 0,
{
    let len = message.len();
    let pad_len: usize = PAD_BLOCK - (len % PAD_BLOCK);
    let fill: u8 = (pad_len % 256) as u8;
    let mut out = crate::bytes::bytes_copy(message);
    let mut i: usize = 0;
    while i < pad_len
        invariant
            i <= pad_len,
            pad_len == pad_len_of(message@.len()),
            fill == (pad_len % 256) as u8,
            out@ == message@ + Seq::new(i as nat, |j: int| fill),
            out@.len() == message@.len() + i,
        decreases pad_len - i,
    {
        out.push(fill);
        i = i + 1;
        proof {
            assert(out@ =~= message@ + Seq::new(i as nat, |j: int| fill));
        }
    }
    let hi: u8 = (pad_len / 256) as u8;
    out.push(hi);
    out.push(fill);
    proof {
        assert(out@ =~= pad_spec(message@));
        assert((message@.len() + pad_len_of(message@.len())) % 512 == 0) by {
            assert(pad_len_of(message@.len()) == 512 - (message@.len() % 512));
        };
    }
    out
}

/// Remove the padding written by `pad_message`.  Fails with `Malformed` when
/// the trailer is absent or inconsistent.
pub fn unpad_message(padded: &[u8]) -> (r: Result<Vec<u8>, ProtoError>)
    ensures
        r matches Ok(v) ==> unpad_spec(padded@) == Some(v@),
        r matches Err(e) ==> unpad_spec(padded@) is None && e == ProtoError::Malformed,
{
    let len = padded.len();
    if len < 2 {
        return Err(ProtoError::Malformed);
    }
    let hi = padded[len - 2];
    let lo = padded[len - 1];
    let pad_len: usize = (hi as usize) * 256 + (lo as usize);
    if pad_len == 0 || pad_len > len - 2 {
        return Err(ProtoError::Malformed);
    }
    Ok(crate::bytes::bytes_range(padded, 0, len - pad_len - 2))
}

/// An emitted header plaintext is short: at most 93 bytes.
pub proof fn lemma_header_plain_len(rk_b64: Seq<u8>, n: u32, pn: u32)
    requires
        rk_b64.len() == 44,
    ensures
        header_plain_of(rk_b64, n, pn).len() <= 93,
{
    lemma_dec_of_u32_len(n);
    lemma_dec_of_u32_len(pn);
}

/// Encrypt a ratchet header: render the JSON header plaintext and seal it
/// under the given header key with a fresh nonce.  Returns the ciphertext
/// and the nonce.
pub fn encrypt_header(key: &[u8], ratchet_pub: &[u8], n: u32, pn: u32) -> (r: Result<
    (Vec<u8>, Vec<u8>),
    ProtoError,
>)
    requires
        key@.len() == 32,
        ratchet_pub@.len() == 32,
    ensures
        r matches Ok(t) ==> t.1@.len() == 12 && t.0@ == aes_gcm_ct_of(
            key@,
            t.1@,
            header_plain_of(b64_of(ratchet_pub@), n, pn),
        ),
        r is Ok,
{
    let rk_b64 = encode_b64(ratchet_pub);
    let header_pt = encode_header(rk_b64.as_slice(), n, pn);
    proof {
        lemma_header_plain_len(rk_b64@, n, pn);
    }
    let nonce = random_bytes(12);
    let ct = aes256_gcm_encrypt(key, nonce.as_slice(), header_pt.as_slice());
    Ok((ct, nonce))
}

/// Decrypt and parse a ratchet header.  Succeeds exactly on ciphertexts
/// sealed under this key and nonce whose plaintext is a well-formed header
/// object; in particular it inverts `encrypt_header`.
pub fn decrypt_header(key: &[u8], ciphertext: &[u8], nonce: &[u8]) -> (r: Result<
    Header,
    ProtoError,
>)
    requires
        key@.len() == 32,
    ensures
        r matches Err(e) ==> e == ProtoError::Malformed || e == ProtoError::Crypto,
        r matches Ok(h) ==> h.ratchet_key_b64@.len() == 44 && nonce@.len() == 12 && exists|
            pt: Seq<u8>,
        |
            ciphertext@ == aes_gcm_ct_of(key@, nonce@, pt) && #[trigger] parse_header_spec(pt)
                == Some((h.ratchet_key_b64@, h.n, h.pn)),
        forall|rk_b64: Seq<u8>, n: u32, pn: u32|
            (rk_b64.len() == 44 && nonce@.len() == 12 && ciphertext@ == aes_gcm_ct_of(
                key@,
                nonce@,
                header_plain_of(rk_b64, n, pn),
            )) ==> r is Ok && r.unwrap().ratchet_key_b64@ == rk_b64 && r.unwrap().n == n
                && r.unwrap().pn == pn,
{
    if nonce.len() != 12 {
        return Err(ProtoError::Malformed);
    }
    let pt = match aes256_gcm_decrypt(key, nonce, ciphertext) {
        Some(v) => v,
        None => {
            proof {
                assert forall|rk_b64: Seq<u8>, n: u32, pn: u32|
                    (rk_b64.len() == 44 && nonce@.len() == 12 && ciphertext@ == aes_gcm_ct_of(
                        key@,
                        nonce@,
                        header_plain_of(rk_b64, n, pn),
                    )) implies false by {
                    lemma_header_plain_len(rk_b64, n, pn);
                }
            }
            return Err(ProtoError::Crypto);
        },
    };
    let h = match parse_header(pt.as_slice()) {
        Some(h) => h,
        None => {
            proof {
                assert forall|rk_b64: Seq<u8>, n: u32, pn: u32|
                    (rk_b64.len() == 44 && nonce@.len() == 12 && ciphertext@ == aes_gcm_ct_of(
                        key@,
                        nonce@,
                        header_plain_of(rk_b64, n, pn),
                    )) implies false by {
                    lemma_header_plain_len(rk_b64, n, pn);
                    lemma_header_round_trip(rk_b64, n, pn);
                }
            }
            return Err(ProtoError::Malformed);
        },
    };
    proof {
        assert forall|rk_b64: Seq<u8>, n: u32, pn: u32|
            (rk_b64.len() == 44 && nonce@.len() == 12 && ciphertext@ == aes_gcm_ct_of(
                key@,
                nonce@,
                header_plain_of(rk_b64, n, pn),
            )) implies h.ratchet_key_b64@ == rk_b64 && h.n == n && h.pn == pn by {
            lemma_header_plain_len(rk_b64, n, pn);
            lemma_header_round_trip(rk_b64, n, pn);
        }
    }
    Ok(h)
}

/// Sign a message with an identity's long-term Ed25519 key and return the
/// Base64 rendering of the 64-byte signature.
pub fn sign_message(identity: &crate::types::ProtocolIdentity, message: &[u8]) -> (r: Result<
    Vec<u8>,
    ProtoError,
>)
    ensures
        r matches Ok(sig) ==> sig@ == b64_of(
            crate::primitives::ed25519_sig_of(identity.identity_keys.private_key@, message@),
        ),
        r matches Err(e) ==> e == ProtoError::Malformed && identity.identity_keys.private_key@.len()
            != 32,
{
    if identity.identity_keys.private_key.len() != 32 {
        return Err(ProtoError::Malformed);
    }
    let sig = crate::primitives::ed25519_sign(
        identity.identity_keys.private_key.as_slice(),
        message,
    );
    Ok(encode_b64(sig.as_slice()))
}

/// Lexicographic byte order.
pub open spec fn lex_le(a: Seq<u8>, b: Seq<u8>) -> bool
    decreases a.len(),
{
    if a.len() == 0 {
        true
    } else if b.len() == 0 {
        false
    } else if a[0] < b[0] {
        true
    } else if a[0] > b[0] {
        false
    } else {
        lex_le(a.drop_first(), b.drop_first())
    }
}

/// The lexicographic order is total.
pub proof fn lemma_lex_le_total(a: Seq<u8>, b: Seq<u8>)
    ensures
        lex_le(a, b) || lex_le(b, a),
    decreases a.len(),
{
    if a.len() > 0 && b.len() > 0 && a[0] == b[0] {
        lemma_lex_le_total(a.drop_first(), b.drop_first());
    }
}

/// The lexicographic order is antisymmetric.
pub proof fn lemma_lex_le_antisym(a: Seq<u8>, b: Seq<u8>)
    requires
        lex_le(a, b),
        lex_le(b, a),
    ensures
        a == b,
    decreases a.len(),
{
    if a.len() == 0 {
        assert(b.len() == 0);
        assert(a =~= b);
    } else {
        assert(b.len() > 0);
        assert(a[0] == b[0]);
        lemma_lex_le_antisym(a.drop_first(), b.drop_first());
        assert forall|i: int| 1 <= i < a.len() implies a[i] == b[i] by {
            assert(a[i] == a.drop_first()[i - 1]);
            assert(b[i] == b.drop_first()[i - 1]);
        }
        assert(a =~= b);
    }
}

/// Compare two byte strings lexicographically.
pub fn bytes_lex_le(a: &[u8], b: &[u8]) -> (r: bool)
    ensures
        r == lex_le(a@, b@),
{
    proof {
        assert(a@.skip(0) =~= a@);
        assert(b@.skip(0) =~= b@);
    }
    let mut i: usize = 0;
    while i < a.len() && i < b.len() && a[i] == b[i]
        invariant
            i <= a@.len(),
            i <= b@.len(),
            lex_le(a@, b@) == lex_le(a@.skip(i as int), b@.skip(i as int)),
            lex_le(b@, a@) == lex_le(b@.skip(i as int), a@.skip(i as int)),
        decreases a@.len() - i,
    {
        proof {
            assert(a@.skip(i + 1 as int) =~= a@.skip(i as int).drop_first());
            assert(b@.skip(i + 1 as int) =~= b@.skip(i as int).drop_first());
            assert(a@.skip(i as int)[0] == b@.skip(i as int)[0]);
        }
        i = i + 1;
    }
    if i == a.len() {
        proof {
            assert(a@.skip(i as int) =~= Seq::<u8>::empty());
        }
        true
    } else if i == b.len() {
        proof {
            assert(b@.skip(i as int) =~= Seq::<u8>::empty());
            assert(a@.skip(i as int).len() > 0);
        }
        false
    } else {
        proof {
            assert(a@.skip(i as int)[0] == a@[i as int]);
            assert(b@.skip(i as int)[0] == b@[i as int]);
        }
        a[i] < b[i]
    }
}

/// The big-endian 32-bit word at offset `i` of a byte sequence.
pub open spec fn be32_at(s: Seq<u8>, i: int) -> nat {
    (s[i] as nat) * 0x1000000 + (s[i + 1] as nat) * 0x10000 + (s[i + 2] as nat) * 0x100 + (s[i
        + 3] as nat)
}

/// Five zero-padded decimal digits of `v mod 100000`.
pub open spec fn digits5(v: nat) -> Seq<u8> {
    seq![
        (48 + ((v / 10000) % 10)) as u8,
        (48 + ((v / 1000) % 10)) as u8,
        (48 + ((v / 100) % 10)) as u8,
        (48 + ((v / 10) % 10)) as u8,
        (48 + (v % 10)) as u8,
    ]
}

/// The rendered safety number of a 32-byte digest: the first 28 bytes as
/// seven big-endian words, each shown as five decimal digits modulo 100000,
/// joined by spaces.
pub open spec fn safety_render(h: Seq<u8>) -> Seq<u8> {
    digits5(be32_at(h, 0) % 100000) + seq![32u8] + digits5(be32_at(h, 4) % 100000) + seq![32u8]
        + digits5(be32_at(h, 8) % 100000) + seq![32u8] + digits5(be32_at(h, 12) % 100000)
        + seq![32u8] + digits5(be32_at(h, 16) % 100000) + seq![32u8] + digits5(
        be32_at(h, 20) % 100000,
    ) + seq![32u8] + digits5(be32_at(h, 24) % 100000)
}

/// The safety number of two identity keys: sort them, hash them under the
/// domain-separation label, and render the digest.
pub open spec fn safety_spec(a: Seq<u8>, b: Seq<u8>) -> Seq<u8> {
    let lo = if lex_le(a, b) {
        a
    } else {
        b
    };
    let hi = if lex_le(a, b) {
        b
    } else {
        a
    };
    safety_render(sha256_of(safety_label() + lo + hi))
}

/// Push the five digits of `v mod 100000` onto `out`.
fn push_digits5(out: &mut Vec<u8>, v: u32)
    ensures
        final(out)@ == old(out)@ + digits5(v as nat),
{
    out.push((48 + ((v / 10000) % 10)) as u8);
    out.push((48 + ((v / 1000) % 10)) as u8);
    out.push((48 + ((v / 100) % 10)) as u8);
    out.push((48 + ((v / 10) % 10)) as u8);
    out.push((48 + (v % 10)) as u8);
    proof {
        assert(out@ =~= old(out)@ + digits5(v as nat));
    }
}

/// Read the big-endian word at offset `i` of a digest.
fn read_be32(h: &Vec<u8>, i: usize) -> (r: u32)
    requires
        i + 4 <= h@.len(),
        h@.len() <= 64,
    ensures
        r as nat == be32_at(h@, i as int),
{
    (h[i] as u32) * 0x1000000 + (h[i + 1] as u32) * 0x10000 + (h[i + 2] as u32) * 0x100 + (h[i
        + 3] as u32)
}

/// Compute the safety number shown to users for verifying two identity
/// keys (given in their Base64 form).  The result is symmetric in the two
/// keys.
pub fn calculate_safety_number(me_ik: &[u8], peer_ik: &[u8]) -> (r: Result<Vec<u8>, ProtoError>)
    requires
        me_ik@.len() + peer_ik@.len() + 64 <= usize::MAX,
    ensures
        r matches Ok(v) ==> v@ == safety_spec(me_ik@, peer_ik@),
        r is Ok,
{
    let me_first = bytes_lex_le(me_ik, peer_ik);
    let mut data = crate::bytes::bytes_copy(safety_label_bytes());
    if me_first {
        crate::bytes::bytes_extend(&mut data, me_ik);
        crate::bytes::bytes_extend(&mut data, peer_ik);
    } else {
        crate::bytes::bytes_extend(&mut data, peer_ik);
        crate::bytes::bytes_extend(&mut data, me_ik);
    }
    let h = crate::primitives::sha256(data.as_slice());
    let mut out: Vec<u8> = Vec::new();
    push_digits5(&mut out, read_be32(&h, 0) % 100000);
    out.push(32u8);
    push_digits5(&mut out, read_be32(&h, 4) % 100000);
    out.push(32u8);
    push_digits5(&mut out, read_be32(&h, 8) % 100000);
    out.push(32u8);
    push_digits5(&mut out, read_be32(&h, 12) % 100000);
    out.push(32u8);
    push_digits5(&mut out, read_be32(&h, 16) % 100000);
    out.push(32u8);
    push_digits5(&mut out, read_be32(&h, 20) % 100000);
    out.push(32u8);
    push_digits5(&mut out, read_be32(&h, 24) % 100000);
    proof {
        assert(out@ =~= safety_render(sha256_of(data@)));
        assert(data@ =~= safety_label() + (if lex_le(me_ik@, peer_ik@) {
            me_ik@
        } else {
            peer_ik@
        }) + (if lex_le(me_ik@, peer_ik@) {
            peer_ik@
        } else {
            me_ik@
        }));
    }
    Ok(out)
}

/// The safety number is symmetric: both parties compute the same digits.
pub proof fn lemma_safety_number_symmetric(a: Seq<u8>, b: Seq<u8>)
    ensures
        safety_spec(a, b) == safety_spec(b, a),
{
    lemma_lex_le_total(a, b);
    if lex_le(a, b) && lex_le(b, a) {
        lemma_lex_le_antisym(a, b);
    }
}

/// The input hashed at each proof-of-work attempt: the seed, the context,
/// and the decimal rendering of the nonce.
pub open spec fn pow_input(seed: Seq<u8>, context: Seq<u8>, nonce: u64) -> Seq<u8> {
    seed + context + crate::wire::dec_of(nonce as nat)
}

/// The hex digest tested at each proof-of-work attempt.
pub open spec fn pow_hash(seed: Seq<u8>, context: Seq<u8>, nonce: u64) -> Seq<u8> {
    hex_spec(sha256_of(pow_input(seed, context, nonce)))
}

/// Whether a nonce wins: the hex digest starts with `difficulty` zero
/// digits.
pub open spec fn pow_ok(seed: Seq<u8>, context: Seq<u8>, nonce: u64, difficulty: u32) -> bool {
    forall|i: int| 0 <= i < difficulty ==> pow_hash(seed, context, nonce)[i] == 48
}

/// Whether the first `difficulty` bytes of `h` are ASCII zeros.
fn leading_zeros(h: &Vec<u8>, difficulty: u32) -> (r: bool)
    requires
        difficulty <= h@.len(),
    ensures
        r == forall|i: int| 0 <= i < difficulty ==> h@[i] == 48,
{
    let mut i: usize = 0;
    while i < difficulty as usize
        invariant
            i <= difficulty,
            difficulty <= h@.len(),
            forall|j: int| 0 <= j < i ==> h@[j] == 48,
        decreases difficulty - i,
    {
        if h[i] != 48 {
            return false;
        }
        i = i + 1;
    }
    true
}

/// Mine a proof of work: find the least nonce whose attempt digest starts
/// with `difficulty` zero hex digits, counting up from zero.  Returns the
/// winning nonce and the hex digest.
pub fn mine_pow(seed: &[u8], difficulty: u32, context: &[u8]) -> (r: Result<
    (u64, Vec<u8>),
    ProtoError,
>)
    requires
        difficulty <= 64,
        seed@.len() + context@.len() + 32 <= usize::MAX,
    ensures
        r matches Ok(t) ==> {
            &&& t.1@ == pow_hash(seed@, context@, t.0)
            &&& pow_ok(seed@, context@, t.0, difficulty)
            &&& forall|m: u64| m < t.0 ==> !pow_ok(seed@, context@, m, difficulty)
        },
        r matches Err(e) ==> e == ProtoError::Protocol && forall|m: u64|
            !pow_ok(seed@, context@, m, difficulty),
{
    let mut nonce: u64 = 0;
    loop
        invariant
            difficulty <= 64,
            seed@.len() + context@.len() + 32 <= usize::MAX,
            forall|m: u64| m < nonce ==> !pow_ok(seed@, context@, m, difficulty),
        decreases u64::MAX - nonce,
    {
        let mut data = crate::bytes::bytes_copy(seed);
        crate::bytes::bytes_extend(&mut data, context);
        let dec = crate::wire::u64_to_dec(nonce);
        proof {
            crate::wire::lemma_dec_of_digits(nonce as nat);
            assert(crate::wire::pow10(20) > 0xFFFF_FFFF_FFFF_FFFFu64) by {
                reveal_with_fuel(crate::wire::pow10, 21);
            };
            crate::wire::lemma_dec_of_len(nonce as nat, 20);
        }
        crate::bytes::bytes_extend(&mut data, dec.as_slice());
        let digest = crate::primitives::sha256(data.as_slice());
        let hash = crate::primitives::hex_encode(digest.as_slice());
        proof {
            assert(data@ =~= pow_input(seed@, context@, nonce));
        }
        proof {
            assert(hash@ == pow_hash(seed@, context@, nonce));
        }
        if leading_zeros(&hash, difficulty) {
            proof {
                assert forall|i: int|
                    0 <= i < difficulty implies pow_hash(seed@, context@, nonce)[i] == 48 by {
                    assert(hash@[i] == 48);
                }
            }
            return Ok((nonce, hash));
        }
        proof {
            if pow_ok(seed@, context@, nonce, difficulty) {
                assert forall|i: int| 0 <= i < difficulty implies hash@[i] == 48 by {
                    assert(pow_hash(seed@, context@, nonce)[i] == 48);
                }
                assert(false);
            }
        }
        if nonce == u64::MAX {
            return Err(ProtoError::Protocol);
        }
        nonce = nonce + 1;
    }
}

/// Padding round trip: unpadding a padded message returns the message.
pub proof fn lemma_pad_unpad(m: Seq<u8>)
    ensures
        unpad_spec(pad_spec(m)) == Some(m),
{
    let p = pad_len_of(m.len());
    let padded = pad_spec(m);
    assert(1 <= p && p <= 512);
    assert(padded.len() == m.len() + p + 2);
    assert(padded[padded.len() - 2] == (p / 256) as u8);
    assert(padded[padded.len() - 1] == (p % 256) as u8);
    assert(((p / 256) as u8 as nat) * 256 + ((p % 256) as u8 as nat) == p);
    assert(padded.subrange(0, padded.len() - p - 2) =~= m);
}

/// Padding boundary: the padded form of any plaintext is two trailer bytes
/// more than a positive multiple of 512.
pub proof fn lemma_pad_boundary(m: Seq<u8>)
    ensures
        (pad_spec(m).len() - 2) % 512 == 0,
        pad_spec(m).len() >= m.len() + 3,
{
    let p = pad_len_of(m.len());
    assert(1 <= p && p <= 512);
    assert((m.len() + p) % 512 == 0) by {
        assert(p == 512 - (m.len() % 512));
    };
}

} // verus!
