//! Per-file media encryption: a fresh random AES-256-GCM key and nonce for
//! every file, with a SHA-256 digest of the plaintext carried in the key
//! bundle and checked again on decryption.

use vstd::prelude::*;

use crate::bytes::bytes_eq;
use crate::errors::ProtoError;
use crate::primitives::{aes_gcm_ct_of, aes256_gcm_decrypt, aes256_gcm_encrypt, random_bytes,
    sha256, sha256_of, MAX_AEAD_PLAINTEXT};
use crate::types::MediaKeyBundle;

verus! {

/// Encrypt a file under a fresh random key and nonce, and return the
/// ciphertext with the key bundle holding key, nonce and plaintext digest.
pub fn encrypt_media(data: &[u8], file_name: &String, file_type: &String) -> (r: Result<
    (Vec<u8>, MediaKeyBundle),
    ProtoError,
>)
    requires
        data@.len() <= MAX_AEAD_PLAINTEXT,
    ensures
        r is Ok,
        r matches Ok(t) ==> {
            &&& t.1.key@.len() == 32
            &&& t.1.nonce@.len() == 12
            &&& t.0@ == aes_gcm_ct_of(t.1.key@, t.1.nonce@, data@)
            &&& t.1.digest@ == sha256_of(data@)
            &&& t.1.file_name@ == file_name@
            &&& t.1.file_type@ == file_type@
        },
{
    let key = random_bytes(32);
    let nonce = random_bytes(12);
    let ciphertext = aes256_gcm_encrypt(key.as_slice(), nonce.as_slice(), data);
    let digest = sha256(data);
    let bundle = MediaKeyBundle {
        key,
        nonce,
        digest,
        file_name: file_name.clone(),
        file_type: file_type.clone(),
    };
    Ok((ciphertext, bundle))
}

/// Decrypt a media file with its key bundle and verify the plaintext digest.
/// Succeeds exactly on ciphertexts sealed under the bundle's key and nonce
/// whose plaintext hashes to the bundle's digest.
pub fn decrypt_media(ciphertext: &[u8], bundle: &MediaKeyBundle) -> (r: Result<
    Vec<u8>,
    ProtoError,
>)
    ensures
        r matches Ok(p) ==> ciphertext@ == aes_gcm_ct_of(bundle.key@, bundle.nonce@, p@)
            && sha256_of(p@) == bundle.digest@,
        forall|p: Seq<u8>|
            (bundle.key@.len() == 32 && bundle.nonce@.len() == 12 && p.len()
                <= MAX_AEAD_PLAINTEXT && ciphertext@ == aes_gcm_ct_of(bundle.key@, bundle.nonce@, p)
                && sha256_of(p) == bundle.digest@) ==> r is Ok && r.unwrap()@ == p,
{
    if bundle.key.len() != 32 || bundle.nonce.len() != 12 {
        return Err(ProtoError::Malformed);
    }
    let pt = match aes256_gcm_decrypt(
        bundle.key.as_slice(),
        bundle.nonce.as_slice(),
        ciphertext,
    ) {
        Some(v) => v,
        None => {
            return Err(ProtoError::Crypto);
        },
    };
    let digest = sha256(pt.as_slice());
    if !bytes_eq(digest.as_slice(), bundle.digest.as_slice()) {
        return Err(ProtoError::Crypto);
    }
    Ok(pt)
}

} // verus!
