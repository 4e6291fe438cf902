use entropy_core::crypto::{calculate_safety_number, ed25519_priv_to_x25519,
    ed25519_pub_to_x25519, kdf_ck, kdf_rk, mine_pow, pad_message, rk_mix_pq, sign_message,
    unpad_message};
use entropy_core::errors::ProtoError;
use entropy_core::groups::{create_group_distribution_message, create_group_sender_key,
    group_decrypt, group_encrypt};
use entropy_core::media::{decrypt_media, encrypt_media};
use entropy_core::primitives::{decode_b64, encode_b64};
use entropy_core::sealed::{seal_sender, unseal_sender};
use entropy_core::types::{generate_new_identity, GroupState, PendingMessage, SenderKey};
use entropy_core::vault::{clear_vault, dump_vault, get_pending_messages, remove_pending_message,
    restore_vault, save_pending_message, vault_load, vault_save, Vault};

use ed25519_dalek::{Signature, Verifier, VerifyingKey};
use sha2::{Digest, Sha256};

#[test]
fn padding_round_trip_and_boundary() {
    for len in [0usize, 1, 17, 511, 512, 513, 1024] {
        let msg: Vec<u8> = (0..len).map(|i| (i % 251) as u8).collect();
        let padded = pad_message(&msg);
        // The padded plaintext is a multiple of 512 plus the two trailer
        // bytes.
        assert_eq!((padded.len() - 2) % 512, 0);
        assert!(padded.len() > msg.len());
        let back = unpad_message(&padded).expect("unpad");
        assert_eq!(back, msg);
    }
}

#[test]
fn unpad_rejects_bad_trailers() {
    assert_eq!(unpad_message(&[1]).unwrap_err(), ProtoError::Malformed);
    // pad length zero
    assert_eq!(unpad_message(&[0, 0, 0, 0]).unwrap_err(), ProtoError::Malformed);
    // pad length larger than the message
    assert_eq!(unpad_message(&[1, 2, 3, 255]).unwrap_err(), ProtoError::Malformed);
}

#[test]
fn base64_round_trip_and_canonicality() {
    let data = b"entropy core base64 check";
    let enc = encode_b64(data);
    assert_eq!(enc, b"ZW50cm9weSBjb3JlIGJhc2U2NCBjaGVjaw==".to_vec());
    let dec = decode_b64(&enc).expect("decode");
    assert_eq!(dec, data.to_vec());
    // "aGk=" is the canonical encoding of "hi".
    assert_eq!(decode_b64(b"aGk=").unwrap(), b"hi".to_vec());
    // Non-canonical padding is rejected by the standard engine.
    assert!(decode_b64(b"aGk").is_none());
    assert!(decode_b64(b"aGl=").is_none());
}

#[test]
fn chain_kdf_is_deterministic_and_separating() {
    let ck = vec![9u8; 32];
    let (ck1a, mk1a) = kdf_ck(&ck).unwrap();
    let (ck1b, mk1b) = kdf_ck(&ck).unwrap();
    assert_eq!(ck1a, ck1b);
    assert_eq!(mk1a, mk1b);
    assert_ne!(ck1a, mk1a);
    assert_ne!(ck1a, ck);
    let (rk, ckr, hk) = kdf_rk(&ck, &[1u8; 32]).unwrap();
    assert_eq!(rk.len(), 32);
    assert_eq!(ckr.len(), 32);
    assert_eq!(hk.len(), 32);
    assert_ne!(rk, ckr);
    let mixed = rk_mix_pq(&rk, &[2u8; 64]).unwrap();
    assert_eq!(mixed.len(), 32);
    assert_ne!(mixed, rk);
}

#[test]
fn ed25519_conversions() {
    let id = generate_new_identity();
    let x_pub = ed25519_pub_to_x25519(&id.identity_keys.public_key).expect("convert");
    assert_eq!(x_pub.len(), 32);
    let x_priv = ed25519_priv_to_x25519(&id.identity_keys.private_key).expect("convert");
    assert_eq!(x_priv.len(), 32);
    // A key of the wrong length is rejected.
    assert!(ed25519_pub_to_x25519(&[1u8, 2, 3]).is_err());
}

#[test]
fn signatures_verify_under_the_real_library() {
    let id = generate_new_identity();
    let sig_b64 = sign_message(&id, b"attested payload").expect("sign");
    let sig = decode_b64(&sig_b64).expect("decode");
    let vk = VerifyingKey::from_bytes(
        &<[u8; 32]>::try_from(id.identity_keys.public_key.as_slice()).unwrap(),
    )
    .unwrap();
    let sig = Signature::from_bytes(&<[u8; 64]>::try_from(sig.as_slice()).unwrap());
    assert!(vk.verify(b"attested payload", &sig).is_ok());
}

#[test]
fn safety_number_is_symmetric_and_exact() {
    let a = encode_b64(&[3u8; 32]);
    let b = encode_b64(&[7u8; 32]);
    let sab = calculate_safety_number(&a, &b).unwrap();
    let sba = calculate_safety_number(&b, &a).unwrap();
    // Both parties compute the same digits.
    assert_eq!(sab, sba);
    // Seven five-digit groups joined by spaces.
    assert_eq!(sab.len(), 41);
    // Exact value recomputed independently.
    let (lo, hi) = if a <= b { (&a, &b) } else { (&b, &a) };
    let mut hasher = Sha256::new();
    hasher.update(b"EntropySafetyNumberV1");
    hasher.update(lo);
    hasher.update(hi);
    let h = hasher.finalize();
    let mut expected = String::new();
    for chunk in h.chunks(4).take(7) {
        let w = u32::from_be_bytes(<[u8; 4]>::try_from(chunk).unwrap());
        expected.push_str(&format!("{:05}", w % 100000));
        expected.push(' ');
    }
    assert_eq!(String::from_utf8(sab).unwrap(), expected.trim());
}

#[test]
fn proof_of_work_finds_minimal_nonce() {
    let (nonce, hash) = mine_pow(b"seed", 1, b"ctx").expect("mine");
    assert_eq!(hash[0], b'0');
    // Recompute the digest independently.
    let mut hasher = Sha256::new();
    hasher.update(b"seed");
    hasher.update(b"ctx");
    hasher.update(nonce.to_string().as_bytes());
    assert_eq!(hash, hex::encode(hasher.finalize()).into_bytes());
    // Minimality: every smaller nonce loses.
    for m in 0..nonce {
        let mut hasher = Sha256::new();
        hasher.update(b"seed");
        hasher.update(b"ctx");
        hasher.update(m.to_string().as_bytes());
        assert_ne!(hex::encode(hasher.finalize()).as_bytes()[0], b'0');
    }
}

#[test]
fn s5_group_round_trip() {
    // A creates group G and distributes its sender key to B and C.
    let mut ga = GroupState {
        group_id: "G".to_string(),
        my_sender_key: Some(create_group_sender_key()),
        member_sender_keys: Vec::new(),
    };
    let dist = create_group_distribution_message(&ga).expect("distribution");
    assert_eq!(dist.group_id, "G");
    let member_key = |d: &entropy_core::types::GroupDistributionMessage| SenderKey {
        key_id: d.key_id,
        chain_key: d.chain_key.clone(),
        signature_key_private: vec![0u8; 32],
        signature_key_public: d.signature_key_public.clone(),
    };
    let mut gb = GroupState {
        group_id: "G".to_string(),
        my_sender_key: None,
        member_sender_keys: vec![("peer_a".to_string(), member_key(&dist))],
    };
    let mut gc = GroupState {
        group_id: "G".to_string(),
        my_sender_key: None,
        member_sender_keys: vec![("peer_a".to_string(), member_key(&dist))],
    };
    let msg = group_encrypt(&mut ga, b"hi").expect("group encrypt");
    let pb = group_decrypt(&mut gb, &"peer_a".to_string(), &msg).expect("b decrypts");
    let pc = group_decrypt(&mut gc, &"peer_a".to_string(), &msg).expect("c decrypts");
    assert_eq!(pb, b"hi".to_vec());
    assert_eq!(pc, b"hi".to_vec());
    // An unknown sender is rejected.
    let r = group_decrypt(&mut gb, &"peer_x".to_string(), &msg);
    assert_eq!(r.unwrap_err(), ProtoError::NotFound);
}

#[test]
fn s6_sealed_sender_round_trip() {
    let a = generate_new_identity();
    let b = generate_new_identity();
    let b_x_pub = ed25519_pub_to_x25519(&b.identity_keys.public_key).unwrap();
    let a_ik_b64 = encode_b64(&a.identity_keys.public_key);
    let sealed = seal_sender(
        b"{\"text\":\"x\"}",
        &a_ik_b64,
        &b_x_pub,
        &b.identity_keys.pq_public_key,
    )
    .expect("seal");
    let b_x_priv = ed25519_priv_to_x25519(&b.identity_keys.private_key).unwrap();
    let (sender, message) = unseal_sender(&sealed, &b_x_priv, &b.identity_keys.pq_private_key)
        .expect("unseal");
    assert_eq!(sender, a_ik_b64);
    assert_eq!(message, b"{\"text\":\"x\"}".to_vec());
    // A wrong recipient cannot unseal.
    let c = generate_new_identity();
    let c_x_priv = ed25519_priv_to_x25519(&c.identity_keys.private_key).unwrap();
    let r = unseal_sender(&sealed, &c_x_priv, &c.identity_keys.pq_private_key);
    assert!(r.is_err());
}

#[test]
fn media_round_trip_and_digest_check() {
    let data = b"a small media file".to_vec();
    let (ct, bundle) = encrypt_media(&data, &"a.txt".to_string(), &"text/plain".to_string())
        .expect("encrypt media");
    assert_ne!(ct, data);
    let back = decrypt_media(&ct, &bundle).expect("decrypt media");
    assert_eq!(back, data);
    // A tampered digest is a crypto failure.
    let mut bad = bundle;
    bad.digest[0] ^= 1;
    assert_eq!(decrypt_media(&ct, &bad).unwrap_err(), ProtoError::Crypto);
}

#[test]
fn vault_kv_round_trip() {
    let mut v = Vault::new();
    vault_save(&mut v, "test_key".to_string(), "test_value".to_string()).unwrap();
    vault_save(&mut v, "other".to_string(), "1".to_string()).unwrap();
    vault_save(&mut v, "test_key".to_string(), "test_value2".to_string()).unwrap();
    assert_eq!(vault_load(&v, &"test_key".to_string()), Some("test_value2".to_string()));
    assert_eq!(vault_load(&v, &"missing".to_string()), None);

    // A dump restored into a fresh vault reproduces every key/value pair.
    let dump = dump_vault(&v);
    let mut w = Vault::new();
    restore_vault(&mut w, dump).unwrap();
    assert_eq!(vault_load(&w, &"test_key".to_string()), Some("test_value2".to_string()));
    assert_eq!(vault_load(&w, &"other".to_string()), Some("1".to_string()));

    clear_vault(&mut v).unwrap();
    assert_eq!(vault_load(&v, &"test_key".to_string()), None);
}

#[test]
fn pending_queue_upserts_and_removes() {
    let mut v = Vault::new();
    let msg = |id: &str, retries: u32| PendingMessage {
        id: id.to_string(),
        recipient_hash: "peer".to_string(),
        body: "{}".to_string(),
        timestamp: 7,
        retries,
    };
    save_pending_message(&mut v, msg("a", 0)).unwrap();
    save_pending_message(&mut v, msg("b", 0)).unwrap();
    save_pending_message(&mut v, msg("a", 3)).unwrap();
    let all = get_pending_messages(&v).unwrap();
    assert_eq!(all.len(), 2);
    assert_eq!(all.iter().find(|m| m.id == "a").unwrap().retries, 3);
    remove_pending_message(&mut v, &"a".to_string()).unwrap();
    let all = get_pending_messages(&v).unwrap();
    assert_eq!(all.len(), 1);
    assert_eq!(all[0].id, "b");
}

#[test]
fn identity_and_sessions_persist_in_vault() {
    let a = generate_new_identity();
    let b = generate_new_identity();
    let reg = a.registration_id;
    assert!((1..=16383).contains(&reg));
    let bundle = entropy_core::types::PreKeyBundle {
        identity_key: b.identity_keys.public_key.clone(),
        signed_pre_key: b.signed_pre_key.public_key.clone(),
        signed_pre_key_pq: b.signed_pre_key.pq_public_key.clone(),
        pq_identity_key: b.identity_keys.pq_public_key.clone(),
        one_time_pre_key: None,
    };
    let session = entropy_core::session::establish_outbound_session(&a, &bundle).unwrap();
    let n_send = session.sequence_number_send;

    let mut v = Vault::new();
    a.save_to_db(&mut v).unwrap();
    let loaded = entropy_core::types::ProtocolIdentity::load_from_db(&v).unwrap().unwrap();
    assert_eq!(loaded.registration_id, reg);

    session.save_to_db(&mut v, &"peer_b".to_string()).unwrap();
    let loaded = entropy_core::types::SessionState::load_from_db(&v, &"peer_b".to_string())
        .unwrap()
        .expect("session");
    assert_eq!(loaded.sequence_number_send, n_send);
    assert!(
        entropy_core::types::SessionState::load_from_db(&v, &"peer_x".to_string())
            .unwrap()
            .is_none()
    );
}
