use aes_gcm::aead::{Aead, KeyInit};
use sha2::Digest;
use tfgrid_sdk_rust::live::crypto::{
    decrypt_rmb_payload, e2e_key_from_entropy, generate_wireguard_private_key, jwt_signing_input,
    jwt_with_signature, signing_payload, wireguard_key_from,
};
use tfgrid_sdk_rust::GridError;

#[test]
fn jwt_parts_are_url_safe_base64_of_sorted_claims() {
    assert_eq!(
        jwt_signing_input(7, 1000, 60, Some("s1")),
        "eyJhbGciOiJSUzUxMiIsInR5cCI6IkpXVCJ9.eyJleHAiOjEwNjAsImlhdCI6MTAwMCwic2lkIjoiczEiLCJzdWIiOjd9"
    );
    assert_eq!(
        jwt_signing_input(7, 1000, 60, None),
        "eyJhbGciOiJSUzUxMiIsInR5cCI6IkpXVCJ9.eyJleHAiOjEwNjAsImlhdCI6MTAwMCwic3ViIjo3fQ"
    );
    assert_eq!(jwt_with_signature("a.b", &[1, 2, 255]), "a.b.cwEC_w");
}

#[test]
fn wireguard_keys_are_clamped_and_standard_base64() {
    let bytes: Vec<u8> = (0u8..32).collect();
    assert_eq!(wireguard_key_from(&bytes), "AAECAwQFBgcICQoLDA0ODxAREhMUFRYXGBkaGxwdHl8=");
    let fresh = generate_wireguard_private_key();
    assert_eq!(fresh.len(), 44);
    assert!(fresh.ends_with('='));
}

#[test]
fn long_signing_inputs_are_hashed_with_blake2b() {
    assert_eq!(signing_payload(&[1u8; 10]), vec![1u8; 10]);
    assert_eq!(
        signing_payload(&[1u8; 300]),
        vec![
            76, 174, 3, 139, 82, 177, 169, 136, 44, 53, 215, 11, 59, 20, 209, 209, 201, 159, 209, 90, 183, 156, 207,
            203, 201, 167, 188, 120, 134, 159, 122, 68
        ]
    );
}

#[test]
fn e2e_key_is_the_pbkdf2_seed_prefix() {
    let entropy: Vec<u8> = (0u8..16).collect();
    assert_eq!(
        e2e_key_from_entropy(&entropy).expect("key"),
        vec![
            4, 181, 190, 228, 78, 75, 3, 154, 117, 7, 248, 158, 33, 210, 142, 193, 83, 240, 180, 125, 164, 52, 131,
            162, 169, 248, 10, 254, 9, 38, 25, 178
        ]
    );
}

#[test]
fn relay_payloads_open_with_the_shared_secret() {
    let sender = secp256k1::SecretKey::from_slice(&[0x11; 32]).expect("sender");
    let receiver = [0x22u8; 32];
    let secp = secp256k1::Secp256k1::new();
    let sender_public = secp256k1::PublicKey::from_secret_key(&secp, &sender);
    let receiver_key = secp256k1::SecretKey::from_slice(&receiver).expect("receiver");
    let point = secp256k1::ecdh::shared_secret_point(&sender_public, &receiver_key);
    let key = sha2::Sha256::digest(&point[..32]);
    let cipher = aes_gcm::Aes256Gcm::new_from_slice(key.as_slice()).expect("cipher");
    let nonce = [3u8; 12];
    let sealed = cipher.encrypt(aes_gcm::Nonce::from_slice(&nonce), b"hello".as_ref()).expect("encrypt");
    let mut payload = nonce.to_vec();
    payload.extend_from_slice(&sealed);
    let public_hex = format!("0x{}", hex::encode(sender_public.serialize()));

    let opened = decrypt_rmb_payload(&receiver, 9, Some(&public_hex), &payload).expect("open");
    assert_eq!(opened, b"hello".to_vec());

    let missing = decrypt_rmb_payload(&receiver, 9, None, &payload).expect_err("no key");
    assert_eq!(missing.message(), "backend error: twin 9 missing public key");

    let short = decrypt_rmb_payload(&receiver, 9, Some(&public_hex), &payload[..5]).expect_err("short");
    assert_eq!(short.message(), "backend error: invalid encrypted RMB payload");

    let mut tampered = payload.clone();
    let last = tampered.len() - 1;
    tampered[last] ^= 1;
    let err = decrypt_rmb_payload(&receiver, 9, Some(&public_hex), &tampered).expect_err("tampered");
    assert!(matches!(err, GridError::Backend(m) if m.starts_with("decrypt RMB payload: ")));
}
