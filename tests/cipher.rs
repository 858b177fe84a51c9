use aes_gcm::aead::Aead;
use aes_gcm::{Aes256Gcm, Key, KeyInit, Nonce};
use base64::prelude::BASE64_STANDARD;
use base64::Engine;
use password_vault::cipher::{decrypt_token, derive_key, encrypt_token, seal_with_nonce};
use password_vault::error::VaultError;

fn key_of(password: &str, salt: &str) -> Vec<u8> {
    derive_key(password, salt).unwrap()
}

#[test]
fn derived_key_is_deterministic_and_32_bytes() {
    let a = key_of("hunter2", "c2FsdHNhbHRzYWx0");
    let b = key_of("hunter2", "c2FsdHNhbHRzYWx0");
    assert_eq!(a.len(), 32);
    assert_eq!(a, b);
    let c = key_of("hunter2", "b3RoZXJzYWx0c2FsdA");
    assert_ne!(a, c);
    let d = key_of("Hunter2", "c2FsdHNhbHRzYWx0");
    assert_ne!(a, d);
}

#[test]
fn short_salt_is_a_kdf_error() {
    assert!(matches!(derive_key("hunter2", "short"), Err(VaultError::KdfError)));
    assert!(matches!(derive_key("hunter2", ""), Err(VaultError::KdfError)));
}

#[test]
fn decrypt_inverts_encrypt() {
    let key = key_of("hunter2", "c2FsdHNhbHRzYWx0");
    for plain in ["p@ss", "", "correct horse battery staple", "päss wörd ✓"] {
        let token = encrypt_token(plain, &key).unwrap();
        let opened = decrypt_token(&token, &key).unwrap();
        assert_eq!(opened.as_str(), plain);
    }
}

#[test]
fn token_is_nonce_then_ciphertext_and_tag() {
    let key = key_of("hunter2", "c2FsdHNhbHRzYWx0");
    let nonce = vec![7u8; 12];
    let token = seal_with_nonce("p@ss", &key, &nonce).unwrap();
    assert_ne!(token, "p@ss");
    let raw = BASE64_STANDARD.decode(&token).unwrap();
    assert_eq!(raw.len(), 12 + 4 + 16);
    assert!(raw.len() >= 29);
    assert_eq!(&raw[..12], &nonce[..]);
    let empty = seal_with_nonce("", &key, &nonce).unwrap();
    assert_eq!(BASE64_STANDARD.decode(&empty).unwrap().len(), 28);
}

#[test]
fn two_encryptions_use_fresh_nonces() {
    let key = key_of("hunter2", "c2FsdHNhbHRzYWx0");
    let a = encrypt_token("p@ss", &key).unwrap();
    let b = encrypt_token("p@ss", &key).unwrap();
    assert_ne!(a, b);
    let ra = BASE64_STANDARD.decode(&a).unwrap();
    let rb = BASE64_STANDARD.decode(&b).unwrap();
    assert_ne!(&ra[..12], &rb[..12]);
    assert_eq!(decrypt_token(&a, &key).unwrap().as_str(), "p@ss");
    assert_eq!(decrypt_token(&b, &key).unwrap().as_str(), "p@ss");
}

#[test]
fn same_nonce_gives_same_token() {
    let key = key_of("hunter2", "c2FsdHNhbHRzYWx0");
    let nonce = vec![1u8; 12];
    let a = seal_with_nonce("p@ss", &key, &nonce).unwrap();
    let b = seal_with_nonce("p@ss", &key, &nonce).unwrap();
    assert_eq!(a, b);
}

#[test]
fn malformed_tokens_are_refused() {
    let key = key_of("hunter2", "c2FsdHNhbHRzYWx0");
    assert!(matches!(decrypt_token("not base64 at all!", &key), Err(VaultError::MalformedToken)));
    let twelve = BASE64_STANDARD.encode([0u8; 12]);
    assert!(matches!(decrypt_token(&twelve, &key), Err(VaultError::MalformedToken)));
    let thirteen = BASE64_STANDARD.encode([0u8; 13]);
    assert!(matches!(decrypt_token(&thirteen, &key), Err(VaultError::AuthFailed)));
}

#[test]
fn wrong_key_fails_authentication() {
    let key = key_of("hunter2", "c2FsdHNhbHRzYWx0");
    let other = key_of("Hunter2", "c2FsdHNhbHRzYWx0");
    let token = encrypt_token("p@ss", &key).unwrap();
    assert!(matches!(decrypt_token(&token, &other), Err(VaultError::AuthFailed)));
}

#[test]
fn tampered_token_fails_authentication() {
    let key = key_of("hunter2", "c2FsdHNhbHRzYWx0");
    let token = encrypt_token("p@ss", &key).unwrap();
    let mut raw = BASE64_STANDARD.decode(&token).unwrap();
    raw[13] ^= 1;
    let tampered = BASE64_STANDARD.encode(&raw);
    assert!(matches!(decrypt_token(&tampered, &key), Err(VaultError::AuthFailed)));
}

#[test]
fn non_utf8_plaintext_is_refused() {
    let key = key_of("hunter2", "c2FsdHNhbHRzYWx0");
    let cipher = Aes256Gcm::new(Key::<Aes256Gcm>::from_slice(&key));
    let nonce = [3u8; 12];
    let sealed = cipher.encrypt(Nonce::from_slice(&nonce), &[0xffu8, 0xfe][..]).unwrap();
    let mut raw = nonce.to_vec();
    raw.extend_from_slice(&sealed);
    let token = BASE64_STANDARD.encode(&raw);
    assert!(matches!(decrypt_token(&token, &key), Err(VaultError::MalformedPlaintext)));
}
