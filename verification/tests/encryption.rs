use pwstash::encryption::{decrypt, derive_key, encrypt, zeroize_key, KEY_LEN, SALT_LEN};
use pwstash::error::{EncryptionError, StashError};

fn test_salt() -> [u8; SALT_LEN] {
    *b"0123456789abcdef"
}

#[test]
fn derive_key_is_deterministic() {
    let salt = test_salt();
    let a = derive_key("correct horse battery staple", &salt).unwrap();
    let b = derive_key("correct horse battery staple", &salt).unwrap();
    assert_eq!(a, b);
}

#[test]
fn derive_key_differs_for_different_passwords() {
    let salt = test_salt();
    let a = derive_key("alpha", &salt).unwrap();
    let b = derive_key("bravo", &salt).unwrap();
    assert_ne!(a, b);
}

#[test]
fn encrypt_decrypt_roundtrip() {
    let key = derive_key("master", &test_salt()).unwrap();
    let (nonce, ct) = encrypt(b"hello vault", &key).unwrap();
    let pt = decrypt(&nonce, &ct, &key).unwrap();
    assert_eq!(pt, b"hello vault");
}

#[test]
fn wrong_key_fails_closed() {
    let key = derive_key("master", &test_salt()).unwrap();
    let other = derive_key("other", &test_salt()).unwrap();
    let (nonce, ct) = encrypt(b"secret", &key).unwrap();
    let err = decrypt(&nonce, &ct, &other).unwrap_err();
    assert!(matches!(
        err,
        StashError::EncryptionError(EncryptionError::Decrypt)
    ));
}

#[test]
fn mutated_ciphertext_fails() {
    let key = derive_key("master", &test_salt()).unwrap();
    let (nonce, mut ct) = encrypt(b"secret", &key).unwrap();
    let last = ct.len() - 1;
    ct[last] ^= 0xff;
    assert!(decrypt(&nonce, &ct, &key).is_err());
}

#[test]
fn truncated_ciphertext_fails() {
    let key = derive_key("master", &test_salt()).unwrap();
    let (nonce, ct) = encrypt(b"secret", &key).unwrap();
    assert!(decrypt(&nonce, &ct[..3], &key).is_err());
}

#[test]
fn derive_key_rejects_short_salt() {
    let err = derive_key("master", b"short").unwrap_err();
    assert_eq!(
        err,
        StashError::EncryptionError(EncryptionError::InvalidKeyLength)
    );
}

#[test]
fn derive_key_depends_on_salt() {
    let a = derive_key("master", b"0123456789abcdef").unwrap();
    let b = derive_key("master", b"fedcba9876543210").unwrap();
    assert_ne!(a, b);
}

#[test]
fn ciphertext_is_tag_longer_than_plaintext() {
    let key = derive_key("master", &test_salt()).unwrap();
    let (_, ct) = encrypt(b"twelve bytes", &key).unwrap();
    assert_eq!(ct.len(), 12 + 16);
    assert_ne!(&ct[..12], b"twelve bytes");
}

#[test]
fn fresh_nonce_each_encryption() {
    let key = derive_key("master", &test_salt()).unwrap();
    let (n1, c1) = encrypt(b"same", &key).unwrap();
    let (n2, c2) = encrypt(b"same", &key).unwrap();
    assert_ne!(n1, n2);
    assert_ne!(c1, c2);
}

#[test]
fn zeroize_key_wipes_every_byte() {
    let mut key = derive_key("master", &test_salt()).unwrap();
    assert_ne!(key, [0u8; KEY_LEN]);
    zeroize_key(&mut key);
    assert_eq!(key, [0u8; KEY_LEN]);
}

#[test]
fn salts_are_random() {
    let a = pwstash::encryption::generate_salt().unwrap();
    let b = pwstash::encryption::generate_salt().unwrap();
    assert_ne!(a, b);
}
