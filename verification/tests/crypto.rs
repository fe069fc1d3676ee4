use cloak::crypto::{
    decrypt_bytes, derive_key, encrypt_bytes, encrypt_with_nonce, generate_nonce, generate_salt,
    CryptoError, KEY_LEN, NONCE_LEN, SALT_LEN,
};

#[test]
fn test_crypto_roundtrip() {
    let password = b"super-secure-master-password";
    let salt = generate_salt();
    let key = derive_key(password, &salt).expect("Key derivation failed");

    let original_data = b"MY_SECRET_API_KEY=sk-test-123456789";
    let (nonce, ciphertext) = encrypt_bytes(&key, original_data).expect("Encryption failed");

    let decrypted = decrypt_bytes(&key, &nonce, &ciphertext).expect("Decryption failed");
    assert_eq!(&*decrypted, original_data);
}

#[test]
fn test_tampered_ciphertext_fails() {
    let password = b"password123";
    let salt = generate_salt();
    let key = derive_key(password, &salt).unwrap();

    let data = b"sensitive-data";
    let (nonce, mut ciphertext) = encrypt_bytes(&key, data).unwrap();

    if let Some(byte) = ciphertext.last_mut() {
        *byte ^= 0xFF;
    }

    let result = decrypt_bytes(&key, &nonce, &ciphertext);
    assert!(result.is_err());
}

#[test]
fn test_wrong_key_fails() {
    let salt = generate_salt();
    let key1 = derive_key(b"password-1", &salt).unwrap();
    let key2 = derive_key(b"password-2", &salt).unwrap();

    let data = b"payload";
    let (nonce, ciphertext) = encrypt_bytes(&key1, data).unwrap();

    let result = decrypt_bytes(&key2, &nonce, &ciphertext);
    assert!(result.is_err());
}

#[test]
fn derive_key_is_deterministic_and_salted() {
    let salt = [7u8; SALT_LEN];
    let k1 = derive_key(b"pw", &salt).unwrap();
    let k2 = derive_key(b"pw", &salt).unwrap();
    assert_eq!(k1, k2);
    assert_eq!(k1.len(), KEY_LEN);
    let k3 = derive_key(b"pw", &[8u8; SALT_LEN]).unwrap();
    assert_ne!(k1, k3);
}

#[test]
fn derive_key_rejects_short_salt() {
    let r = derive_key(b"pw", &[1u8; 4]);
    assert_eq!(r.unwrap_err(), CryptoError::KeyDerivation);
}

#[test]
fn ciphertext_carries_a_tag_and_differs_from_plaintext() {
    let key = [3u8; KEY_LEN];
    let nonce = [9u8; NONCE_LEN];
    let c = encrypt_with_nonce(&key, &nonce, b"hello").unwrap();
    assert_eq!(c.len(), 5 + 16);
    assert_ne!(&c[..5], b"hello");
    assert_eq!(decrypt_bytes(&key, &nonce, &c).unwrap(), b"hello".to_vec());
    assert_eq!(decrypt_bytes(&key, &nonce, &c[..4]).unwrap_err(), CryptoError::Decryption);
}

#[test]
fn random_material_has_the_right_size_and_varies() {
    assert_eq!(generate_salt().len(), SALT_LEN);
    assert_eq!(generate_nonce().len(), NONCE_LEN);
    assert_ne!(generate_salt(), generate_salt());
    assert_ne!(generate_nonce(), generate_nonce());
}

#[test]
fn crypto_error_messages() {
    assert_eq!(CryptoError::KeyDerivation.message(), "Argon2 key derivation failed");
    assert!(!CryptoError::Encryption.message().is_empty());
    assert!(!CryptoError::Decryption.message().is_empty());
}
