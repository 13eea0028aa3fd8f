use telegram_korean_search::security::{
    decrypt, encrypt, generate_key, key_from_bytes, seal_with_nonce, CryptoError, KeychainError, KEY_SIZE,
};

fn test_key() -> [u8; 32] {
    generate_key()
}

#[test]
fn test_encrypt_decrypt_roundtrip() {
    let key = test_key();
    let plaintext = b"hello, session data!";
    let encrypted = encrypt(&key, plaintext).unwrap();
    let decrypted = decrypt(&key, &encrypted).unwrap();
    assert_eq!(decrypted, plaintext);
}

#[test]
fn test_encrypt_produces_different_ciphertexts() {
    let key = test_key();
    let plaintext = b"same data";
    let enc1 = encrypt(&key, plaintext).unwrap();
    let enc2 = encrypt(&key, plaintext).unwrap();
    assert_ne!(enc1, enc2);
}

#[test]
fn test_wrong_key_fails() {
    let key1 = test_key();
    let key2 = test_key();
    let plaintext = b"secret";
    let encrypted = encrypt(&key1, plaintext).unwrap();
    let result = decrypt(&key2, &encrypted);
    assert!(result.is_err());
}

#[test]
fn test_corrupted_data_fails() {
    let key = test_key();
    let plaintext = b"secret";
    let mut encrypted = encrypt(&key, plaintext).unwrap();
    let last = encrypted.len() - 1;
    encrypted[last] ^= 0xFF;
    let result = decrypt(&key, &encrypted);
    assert!(result.is_err());
}

#[test]
fn test_too_short_data_fails() {
    let key = test_key();
    let result = decrypt(&key, &[0u8; 10]);
    assert!(matches!(result, Err(CryptoError::DataTooShort)));
}

#[test]
fn test_empty_plaintext() {
    let key = test_key();
    let encrypted = encrypt(&key, b"").unwrap();
    let decrypted = decrypt(&key, &encrypted).unwrap();
    assert!(decrypted.is_empty());
}

#[test]
fn test_large_plaintext() {
    let key = test_key();
    let plaintext = vec![0xABu8; 1024 * 1024];
    let encrypted = encrypt(&key, &plaintext).unwrap();
    let decrypted = decrypt(&key, &encrypted).unwrap();
    assert_eq!(decrypted, plaintext);
}

#[test]
fn one_bit_flip_fails_and_nonce_leads_output() {
    let key = [7u8; 32];
    let nonce = [1u8; 12];
    let sealed = seal_with_nonce(&key, &nonce, b"abc").unwrap();
    assert_eq!(&sealed[..12], &nonce);
    assert_eq!(sealed.len(), 12 + 3 + 16);
    assert_ne!(&sealed[12..15], b"abc");
    let mut flipped = sealed.clone();
    flipped[13] ^= 0x01;
    assert!(matches!(decrypt(&key, &flipped), Err(CryptoError::DecryptionFailed)));
    assert_eq!(decrypt(&key, &sealed).unwrap(), b"abc");
    let other = seal_with_nonce(&key, &[2u8; 12], b"abc").unwrap();
    assert_ne!(sealed, other);
}

#[test]
fn exactly_nonce_and_tag_is_long_enough() {
    let key = [3u8; 32];
    assert!(matches!(decrypt(&key, &[0u8; 27]), Err(CryptoError::DataTooShort)));
    assert!(matches!(decrypt(&key, &[0u8; 28]), Err(CryptoError::DecryptionFailed)));
}

#[test]
fn test_generate_key_length() {
    let key = generate_key();
    assert_eq!(key.len(), KEY_SIZE);
}

#[test]
fn test_generate_key_randomness() {
    let key1 = generate_key();
    let key2 = generate_key();
    assert_ne!(key1, key2);
}

#[test]
fn stored_key_must_have_32_bytes() {
    assert_eq!(key_from_bytes(&vec![9u8; 32]), Ok([9u8; 32]));
    assert_eq!(key_from_bytes(&vec![9u8; 31]), Err(KeychainError::InvalidKeyLength(31)));
}

#[test]
fn ciphertext_is_nonce_plaintext_and_tag_long() {
    let key = test_key();
    for n in [0usize, 1, 20, 1000] {
        let p = vec![5u8; n];
        let c = encrypt(&key, &p).unwrap();
        assert_eq!(c.len(), 12 + n + 16);
        assert_eq!(decrypt(&key, &c).unwrap(), p);
    }
}
