use base64::Engine;
use preft::encryption::DatabaseEncryption;
use preft::encryption_config::EncryptionConfig;
use preft::errors::StoreError;

#[test]
fn test_encryption_decryption() {
    let salt = DatabaseEncryption::generate_salt();
    let encryption = DatabaseEncryption::new("test_password", &salt).unwrap();
    let original_data = "sensitive financial data";

    let encrypted = encryption.encrypt(original_data).unwrap();
    let decrypted = encryption.decrypt(&encrypted).unwrap();

    assert_eq!(original_data, decrypted);
}

#[test]
fn test_password_hashing() {
    let password = "my_secure_password";
    let salt = DatabaseEncryption::generate_salt();

    let hash1 = DatabaseEncryption::hash_password(password, &salt);
    let hash2 = DatabaseEncryption::hash_password(password, &salt);

    // Same password and salt should produce same hash
    assert_eq!(hash1, hash2);

    // Different salt should produce different hash
    let different_salt = DatabaseEncryption::generate_salt();
    let hash3 = DatabaseEncryption::hash_password(password, &different_salt);
    assert_ne!(hash1, hash3);

    // Verify password should work
    assert!(DatabaseEncryption::verify_password(password, &salt, &hash1));
    assert!(!DatabaseEncryption::verify_password("wrong_password", &salt, &hash1));
}

#[test]
fn test_encryption_config_default() {
    let config = EncryptionConfig::default();
    assert!(config.enabled);
    assert!(!config.is_encryption_ready());
    assert!(!config.is_database_encrypted());
}

#[test]
fn test_password_setting_and_verification() {
    let mut config = EncryptionConfig::default();
    let password = "test_password_123";

    // Set password
    config.set_password(password).unwrap();
    assert!(config.is_encryption_ready());
    assert!(config.is_database_encrypted());

    // Verify password
    assert!(config.verify_password(password));
    assert!(!config.verify_password("wrong_password"));
}

#[test]
fn test_decrypt_with_wrong_key_fails() {
    let salt = DatabaseEncryption::generate_salt();
    let enc1 = DatabaseEncryption::new("first_password", &salt).unwrap();
    let enc2 = DatabaseEncryption::new("second_password", &salt).unwrap();

    let blob = enc1.encrypt("the books for march").unwrap();
    assert_eq!(enc2.decrypt(&blob), Err(StoreError::DecryptError));
}

#[test]
fn test_decrypt_rejects_tampering_and_truncation() {
    let salt = DatabaseEncryption::generate_salt();
    let enc = DatabaseEncryption::new("a password", &salt).unwrap();
    let blob = enc.encrypt("important numbers").unwrap();

    // Truncated token
    let truncated = &blob[..blob.len() / 2];
    assert_eq!(enc.decrypt(truncated), Err(StoreError::DecryptError));

    // Not base64 at all
    assert_eq!(enc.decrypt("!!!not base64!!!"), Err(StoreError::DecryptError));

    // Valid base64 but too short to hold a nonce
    assert_eq!(enc.decrypt("QUJD"), Err(StoreError::DecryptError));
}

#[test]
fn test_fresh_nonce_each_encryption() {
    let salt = DatabaseEncryption::generate_salt();
    let enc = DatabaseEncryption::new("pw", &salt).unwrap();
    let a = enc.encrypt("same text").unwrap();
    let b = enc.encrypt("same text").unwrap();
    // Each call draws a fresh nonce, so the tokens differ...
    assert_ne!(a, b);
    // ...but both open to the sealed text.
    assert_eq!(enc.decrypt(&a).unwrap(), "same text");
    assert_eq!(enc.decrypt(&b).unwrap(), "same text");
}

#[test]
fn test_key_derivation_is_deterministic() {
    let salt = DatabaseEncryption::generate_salt();
    let enc1 = DatabaseEncryption::new("pw", &salt).unwrap();
    let enc2 = DatabaseEncryption::new("pw", &salt).unwrap();
    let blob = enc1.encrypt("carried across reopen").unwrap();
    assert_eq!(enc2.decrypt(&blob).unwrap(), "carried across reopen");
}

#[test]
fn test_verification_digest_differs_from_key_material() {
    // The stored verification digest must not be usable as the data key:
    // the two derivations use distinct context labels.
    let salt = DatabaseEncryption::generate_salt();
    let hash = DatabaseEncryption::hash_password("pw", &salt);
    let enc = DatabaseEncryption::new("pw", &salt).unwrap();
    let blob = enc.encrypt("secret").unwrap();
    // A cipher keyed from the digest text cannot open the blob.
    let fake = DatabaseEncryption::new(&hash, &salt).unwrap();
    assert_eq!(fake.decrypt(&blob), Err(StoreError::DecryptError));
}

#[test]
fn test_config_disable_and_re_enable() {
    let mut config = EncryptionConfig::default();
    config.set_password("pw").unwrap();
    assert!(config.is_encryption_ready());

    config.disable_encryption().unwrap();
    assert!(!config.enabled);
    assert!(!config.is_encryption_ready());
    assert!(!config.is_database_encrypted());
    assert!(config.get_salt().is_none());
    assert!(config.get_password_hash().is_none());

    config.re_enable_encryption().unwrap();
    assert!(config.enabled);
    assert!(!config.is_encryption_ready());
    assert!(!config.is_database_encrypted());
}

#[test]
fn test_config_accessors_after_set_password() {
    let mut config = EncryptionConfig::default();
    config.set_password("pw").unwrap();
    let salt = config.get_salt().unwrap().clone();
    let hash = config.get_password_hash().unwrap().clone();
    assert_eq!(hash, DatabaseEncryption::hash_password("pw", &salt));
}

#[test]
fn test_salt_shape() {
    let salt = DatabaseEncryption::generate_salt();
    // 32 random bytes, base64 encoded: 44 printable characters.
    assert_eq!(salt.len(), 44);
    let decoded = base64::engine::general_purpose::STANDARD.decode(&salt).unwrap();
    assert_eq!(decoded.len(), 32);
}

#[test]
fn test_token_framing() {
    let salt = DatabaseEncryption::generate_salt();
    let enc = DatabaseEncryption::new("pw", &salt).unwrap();
    let text = "ten bytes!";
    let blob = enc.encrypt(text).unwrap();
    // The token is self-contained base64: a 12-byte nonce, then the
    // ciphertext, then the 16-byte authentication tag.
    let decoded = base64::engine::general_purpose::STANDARD.decode(&blob).unwrap();
    assert_eq!(decoded.len(), 12 + text.len() + 16);
}

#[test]
fn test_hash_shape() {
    let salt = DatabaseEncryption::generate_salt();
    let hash = DatabaseEncryption::hash_password("pw", &salt);
    assert_eq!(hash.len(), 44);
    let decoded = base64::engine::general_purpose::STANDARD.decode(&hash).unwrap();
    assert_eq!(decoded.len(), 32);
}
