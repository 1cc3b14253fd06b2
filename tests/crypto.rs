use ssh_chain::crypto::{decrypt_password, encrypt_password, seal_password};

#[test]
fn test_encrypt_decrypt_roundtrip() {
    let original = "my_secret_password_123!";
    let encrypted = encrypt_password(original).expect("Encryption should succeed");

    // Encrypted should be different from original
    assert_ne!(encrypted, original);

    // Decryption should return the original
    let decrypted = decrypt_password(&encrypted).expect("Decryption should succeed");
    assert_eq!(decrypted, original);
}

#[test]
fn test_empty_password() {
    let encrypted = encrypt_password("").expect("Should handle empty");
    assert_eq!(encrypted, "");

    let decrypted = decrypt_password("").expect("Should handle empty");
    assert_eq!(decrypted, "");
}

#[test]
fn test_unicode_password() {
    let original = "密码测试 Пароль 🔐";
    let encrypted = encrypt_password(original).expect("Should handle unicode");
    let decrypted = decrypt_password(&encrypted).expect("Should decrypt unicode");
    assert_eq!(decrypted, original);
}

#[test]
fn fresh_nonce_each_time() {
    let a = encrypt_password("same").unwrap();
    let b = encrypt_password("same").unwrap();
    assert_ne!(a, b);
    // 12-byte nonce + 4 bytes of text + 16-byte tag = 32 bytes of Base64.
    assert_eq!(a.len(), 44);
}

#[test]
fn decrypt_errors() {
    assert_eq!(decrypt_password("not base64!").unwrap_err(), "Base64 decode failed");
    assert_eq!(decrypt_password("AAAA").unwrap_err(), "Invalid ciphertext: too short");
    assert_eq!(
        decrypt_password("AAAAAAAAAAAAAAAAAAAAAAAAAAAAAAAAAAAAAAAAAAA=").unwrap_err(),
        "Decryption failed"
    );
}

#[test]
fn sealing_under_a_given_nonce() {
    let n1 = vec![1u8; 12];
    let n2 = vec![2u8; 12];
    let a = seal_password("pw", &n1).unwrap();
    assert_eq!(a, seal_password("pw", &n1).unwrap());
    assert_ne!(a, seal_password("pw", &n2).unwrap());
    // 12 + 2 + 16 = 30 bytes: 40 characters of Base64, starting with the nonce.
    assert_eq!(a.len(), 40);
    assert!(a.starts_with("AQEBAQEBAQEBAQEB"));
    assert_eq!(decrypt_password(&a).unwrap(), "pw");
}
