use aes_gcm::aead::Aead;
use aes_gcm::{Aes256Gcm, KeyInit, Nonce};
use iron_vault::crypto::{decrypt_data, derive_key, encrypt_data, encrypt_with_nonce, generate_salt};

fn hex(bytes: &[u8]) -> String {
    bytes.iter().map(|b| format!("{:02x}", b)).collect()
}

#[test]
fn salt_is_32_lowercase_hex_chars() {
    let s = generate_salt();
    assert_eq!(s.len(), 32);
    assert!(s.chars().all(|c| c.is_ascii_digit() || ('a'..='f').contains(&c)));
    assert_ne!(generate_salt(), s);
}

#[test]
fn derive_key_is_deterministic_and_depends_on_password() {
    let salt = "0123456789abcdef0123456789abcdef";
    let k1 = derive_key("correct horse", salt).unwrap();
    let k2 = derive_key("correct horse", salt).unwrap();
    assert_eq!(k1, k2);
    let k3 = derive_key("correct horsf", salt).unwrap();
    assert_ne!(k1, k3);
}

#[test]
fn derive_key_refuses_short_salt() {
    let err = derive_key("pw", "1234567").unwrap_err();
    assert_eq!(err, "Error deriving key: salt is too short");
    assert_eq!(derive_key("other", "").unwrap_err(), "Error deriving key: salt is too short");
    assert!(derive_key("pw", "12345678").is_ok());
}

#[test]
fn aes_gcm_known_answer_empty_plaintext() {
    let key = [0u8; 32];
    let nonce = [0u8; 12];
    let out = encrypt_with_nonce("", &key, &nonce).unwrap();
    assert_eq!(hex(&out[..12]), "000000000000000000000000");
    assert_eq!(hex(&out[12..]), "530f8afbc74536b9a963b4f1c4cb738b");
}

#[test]
fn aes_gcm_known_answer_one_block() {
    let key = [0u8; 32];
    let nonce = [0u8; 12];
    let text = "\0".repeat(16);
    let out = encrypt_with_nonce(&text, &key, &nonce).unwrap();
    assert_eq!(out.len(), 12 + 16 + 16);
    assert_eq!(hex(&out[12..28]), "cea7403d4d606b6e074ec5d3baf39d18");
    assert_eq!(hex(&out[28..]), "d0d1c8a799996bf0265b98b5d48ab919");
}

#[test]
fn encrypt_refuses_wrong_key_length() {
    assert_eq!(encrypt_data("{}", &[1u8; 16]).unwrap_err(), "Error creating cipher: Invalid Length");
    assert_eq!(
        encrypt_with_nonce("{}", &[1u8; 33], &[0u8; 12]).unwrap_err(),
        "Error creating cipher: Invalid Length"
    );
}

#[test]
fn encrypt_then_decrypt_gives_back_the_text() {
    let key = [7u8; 32];
    let text = "{\"salt\":\"abc\",\"accounts\":{\"mail\":{\"username\":\"ana\",\"password_plana\":\"pässwörd\"}}}";
    let sealed = encrypt_data(text, &key).unwrap();
    assert_eq!(sealed.len(), 12 + text.len() + 16);
    assert_eq!(decrypt_data(&sealed, &key).unwrap(), text);
}

#[test]
fn two_encryptions_use_different_nonces() {
    let key = [7u8; 32];
    let a = encrypt_data("same", &key).unwrap();
    let b = encrypt_data("same", &key).unwrap();
    assert_ne!(a, b);
}

#[test]
fn decrypt_refuses_short_data() {
    assert_eq!(
        decrypt_data(&[0u8; 11], &[0u8; 32]).unwrap_err(),
        "Encrypted data is too short (missing nonce)"
    );
    assert_eq!(
        decrypt_data(&[], &[0u8; 32]).unwrap_err(),
        "Encrypted data is too short (missing nonce)"
    );
}

#[test]
fn decrypt_refuses_wrong_key_and_tampering() {
    let key = [7u8; 32];
    let mut sealed = encrypt_data("secret", &key).unwrap();
    let err = decrypt_data(&sealed, &[8u8; 32]).unwrap_err();
    assert_eq!(err, "Error decrypting data: aead::Error");
    let last = sealed.len() - 1;
    sealed[last] ^= 1;
    let err = decrypt_data(&sealed, &key).unwrap_err();
    assert_eq!(err, "Error decrypting data: aead::Error");
    let err = decrypt_data(&[0u8; 20], &key).unwrap_err();
    assert_eq!(err, "Error decrypting data: aead::Error");
}

#[test]
fn decrypt_refuses_non_utf8_plaintext() {
    let key = [3u8; 32];
    let nonce = [5u8; 12];
    let cipher = Aes256Gcm::new_from_slice(&key).unwrap();
    let ct = cipher.encrypt(Nonce::from_slice(&nonce), &[0xffu8, 0xfe][..]).unwrap();
    let mut data = nonce.to_vec();
    data.extend_from_slice(&ct);
    let err = decrypt_data(&data, &key).unwrap_err();
    assert!(err.starts_with("Invalid UTF-8 sequence inside vault: "), "{}", err);
}

#[test]
fn decrypt_refuses_anything_under_28_bytes() {
    let key = [7u8; 32];
    for n in 12..28 {
        let err = decrypt_data(&vec![0u8; n], &key).unwrap_err();
        assert_eq!(err, "Error decrypting data: aead::Error");
    }
    let sealed = encrypt_data("", &key).unwrap();
    assert_eq!(sealed.len(), 28);
    assert_eq!(decrypt_data(&sealed, &key).unwrap(), "");
}
