use iron_vault::crypto::{derive_key, generate_salt};
use iron_vault::storage::{seal_vault, split_vault_file, unlock_vault, vault_file_bytes, UnlockError};

#[test]
fn framing_then_splitting_gives_back_the_parts() {
    let salt = "0123456789abcdef0123456789abcdef";
    let file = vault_file_bytes(salt, &[1, 2, 3]);
    assert_eq!(file.len(), 35);
    assert_eq!(&file[..32], salt.as_bytes());
    let (s, payload) = split_vault_file(&file).unwrap();
    assert_eq!(s, salt);
    assert_eq!(payload, vec![1, 2, 3]);
}

#[test]
fn split_refuses_short_or_non_utf8_salt() {
    assert!(split_vault_file(&[b'a'; 31]).is_none());
    assert!(split_vault_file(&[]).is_none());
    let mut bad = vec![b'a'; 40];
    bad[0] = 0xff;
    assert!(split_vault_file(&bad).is_none());
    let (s, payload) = split_vault_file(&[b'a'; 32]).unwrap();
    assert_eq!(s, "a".repeat(32));
    assert!(payload.is_empty());
}

#[test]
fn sealed_vault_unlocks_with_its_password() {
    let salt = generate_salt();
    let key = derive_key("master", &salt).unwrap();
    let json = "{\"salt\":\"x\",\"accounts\":{}}";
    let file = seal_vault(&salt, json, &key).unwrap();
    assert_eq!(file.len(), 32 + json.len() + 28);
    assert_eq!(&file[..32], salt.as_bytes());
    assert_eq!(unlock_vault(&file, "master").ok().unwrap(), json);
}

#[test]
fn wrong_password_is_denied() {
    let salt = "fedcba9876543210fedcba9876543210";
    let key = derive_key("master", salt).unwrap();
    let file = seal_vault(salt, "{}", &key).unwrap();
    match unlock_vault(&file, "Master") {
        Err(UnlockError::Denied(m)) => assert_eq!(m, "Error decrypting data: aead::Error"),
        _ => panic!("a wrong password must be denied"),
    }
}

#[test]
fn malformed_file_is_refused() {
    assert!(matches!(unlock_vault(&[0u8; 10], "pw"), Err(UnlockError::Malformed)));
}

#[test]
fn file_with_too_little_after_the_salt_is_denied() {
    let file = vault_file_bytes("0123456789abcdef0123456789abcdef", &[0u8; 5]);
    match unlock_vault(&file, "pw") {
        Err(UnlockError::Denied(m)) => assert_eq!(m, "Encrypted data is too short (missing nonce)"),
        _ => panic!("a file without a nonce must be denied"),
    }
}

