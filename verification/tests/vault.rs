use guardpetal::crypto::{derive_key, encrypt_to_base64, CryptoError};
use guardpetal::vault::{accept_check, prepare_setup, setup_with_salt_and_nonce, Vault, VaultError};
use std::path::PathBuf;

fn vault() -> Vault {
    Vault::at(PathBuf::from("/tmp/guardpetal-test.sqlite"))
}

#[test]
fn setup_then_unlock_with_the_same_passphrase() {
    let setup = prepare_setup("correct horse battery", "correct horse battery").unwrap();
    let unlocked = vault()
        .unlock_with(Some(setup.salt.clone()), Some(setup.check.clone()), "correct horse battery")
        .unwrap();
    assert_eq!(unlocked.key().len(), 32);
}

#[test]
fn wrong_passphrase_does_not_unlock() {
    let setup = prepare_setup("correct horse battery", "correct horse battery").unwrap();
    let result = vault().unlock_with(Some(setup.salt), Some(setup.check), "wrong passphrase");
    assert!(matches!(result, Err(VaultError::Crypto(CryptoError::Decryption))));
}

#[test]
fn setup_needs_matching_passphrases() {
    assert!(matches!(prepare_setup("one", "two"), Err(VaultError::PassphrasesDiffer)));
}

#[test]
fn unlock_needs_salt_and_check() {
    assert!(matches!(vault().unlock_with(None, Some("x".into()), "p"), Err(VaultError::MissingSalt)));
    assert!(matches!(
        vault().unlock_with(Some("AAAAAAAAAAAAAAAAAAAAAA==".into()), None, "p"),
        Err(VaultError::MissingCheck)
    ));
}

#[test]
fn unlock_rejects_bad_salt() {
    assert!(matches!(
        vault().unlock_with(Some("###".into()), Some("x".into()), "p"),
        Err(VaultError::Crypto(CryptoError::Base64))
    ));
    // "AAAA" decodes to 3 bytes: too short a salt for Argon2.
    assert!(matches!(
        vault().unlock_with(Some("AAAA".into()), Some("x".into()), "p"),
        Err(VaultError::Crypto(CryptoError::KeyDerivation))
    ));
}

#[test]
fn unlock_rejects_another_check_plaintext() {
    let salt = [5u8; 16];
    let key = derive_key("pass", &salt).unwrap();
    let check = encrypt_to_base64(key.bytes(), b"something else").unwrap();
    let salt_text = "BQUFBQUFBQUFBQUFBQUFBQ==".to_string();
    let result = vault().unlock_with(Some(salt_text), Some(check), "pass");
    assert!(matches!(result, Err(VaultError::IncorrectPassphrase)));
}

#[test]
fn vault_keeps_its_path() {
    assert_eq!(vault().database_path(), &PathBuf::from("/tmp/guardpetal-test.sqlite"));
}

#[test]
fn only_the_check_plaintext_is_accepted() {
    let key = derive_key("pass", &[5u8; 16]).unwrap();
    assert!(matches!(accept_check(key, b"guardpetal-vault-check-v2"), Err(VaultError::IncorrectPassphrase)));
    let key = derive_key("pass", &[5u8; 16]).unwrap();
    let unlocked = accept_check(key, b"guardpetal-vault-check-v1").unwrap();
    let again = derive_key("pass", &[5u8; 16]).unwrap();
    assert_eq!(unlocked.key(), again.bytes());
}

#[test]
fn setup_with_a_given_salt_and_nonce_is_exact() {
    let a = setup_with_salt_and_nonce("pass", vec![5u8; 16], vec![6u8; 12]).unwrap();
    let b = setup_with_salt_and_nonce("pass", vec![5u8; 16], vec![6u8; 12]).unwrap();
    assert_eq!(a.salt, "BQUFBQUFBQUFBQUFBQUFBQ==");
    assert_eq!(a.check, b.check);
    let key = derive_key("pass", &[5u8; 16]).unwrap();
    let check = guardpetal::crypto::seal_with_nonce(key.bytes(), vec![6u8; 12], b"guardpetal-vault-check-v1").unwrap();
    assert_eq!(a.check, check);
    let unlocked = vault().unlock_with(Some(a.salt), Some(a.check), "pass").unwrap();
    assert_eq!(unlocked.key(), key.bytes());
    assert!(matches!(
        setup_with_salt_and_nonce("pass", vec![5u8; 7], vec![6u8; 12]),
        Err(VaultError::Crypto(CryptoError::KeyDerivation))
    ));
}
