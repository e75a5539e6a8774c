use guardpetal::crypto::{
    compress_then_encrypt_to_base64, decrypt_from_base64, decrypt_then_decompress_from_base64,
    derive_key, encrypt_to_base64, keyed_hash_hex, new_salt, open_packed, seal_with_nonce,
    CryptoError, KEY_LEN,
};
use base64::Engine;
use chacha20poly1305::aead::{Aead, KeyInit};
use hmac::{Hmac, Mac};
use sha2::Sha256;

const KEY: [u8; KEY_LEN] = [7u8; KEY_LEN];

#[test]
fn salts_are_sixteen_random_bytes() {
    let a = new_salt().unwrap();
    let b = new_salt().unwrap();
    assert_eq!(a.len(), 16);
    assert_eq!(b.len(), 16);
    assert_ne!(a, b);
}

#[test]
fn encryption_round_trips() {
    let encoded = encrypt_to_base64(&KEY, b"a8:5e:45:10:00:01").unwrap();
    assert_ne!(encoded.as_bytes(), b"a8:5e:45:10:00:01");
    assert_eq!(decrypt_from_base64(&KEY, &encoded).unwrap(), b"a8:5e:45:10:00:01".to_vec());
}

#[test]
fn encryption_of_empty_value_round_trips() {
    let encoded = encrypt_to_base64(&KEY, b"").unwrap();
    assert_eq!(decrypt_from_base64(&KEY, &encoded).unwrap(), Vec::<u8>::new());
}

#[test]
fn encryption_uses_a_fresh_nonce() {
    let a = encrypt_to_base64(&KEY, b"same").unwrap();
    let b = encrypt_to_base64(&KEY, b"same").unwrap();
    assert_ne!(a, b);
    // 12-byte nonce + 4-byte plaintext + 16-byte tag = 32 bytes, 44 Base64 characters.
    assert_eq!(a.len(), 44);
}

#[test]
fn decryption_with_another_key_fails() {
    let encoded = encrypt_to_base64(&KEY, b"secret").unwrap();
    let other = [8u8; KEY_LEN];
    assert_eq!(decrypt_from_base64(&other, &encoded), Err(CryptoError::Decryption));
}

#[test]
fn decryption_rejects_bad_base64() {
    assert_eq!(decrypt_from_base64(&KEY, "not base64!"), Err(CryptoError::Base64));
    // Bits set past the last byte, and a missing padding, are not canonical.
    assert_eq!(decrypt_from_base64(&KEY, "AAAAAAAAAAAAAAAAAB=="), Err(CryptoError::Base64));
    assert_eq!(decrypt_from_base64(&KEY, "AAAAAAAAAAAAAAAAAA"), Err(CryptoError::Base64));
}

#[test]
fn decryption_rejects_short_values() {
    // 12 bytes: a nonce and nothing else.
    assert_eq!(decrypt_from_base64(&KEY, "AAAAAAAAAAAAAAAA"), Err(CryptoError::TooShort));
    // 13 bytes: long enough, but not authentic.
    assert_eq!(decrypt_from_base64(&KEY, "AAAAAAAAAAAAAAAAAA=="), Err(CryptoError::Decryption));
}

#[test]
fn compressed_encryption_round_trips() {
    let text = "[\n  {\n    \"source\": \"fake_scanner\"\n  }\n]";
    let encoded = compress_then_encrypt_to_base64(&KEY, text).unwrap();
    assert_eq!(decrypt_then_decompress_from_base64(&KEY, &encoded).unwrap(), text);
}

#[test]
fn decompressing_plain_ciphertext_fails() {
    let encoded = encrypt_to_base64(&KEY, b"not gzip").unwrap();
    assert_eq!(
        decrypt_then_decompress_from_base64(&KEY, &encoded),
        Err(CryptoError::Decompression)
    );
}

#[test]
fn keyed_hash_is_hex_hmac_sha256() {
    let mut mac = <Hmac<Sha256> as Mac>::new_from_slice(&KEY).unwrap();
    mac.update(b"a8:5e:45:10:00:01");
    let expected = hex::encode(mac.finalize().into_bytes());
    let hash = keyed_hash_hex(&KEY, "a8:5e:45:10:00:01").unwrap();
    assert_eq!(hash, expected);
    assert_eq!(hash.len(), 64);
    assert!(hash.chars().all(|c| c.is_ascii_hexdigit() && !c.is_ascii_uppercase()));
}

#[test]
fn keyed_hash_depends_on_key_and_value() {
    let a = keyed_hash_hex(&KEY, "value").unwrap();
    assert_eq!(a, keyed_hash_hex(&KEY, "value").unwrap());
    assert_ne!(a, keyed_hash_hex(&[9u8; KEY_LEN], "value").unwrap());
    assert_ne!(a, keyed_hash_hex(&KEY, "other").unwrap());
}

#[test]
fn key_derivation_rejects_short_salt() {
    assert!(matches!(derive_key("passphrase", &[1u8; 7]), Err(CryptoError::KeyDerivation)));
}

#[test]
fn key_derivation_is_deterministic() {
    let salt = [3u8; 16];
    let a = derive_key("correct horse", &salt).unwrap();
    let b = derive_key("correct horse", &salt).unwrap();
    let c = derive_key("correct horse!", &salt).unwrap();
    let ea = encrypt_to_base64(a.bytes(), b"x").unwrap();
    assert_eq!(decrypt_from_base64(b.bytes(), &ea).unwrap(), b"x".to_vec());
    assert_eq!(decrypt_from_base64(c.bytes(), &ea), Err(CryptoError::Decryption));
}

#[test]
fn opening_a_packed_value() {
    assert_eq!(open_packed(&KEY, vec![0u8; 12]), Err(CryptoError::TooShort));
    assert_eq!(open_packed(&KEY, vec![0u8; 13]), Err(CryptoError::Decryption));
    assert_eq!(open_packed(&KEY, vec![]), Err(CryptoError::TooShort));
}

#[test]
fn encrypted_text_is_nonce_then_sealed_bytes() {
    let encoded = encrypt_to_base64(&KEY, b"hello").unwrap();
    let packed = base64::engine::general_purpose::STANDARD.decode(&encoded).unwrap();
    assert_eq!(packed.len(), 12 + 5 + 16);
    assert_eq!(open_packed(&KEY, packed).unwrap(), b"hello".to_vec());
}

#[test]
fn values_shorter_than_nonce_and_tag_are_refused() {
    assert_eq!(open_packed(&KEY, vec![1u8; 27]), Err(CryptoError::Decryption));
}

#[test]
fn sealing_with_a_given_nonce_is_exact() {
    let nonce = vec![4u8; 12];
    let sealed = seal_with_nonce(&KEY, nonce.clone(), b"a8:5e:45:10:00:01").unwrap();
    let cipher = chacha20poly1305::ChaCha20Poly1305::new(chacha20poly1305::Key::from_slice(&KEY));
    let ciphertext = cipher
        .encrypt(chacha20poly1305::Nonce::from_slice(&nonce), &b"a8:5e:45:10:00:01"[..])
        .unwrap();
    let mut packed = nonce.clone();
    packed.extend_from_slice(&ciphertext);
    assert_eq!(sealed, base64::engine::general_purpose::STANDARD.encode(&packed));
    assert_eq!(sealed, seal_with_nonce(&KEY, nonce, b"a8:5e:45:10:00:01").unwrap());
    assert_eq!(decrypt_from_base64(&KEY, &sealed).unwrap(), b"a8:5e:45:10:00:01".to_vec());
}

#[test]
fn a_short_text_always_compresses_and_encrypts() {
    let encoded = compress_then_encrypt_to_base64(&KEY, "x").unwrap();
    assert_eq!(decrypt_then_decompress_from_base64(&KEY, &encoded).unwrap(), "x");
    let packed = base64::engine::general_purpose::STANDARD.decode(&encoded).unwrap();
    let gzip = open_packed(&KEY, packed).unwrap();
    assert_eq!(&gzip[..2], &[0x1f, 0x8b]);
}
