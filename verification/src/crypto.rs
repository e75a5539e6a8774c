//! Field encryption, compression, keyed hashing and key derivation for the
//! vault.
use vstd::prelude::*;
use vstd::string::StringSliceAdditionalSpecFns;
use crate::primitives::{
    argon2_derive, argon2id_key, base64_decode, base64_decoded, base64_encode, base64_text,
    chacha_open, chacha_opened, chacha_seal, chacha_sealed, fill_random, gunzip_text,
    gunzip_to_string, gzip_of_text, gzip_text, hex_digit, hex_encode, hex_text, hmac_sha256,
    hmac_sha256_of, lemma_base64_round_trip, secret_key_bytes, SecretKey,
};

verus! {

/// The length of the vault key in bytes.
pub const KEY_LEN: usize = 32;

/// The length of the random nonce in front of each encrypted value.
pub const NONCE_LEN: usize = 12;

/// What can go wrong in the vault's cryptography.
#[derive(Debug, Clone, Copy, PartialEq, Eq, Structural)]
pub enum CryptoError {
    /// Argon2 refused the passphrase or the salt.
    KeyDerivation,
    /// The cipher refused to encrypt (the value is too long).
    Encryption,
    /// The value did not authenticate under the key.
    Decryption,
    /// The decoded value is too short to hold a nonce and a ciphertext.
    TooShort,
    /// The stored text is not Base64.
    Base64,
    /// The compressor reported an error.
    Compression,
    /// The decrypted value is not a gzip stream of UTF-8 text.
    Decompression,
    /// The keyed hash could not be set up.
    KeyedHash,
    /// The system's random source supplied no bytes.
    Randomness,
}

/// A byte result as a mathematical value.
pub open spec fn bytes_result(r: Result<Vec<u8>, CryptoError>) -> Result<Seq<u8>, CryptoError> {
    match r {
        Ok(v) => Ok(v@),
        Err(e) => Err(e),
    }
}

/// A text result as a mathematical value.
pub open spec fn text_result(r: Result<String, CryptoError>) -> Result<Seq<char>, CryptoError> {
    match r {
        Ok(s) => Ok(s@),
        Err(e) => Err(e),
    }
}

/// The stored form of a value encrypted under `key` with `nonce`: Base64 of
/// the nonce followed by the ChaCha20-Poly1305 ciphertext and tag.
pub open spec fn encryption_with_nonce(key: Seq<u8>, nonce: Seq<u8>, plaintext: Seq<u8>) -> Seq<
    char,
> {
    base64_text(nonce + chacha_sealed(key, nonce, plaintext))
}

/// Whether `text` is `plaintext` encrypted under `key` with `nonce`: the
/// nonce is 12 bytes, the text is Base64 of the nonce followed by the sealed
/// bytes, it decodes to those bytes, and the sealed part is the ciphertext
/// with its 16-byte tag behind.
pub open spec fn encrypted_with(
    key: Seq<u8>,
    nonce: Seq<u8>,
    plaintext: Seq<u8>,
    text: Seq<char>,
) -> bool {
    &&& nonce.len() == 12
    &&& text == encryption_with_nonce(key, nonce, plaintext)
    &&& base64_decoded(text) == Some(nonce + chacha_sealed(key, nonce, plaintext))
    &&& chacha_sealed(key, nonce, plaintext).len() == plaintext.len() + 16
}

/// Whether the cipher takes a plaintext of this length: fewer than
/// `0xFFFF_FFFF` blocks of 64 bytes.
pub open spec fn encryptable_len(n: nat) -> bool {
    n / 64 < 0xFFFF_FFFF
}

/// What decrypting a stored value gives: the Base64 is decoded, the first
/// 12 bytes are the nonce, the rest (at least one byte) the ciphertext and
/// tag.
pub open spec fn decryption(key: Seq<u8>, encoded: Seq<char>) -> Result<Seq<u8>, CryptoError> {
    match base64_decoded(encoded) {
        None => Err(CryptoError::Base64),
        Some(packed) => packed_decryption(key, packed),
    }
}

/// What opening a decoded value gives: the first 12 bytes are the nonce,
/// the rest (at least one byte) the ciphertext and tag.
pub open spec fn packed_decryption(key: Seq<u8>, packed: Seq<u8>) -> Result<Seq<u8>, CryptoError> {
    if packed.len() < 13 {
        Err(CryptoError::TooShort)
    } else {
        match chacha_opened(key, packed.take(12), packed.skip(12)) {
            None => Err(CryptoError::Decryption),
            Some(p) => Ok(p),
        }
    }
}

/// What decrypting then decompressing a stored value gives.
pub open spec fn decompressed_decryption(key: Seq<u8>, encoded: Seq<char>) -> Result<
    Seq<char>,
    CryptoError,
> {
    match decryption(key, encoded) {
        Err(e) => Err(e),
        Ok(c) => match gunzip_text(c) {
            None => Err(CryptoError::Decompression),
            Some(t) => Ok(t),
        },
    }
}

/// The keyed hash of a value: lower-case hex of its HMAC-SHA-256.
pub open spec fn keyed_hash(key: Seq<u8>, value: Seq<char>) -> Seq<char> {
    hex_text(hmac_sha256_of(key, value))
}

/// Whether `c` is a lower-case hexadecimal digit.
pub open spec fn is_hex_char(c: char) -> bool {
    ('0' <= c && c <= '9') || ('a' <= c && c <= 'f')
}

/// Whether every character of `s` is a lower-case hexadecimal digit.
pub open spec fn lower_hex(s: Seq<char>) -> bool {
    forall|i: int| 0 <= i < s.len() ==> is_hex_char(#[trigger] s[i])
}

/// Hexadecimal text holds only lower-case hexadecimal digits.
pub proof fn lemma_hex_text_lower(b: Seq<u8>)
    ensures
        lower_hex(hex_text(b)),
    decreases b.len(),
{
    if b.len() > 0 {
        lemma_hex_text_lower(b.drop_first());
        let hi = b[0] as int / 16;
        let lo = b[0] as int % 16;
        assert(is_hex_char(hex_digit(hi)));
        assert(is_hex_char(hex_digit(lo)));
        let t = hex_text(b);
        assert forall|i: int| 0 <= i < t.len() implies is_hex_char(#[trigger] t[i]) by {
            if i >= 2 {
                assert(t[i] == hex_text(b.drop_first())[i - 2]);
            }
        }
    }
}

/// Hexadecimal has two digits per byte.
pub proof fn lemma_hex_text_len(b: Seq<u8>)
    ensures
        hex_text(b).len() == 2 * b.len(),
    decreases b.len(),
{
    if b.len() > 0 {
        lemma_hex_text_len(b.drop_first());
    }
}

/// A fresh random 16-byte salt, drawn from the system's random source.
pub fn new_salt() -> (res: Result<Vec<u8>, CryptoError>)
    ensures
        res matches Ok(salt) ==> salt@.len() == 16,
        res matches Err(e) ==> e == CryptoError::Randomness,
{
    let mut salt = vec![0_u8; 16];
    if fill_random(&mut salt) {
        Ok(salt)
    } else {
        Err(CryptoError::Randomness)
    }
}

/// Derives the vault key from a passphrase and a salt with Argon2id.
pub fn derive_key(passphrase: &str, salt: &[u8]) -> (res: Result<SecretKey, CryptoError>)
    ensures
        res is Ok <==> (passphrase.spec_bytes().len() <= 0xFFFF_FFFF && 8 <= salt@.len()
            <= 0xFFFF_FFFF),
        res matches Ok(k) ==> secret_key_bytes(k) == argon2id_key(passphrase@, salt@),
        res matches Err(e) ==> e == CryptoError::KeyDerivation,
{
    match argon2_derive(passphrase, salt) {
        Some(k) => Ok(k),
        None => Err(CryptoError::KeyDerivation),
    }
}

/// Encrypts a value under `key` with the given 12-byte nonce and encodes it
/// for storage: Base64 of the nonce followed by the ciphertext and its tag.
pub fn seal_with_nonce(key: &[u8; KEY_LEN], nonce: Vec<u8>, plaintext: &[u8]) -> (res: Result<
    String,
    CryptoError,
>)
    requires
        nonce@.len() == NONCE_LEN,
    ensures
        res is Ok <==> encryptable_len(plaintext@.len()),
        res matches Ok(s) ==> s@ == encryption_with_nonce(key@, nonce@, plaintext@),
        res matches Ok(s) ==> encrypted_with(key@, nonce@, plaintext@, s@),
        res matches Ok(s) ==> decryption(key@, s@) == Ok::<Seq<u8>, CryptoError>(plaintext@),
        res matches Err(e) ==> e == CryptoError::Encryption,
{
    match chacha_seal(key, nonce.as_slice(), plaintext) {
        None => Err(CryptoError::Encryption),
        Some(sealed) => {
            let ghost n = nonce@;
            let ghost c = sealed@;
            let mut packed = nonce;
            let mut sealed = sealed;
            packed.append(&mut sealed);
            let encoded = base64_encode(packed.as_slice());
            proof {
                lemma_base64_round_trip(packed@);
                assert(packed@ =~= n + c);
                assert(packed@.take(12) =~= n);
                assert(packed@.skip(12) =~= c);
            }
            Ok(encoded)
        },
    }
}

/// Encrypts a value under `key` with a fresh random nonce and encodes it
/// for storage. Whatever nonce was drawn, the result decrypts back to the
/// plaintext under the same key.
pub fn encrypt_to_base64(key: &[u8; KEY_LEN], plaintext: &[u8]) -> (res: Result<
    String,
    CryptoError,
>)
    ensures
        res is Ok ==> encryptable_len(plaintext@.len()),
        res matches Ok(s) ==> exists|n: Seq<u8>| #[trigger] encrypted_with(key@, n, plaintext@, s@),
        res matches Ok(s) ==> decryption(key@, s@) == Ok::<Seq<u8>, CryptoError>(plaintext@),
        res matches Err(e) ==> e == CryptoError::Randomness || (e == CryptoError::Encryption
            && !encryptable_len(plaintext@.len())),
{
    let mut nonce = vec![0_u8; NONCE_LEN];
    if !fill_random(&mut nonce) {
        return Err(CryptoError::Randomness);
    }
    let ghost n = nonce@;
    let res = seal_with_nonce(key, nonce, plaintext);
    proof {
        if res is Ok {
            assert(encrypted_with(key@, n, plaintext@, res->Ok_0@));
        }
    }
    res
}

/// Decodes and decrypts a stored value.
pub fn decrypt_from_base64(key: &[u8; KEY_LEN], encoded: &str) -> (res: Result<
    Vec<u8>,
    CryptoError,
>)
    ensures
        bytes_result(res) == decryption(key@, encoded@),
        base64_decoded(encoded@) matches Some(p) && 13 <= p.len() < 28 ==> res == Err::<
            Vec<u8>,
            CryptoError,
        >(CryptoError::Decryption),
{
    match base64_decode(encoded) {
        None => Err(CryptoError::Base64),
        Some(packed) => open_packed(key, packed),
    }
}

/// Splits a decoded value into its nonce and its ciphertext, and opens it.
pub fn open_packed(key: &[u8; KEY_LEN], packed: Vec<u8>) -> (res: Result<Vec<u8>, CryptoError>)
    ensures
        bytes_result(res) == packed_decryption(key@, packed@),
        13 <= packed@.len() < 28 ==> res == Err::<Vec<u8>, CryptoError>(CryptoError::Decryption),
{
    if packed.len() < 13 {
        return Err(CryptoError::TooShort);
    }
    let ghost whole = packed@;
    let mut nonce = packed;
    let sealed = nonce.split_off(NONCE_LEN);
    proof {
        assert(nonce@ =~= whole.take(12));
        assert(sealed@ =~= whole.skip(12));
    }
    match chacha_open(key, nonce.as_slice(), sealed.as_slice()) {
        None => Err(CryptoError::Decryption),
        Some(p) => Ok(p),
    }
}

/// Gzip-compresses a text, then encrypts it for storage. The result
/// decrypts and decompresses back to the text under the same key.
pub fn compress_then_encrypt_to_base64(key: &[u8; KEY_LEN], text: &str) -> (res: Result<
    String,
    CryptoError,
>)
    ensures
        res is Ok ==> encryptable_len(gzip_of_text(text@).len()),
        res matches Ok(s) ==> exists|n: Seq<u8>|
            #[trigger] encrypted_with(key@, n, gzip_of_text(text@), s@),
        res matches Ok(s) ==> decompressed_decryption(key@, s@) == Ok::<Seq<char>, CryptoError>(text@),
        res matches Err(e) ==> e == CryptoError::Randomness || (e == CryptoError::Encryption
            && !encryptable_len(gzip_of_text(text@).len())),
{
    match gzip_text(text) {
        None => Err(CryptoError::Compression),
        Some(compressed) => encrypt_to_base64(key, compressed.as_slice()),
    }
}

/// Decrypts a stored value, then decompresses it to text.
pub fn decrypt_then_decompress_from_base64(key: &[u8; KEY_LEN], encoded: &str) -> (res: Result<
    String,
    CryptoError,
>)
    ensures
        text_result(res) == decompressed_decryption(key@, encoded@),
{
    let compressed = decrypt_from_base64(key, encoded)?;
    match gunzip_to_string(compressed.as_slice()) {
        None => Err(CryptoError::Decompression),
        Some(text) => Ok(text),
    }
}

/// The keyed hash of a value, in lower-case hex: equal values give equal
/// hashes under one key, and the key is needed to compute it.
pub fn keyed_hash_hex(key: &[u8; KEY_LEN], value: &str) -> (res: Result<String, CryptoError>)
    ensures
        text_result(res) == Ok::<Seq<char>, CryptoError>(keyed_hash(key@, value@)),
        keyed_hash(key@, value@).len() == 64,
        lower_hex(keyed_hash(key@, value@)),
{
    match hmac_sha256(key, value) {
        Some(mac) => {
            proof {
                lemma_hex_text_len(mac@);
                lemma_hex_text_lower(mac@);
            }
            Ok(hex_encode(mac.as_slice()))
        },
        None => Err(CryptoError::KeyedHash),
    }
}

} // verus!
