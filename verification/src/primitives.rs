//! The calls into the cryptography, encoding, compression, JSON, time and
//! identifier crates, and into the system's clock and random source, each
//! with the contract that its crate's source or documentation gives it.
use vstd::prelude::*;
use vstd::string::StringSliceAdditionalSpecFns;
use argon2::Argon2;
use base64::engine::general_purpose::STANDARD as BASE64;
use base64::Engine;
use chacha20poly1305::aead::{Aead, KeyInit, OsRng};
use chacha20poly1305::{ChaCha20Poly1305, Key, Nonce};
use flate2::read::GzDecoder;
use flate2::write::GzEncoder;
use flate2::Compression;
use hmac::{Hmac, Mac};
use rand_core::RngCore;
use sha2::Sha256;
use std::io::{Read, Write};
use zeroize::Zeroizing;
use serde_json::Value;
use crate::scanner::{evidence_view, opt_text, EvidenceView, RawEvidenceRecord};
use crate::text::decimal;

verus! {

/// A 32-byte key held in `zeroize::Zeroizing`, which wipes it from memory
/// when it drops. The key is reached only through `secret_key_ref`.
#[verifier::external_body]
pub struct SecretKey {
    inner: Zeroizing<[u8; 32]>,
}

/// The bytes that a `SecretKey` holds.
pub uninterp spec fn secret_key_bytes(k: SecretKey) -> Seq<u8>;

impl SecretKey {
    /// The key.
    pub fn bytes(&self) -> (r: &[u8; 32])
        ensures
            r@ == secret_key_bytes(*self),
    {
        secret_key_ref(self)
    }
}

/// The 32-byte key that Argon2id (version 0x13, 19 MiB of memory, 2 passes,
/// 1 lane: `Argon2::default()`) derives from the UTF-8 bytes of a
/// passphrase and a salt.
pub uninterp spec fn argon2id_key(passphrase: Seq<char>, salt: Seq<u8>) -> Seq<u8>;

/// ChaCha20-Poly1305 with an empty associated data: the ciphertext of a
/// plaintext under a key and a 12-byte nonce, with its 16-byte tag behind.
pub uninterp spec fn chacha_sealed(key: Seq<u8>, nonce: Seq<u8>, plaintext: Seq<u8>) -> Seq<u8>;

/// ChaCha20-Poly1305 with an empty associated data: the plaintext of a
/// ciphertext and tag under a key and a nonce, or `None` where the tag does
/// not authenticate it.
pub uninterp spec fn chacha_opened(key: Seq<u8>, nonce: Seq<u8>, sealed: Seq<u8>) -> Option<
    Seq<u8>,
>;

/// The gzip stream (default level; a header with no name, comment or time) that
/// `flate2`'s `GzEncoder` writes for the UTF-8 bytes of a text.
pub uninterp spec fn gzip_of_text(text: Seq<char>) -> Seq<u8>;

/// The text that a gzip stream decompresses to, or `None` where the stream
/// is not valid gzip or its content is not UTF-8.
pub uninterp spec fn gunzip_text(bytes: Seq<u8>) -> Option<Seq<char>>;

/// HMAC-SHA-256 of the UTF-8 bytes of a message under a key.
pub uninterp spec fn hmac_sha256_of(key: Seq<u8>, message: Seq<char>) -> Seq<u8>;

/// The list of port numbers that `serde_json` reads from a text, or `None`
/// where the text is not a JSON array of integers that fit in `u16`.
pub uninterp spec fn ports_from_json(text: Seq<char>) -> Option<Seq<u16>>;

/// The RFC 3339 text (offset `+00:00`) that `chrono` writes for a time given
/// as seconds and nanoseconds since the Unix epoch, or `None` where the time
/// is outside its calendar or the nanoseconds are not a valid fraction.
pub uninterp spec fn rfc3339_text(secs: int, nanos: int) -> Option<Seq<char>>;

/// The pretty-printed JSON array (two-space indents) that `serde_json`
/// writes for a list of raw evidence records.
pub uninterp spec fn evidence_json(records: Seq<EvidenceView>) -> Seq<char>;

/// The sixteen bytes of a version 4 UUID made from random bytes: the high
/// nibble of byte 6 is the version, 4, and the two high bits of byte 8 are
/// the RFC 4122 variant, `10`.
pub open spec fn uuid_v4_bytes(b: Seq<u8>) -> Seq<u8> {
    b.update(6, (b[6] & 0x0f) | 0x40).update(8, (b[8] & 0x3f) | 0x80)
}

/// A UUID in its hyphenated form: groups of 8, 4, 4, 4 and 12 lower-case
/// hexadecimal digits.
pub open spec fn uuid_text(u: Seq<u8>) -> Seq<char> {
    hex_text(u.subrange(0, 4)) + seq!['-'] + hex_text(u.subrange(4, 6)) + seq!['-'] + hex_text(
        u.subrange(6, 8),
    ) + seq!['-'] + hex_text(u.subrange(8, 10)) + seq!['-'] + hex_text(u.subrange(10, 16))
}

/// The Base64 symbol of a 6-bit value, in the standard alphabet.
pub open spec fn base64_symbol(v: int) -> char {
    if v < 26 {
        (65 + v) as char
    } else if v < 52 {
        (71 + v) as char
    } else if v < 62 {
        (v - 4) as char
    } else if v == 62 {
        '+'
    } else {
        '/'
    }
}

/// Standard Base64 with `=` padding: each 3 bytes become 4 symbols.
pub open spec fn base64_text(b: Seq<u8>) -> Seq<char>
    decreases b.len(),
{
    if b.len() == 0 {
        seq![]
    } else if b.len() == 1 {
        seq![base64_symbol(b[0] as int / 4), base64_symbol((b[0] as int % 4) * 16), '=', '=']
    } else if b.len() == 2 {
        seq![
            base64_symbol(b[0] as int / 4),
            base64_symbol((b[0] as int % 4) * 16 + b[1] as int / 16),
            base64_symbol((b[1] as int % 16) * 4),
            '=',
        ]
    } else {
        seq![
            base64_symbol(b[0] as int / 4),
            base64_symbol((b[0] as int % 4) * 16 + b[1] as int / 16),
            base64_symbol((b[1] as int % 16) * 4 + b[2] as int / 64),
            base64_symbol(b[2] as int % 64),
        ] + base64_text(b.skip(3))
    }
}

/// The bytes that standard, padded Base64 decodes from a text: the bytes
/// whose encoding the text is, or `None` where it is the encoding of none
/// (it holds another character, lacks its padding, or has bits set past the
/// last byte).
pub open spec fn base64_decoded(text: Seq<char>) -> Option<Seq<u8>> {
    if exists|b: Seq<u8>| #[trigger] base64_text(b) == text {
        Some(choose|b: Seq<u8>| #[trigger] base64_text(b) == text)
    } else {
        None
    }
}

/// Distinct 6-bit values have distinct symbols, and no symbol is the
/// padding `=`.
proof fn lemma_base64_symbol_injective(v: int, w: int)
    requires
        0 <= v < 64,
        0 <= w < 64,
    ensures
        base64_symbol(v) != '=',
        base64_symbol(v) == base64_symbol(w) ==> v == w,
{
}

/// The first byte of a group and the high bits of the next are found again
/// from their symbols.
proof fn lemma_base64_group_bytes(b0: u8, b1: u8, b2: u8, c0: u8, c1: u8, c2: u8)
    requires
        b0 / 4 == c0 / 4,
        (b0 % 4) * 16 + b1 / 16 == (c0 % 4) * 16 + c1 / 16,
        (b1 % 16) * 4 + b2 / 64 == (c1 % 16) * 4 + c2 / 64,
        b2 % 64 == c2 % 64,
    ensures
        b0 == c0,
        b1 == c1,
        b2 == c2,
{
    assert(b0 == c0 && b1 == c1 && b2 == c2) by (bit_vector)
        requires
            b0 / 4 == c0 / 4,
            (b0 % 4) * 16 + b1 / 16 == (c0 % 4) * 16 + c1 / 16,
            (b1 % 16) * 4 + b2 / 64 == (c1 % 16) * 4 + c2 / 64,
            b2 % 64 == c2 % 64,
    ;
}

/// Base64 tells bytes apart: two byte strings with the same encoding are
/// equal.
pub proof fn lemma_base64_text_injective(b: Seq<u8>, c: Seq<u8>)
    requires
        base64_text(b) == base64_text(c),
    ensures
        b == c,
    decreases b.len(),
{
    let t = base64_text(b);
    if b.len() == 0 || c.len() == 0 {
        if b.len() != c.len() {
            assert(t.len() == 0 || t.len() >= 4);
            assert(base64_text(c).len() >= 4 || base64_text(c).len() == 0);
        }
        assert(b =~= c);
    } else {
        let x0 = b[0] as int / 4;
        let y0 = c[0] as int / 4;
        lemma_base64_symbol_injective(x0, y0);
        assert(t[0] == base64_symbol(x0));
        assert(base64_text(c)[0] == base64_symbol(y0));
        let x1 = (b[0] as int % 4) * 16 + (if b.len() >= 2 { b[1] as int / 16 } else { 0 });
        let y1 = (c[0] as int % 4) * 16 + (if c.len() >= 2 { c[1] as int / 16 } else { 0 });
        lemma_base64_symbol_injective(x1, y1);
        assert(t[1] == base64_symbol(x1));
        assert(base64_text(c)[1] == base64_symbol(y1));
        if b.len() == 1 || c.len() == 1 {
            if b.len() >= 2 {
                let x2 = (b[1] as int % 16) * 4 + (if b.len() >= 3 { b[2] as int / 64 } else { 0 });
                lemma_base64_symbol_injective(x2, 0);
                assert(t[2] == base64_symbol(x2));
                assert(base64_text(c)[2] == '=');
            }
            if c.len() >= 2 {
                let y2 = (c[1] as int % 16) * 4 + (if c.len() >= 3 { c[2] as int / 64 } else { 0 });
                lemma_base64_symbol_injective(y2, 0);
                assert(base64_text(c)[2] == base64_symbol(y2));
                assert(t[2] == '=');
            }
            assert(b.len() == 1 && c.len() == 1);
            lemma_base64_group_bytes(b[0], 0, 0, c[0], 0, 0);
            assert(b =~= c);
        } else {
            let x2 = (b[1] as int % 16) * 4 + (if b.len() >= 3 { b[2] as int / 64 } else { 0 });
            let y2 = (c[1] as int % 16) * 4 + (if c.len() >= 3 { c[2] as int / 64 } else { 0 });
            lemma_base64_symbol_injective(x2, y2);
            assert(t[2] == base64_symbol(x2));
            assert(base64_text(c)[2] == base64_symbol(y2));
            if b.len() == 2 || c.len() == 2 {
                if b.len() >= 3 {
                    lemma_base64_symbol_injective(b[2] as int % 64, 0);
                    assert(t[3] == base64_symbol(b[2] as int % 64));
                    assert(base64_text(c)[3] == '=');
                }
                if c.len() >= 3 {
                    lemma_base64_symbol_injective(c[2] as int % 64, 0);
                    assert(base64_text(c)[3] == base64_symbol(c[2] as int % 64));
                    assert(t[3] == '=');
                }
                assert(b.len() == 2 && c.len() == 2);
                lemma_base64_group_bytes(b[0], b[1], 0, c[0], c[1], 0);
                assert(b =~= c);
            } else {
                lemma_base64_symbol_injective(b[2] as int % 64, c[2] as int % 64);
                assert(t[3] == base64_symbol(b[2] as int % 64));
                assert(base64_text(c)[3] == base64_symbol(c[2] as int % 64));
                lemma_base64_group_bytes(b[0], b[1], b[2], c[0], c[1], c[2]);
                assert(base64_text(b.skip(3)) =~= t.skip(4));
                assert(base64_text(c.skip(3)) =~= base64_text(c).skip(4));
                lemma_base64_text_injective(b.skip(3), c.skip(3));
                assert(b =~= seq![b[0], b[1], b[2]] + b.skip(3));
                assert(c =~= seq![c[0], c[1], c[2]] + c.skip(3));
            }
        }
    }
}

/// Base64 decodes the encoding of any bytes back to those bytes.
pub proof fn lemma_base64_round_trip(b: Seq<u8>)
    ensures
        base64_decoded(base64_text(b)) == Some(b),
{
    let t = base64_text(b);
    assert(base64_text(b) == t);
    let c = choose|c: Seq<u8>| #[trigger] base64_text(c) == t;
    lemma_base64_text_injective(b, c);
}

/// The lower-case hexadecimal digit of a 4-bit value.
pub open spec fn hex_digit(v: int) -> char {
    if v < 10 {
        (48 + v) as char
    } else {
        (87 + v) as char
    }
}

/// Lower-case hexadecimal, two digits per byte, high nibble first.
pub open spec fn hex_text(b: Seq<u8>) -> Seq<char>
    decreases b.len(),
{
    if b.len() == 0 {
        seq![]
    } else {
        seq![hex_digit(b[0] as int / 16), hex_digit(b[0] as int % 16)] + hex_text(b.drop_first())
    }
}

/// The numbers of `p` in decimal, separated by commas.
pub open spec fn decimal_list(p: Seq<u16>) -> Seq<char>
    decreases p.len(),
{
    if p.len() == 0 {
        seq![]
    } else if p.len() == 1 {
        decimal(p[0] as nat)
    } else {
        decimal(p[0] as nat) + seq![','] + decimal_list(p.drop_first())
    }
}

/// Compact JSON of a list of port numbers, such as `[53,80,443]`.
pub open spec fn ports_json(p: Seq<u16>) -> Seq<char> {
    seq!['['] + decimal_list(p) + seq![']']
}

/// The key inside a `SecretKey` (`Zeroizing`'s `Deref`).
#[verifier::external_body]
pub(crate) fn secret_key_ref(k: &SecretKey) -> (r: &[u8; 32])
    ensures
        r@ == secret_key_bytes(*k),
{
    &*k.inner
}

/// Fills `buf` from the operating system's random source
/// (`OsRng::try_fill_bytes`, which asks `getrandom`). It returns whether the
/// system supplied the bytes. Nothing is claimed of the bytes but their
/// number.
#[verifier::external_body]
pub(crate) fn fill_random(buf: &mut Vec<u8>) -> (filled: bool)
    ensures
        final(buf)@.len() == old(buf)@.len(),
{
    OsRng.try_fill_bytes(buf.as_mut_slice()).is_ok()
}

/// `Argon2::default().hash_password_into` of the passphrase's bytes and
/// the salt into a fresh 32-byte key. The crate refuses a passphrase or a
/// salt longer than `0xFFFF_FFFF` bytes and a salt shorter than 8 bytes, and
/// nothing else with a 32-byte output.
#[verifier::external_body]
pub(crate) fn argon2_derive(passphrase: &str, salt: &[u8]) -> (res: Option<SecretKey>)
    ensures
        res is Some <==> (passphrase.spec_bytes().len() <= 0xFFFF_FFFF && 8 <= salt@.len()
            <= 0xFFFF_FFFF),
        res matches Some(k) ==> secret_key_bytes(k) == argon2id_key(passphrase@, salt@),
{
    let mut key = Zeroizing::new([0_u8; 32]);
    match Argon2::default().hash_password_into(passphrase.as_bytes(), salt, key.as_mut()) {
        Ok(()) => Some(SecretKey { inner: key }),
        Err(_) => None,
    }
}

/// `ChaCha20Poly1305::encrypt` with a 12-byte nonce and no associated data.
/// It appends the 16-byte tag, refuses a plaintext of `0xFFFF_FFFF` blocks
/// of 64 bytes or more, and what it seals opens again under the same key and
/// nonce.
#[verifier::external_body]
pub(crate) fn chacha_seal(key: &[u8; 32], nonce: &[u8], plaintext: &[u8]) -> (res: Option<
    Vec<u8>,
>)
    requires
        nonce@.len() == 12,
    ensures
        res is Some <==> plaintext@.len() / 64 < 0xFFFF_FFFF,
        res matches Some(c) ==> c@ == chacha_sealed(key@, nonce@, plaintext@),
        res matches Some(c) ==> c@.len() == plaintext@.len() + 16,
        res matches Some(c) ==> chacha_opened(key@, nonce@, c@) == Some(plaintext@),
{
    let cipher = ChaCha20Poly1305::new(Key::from_slice(key));
    cipher.encrypt(Nonce::from_slice(nonce), plaintext).ok()
}

/// `ChaCha20Poly1305::decrypt` with a 12-byte nonce and no associated data.
/// It refuses a sealed value shorter than the 16-byte tag.
#[verifier::external_body]
pub(crate) fn chacha_open(key: &[u8; 32], nonce: &[u8], sealed: &[u8]) -> (res: Option<Vec<u8>>)
    requires
        nonce@.len() == 12,
    ensures
        sealed@.len() < 16 ==> res is None,
        match res {
            Some(p) => chacha_opened(key@, nonce@, sealed@) == Some(p@),
            None => chacha_opened(key@, nonce@, sealed@) is None,
        },
{
    let cipher = ChaCha20Poly1305::new(Key::from_slice(key));
    cipher.decrypt(Nonce::from_slice(nonce), sealed).ok()
}

/// `base64`'s `STANDARD` engine `encode`: padded Base64 of the standard
/// alphabet.
#[verifier::external_body]
pub(crate) fn base64_encode(bytes: &[u8]) -> (res: String)
    ensures
        res@ == base64_text(bytes@),
{
    BASE64.encode(bytes)
}

/// `base64`'s `STANDARD` engine `decode`. Its configuration asks for
/// canonical input: the padding that the length calls for, and no bits set
/// past the last byte; each symbol must be of the standard alphabet. So it
/// gives the bytes whose encoding the text is, and fails where there are
/// none.
#[verifier::external_body]
pub(crate) fn base64_decode(text: &str) -> (res: Option<Vec<u8>>)
    ensures
        match res {
            Some(b) => base64_decoded(text@) == Some(b@),
            None => base64_decoded(text@) is None,
        },
{
    BASE64.decode(text).ok()
}

/// Gzip-compresses the bytes of a text with `flate2`'s `GzEncoder` at the
/// default level, writing into a `Vec`, which takes every write, so the
/// encoder reports no error; a `GzDecoder` reads the text back from the
/// stream.
#[verifier::external_body]
pub(crate) fn gzip_text(text: &str) -> (res: Option<Vec<u8>>)
    ensures
        res is Some,
        res matches Some(b) ==> b@ == gzip_of_text(text@),
        res matches Some(b) ==> gunzip_text(b@) == Some(text@),
{
    let mut encoder = GzEncoder::new(Vec::new(), Compression::default());
    match encoder.write_all(text.as_bytes()) {
        Ok(()) => encoder.finish().ok(),
        Err(_) => None,
    }
}

/// Reads a gzip stream to a `String` with `flate2`'s `GzDecoder`.
#[verifier::external_body]
pub(crate) fn gunzip_to_string(bytes: &[u8]) -> (res: Option<String>)
    ensures
        match res {
            Some(s) => gunzip_text(bytes@) == Some(s@),
            None => gunzip_text(bytes@) is None,
        },
{
    let mut decoder = GzDecoder::new(bytes);
    let mut text = String::new();
    match decoder.read_to_string(&mut text) {
        Ok(_) => Some(text),
        Err(_) => None,
    }
}

/// HMAC-SHA-256 (`hmac::Hmac<sha2::Sha256>`) of the bytes of `message`.
/// HMAC takes a key of any length, so `new_from_slice` does not fail.
#[verifier::external_body]
pub(crate) fn hmac_sha256(key: &[u8; 32], message: &str) -> (res: Option<Vec<u8>>)
    ensures
        res is Some,
        res matches Some(m) ==> m@ == hmac_sha256_of(key@, message@),
        res matches Some(m) ==> m@.len() == 32,
{
    match <Hmac<Sha256> as Mac>::new_from_slice(key) {
        Ok(mut mac) => {
            mac.update(message.as_bytes());
            Some(mac.finalize().into_bytes().to_vec())
        },
        Err(_) => None,
    }
}

/// `hex::encode`: lower-case hexadecimal.
#[verifier::external_body]
pub(crate) fn hex_encode(bytes: &[u8]) -> (res: String)
    ensures
        res@ == hex_text(bytes@),
{
    hex::encode(bytes)
}

/// `serde_json::to_string` of a list of port numbers: compact JSON, which
/// writing into memory cannot fail, and which `serde_json` reads back.
#[verifier::external_body]
pub(crate) fn ports_to_json(ports: &Vec<u16>) -> (res: Option<String>)
    ensures
        res is Some,
        res matches Some(s) ==> s@ == ports_json(ports@),
        res matches Some(s) ==> ports_from_json(s@) == Some(ports@),
{
    serde_json::to_string(ports).ok()
}

/// `serde_json::from_str::<Vec<u16>>`.
#[verifier::external_body]
pub(crate) fn ports_from_json_text(text: &str) -> (res: Option<Vec<u16>>)
    ensures
        match res {
            Some(p) => ports_from_json(text@) == Some(p@),
            None => ports_from_json(text@) is None,
        },
{
    serde_json::from_str::<Vec<u16>>(text).ok()
}

/// `String::from_utf8`: the text that valid UTF-8 encodes.
#[verifier::external_body]
pub(crate) fn utf8_to_string(bytes: Vec<u8>) -> (res: Option<String>)
    ensures
        res is Some <==> vstd::utf8::valid_utf8(bytes@),
        res matches Some(s) ==> s@ == vstd::utf8::decode_utf8(bytes@),
{
    String::from_utf8(bytes).ok()
}

/// `uuid::Builder::from_random_bytes(bytes).into_uuid().to_string()`: the
/// version 4 UUID made from sixteen random bytes, in its hyphenated
/// lower-case form.
#[verifier::external_body]
pub(crate) fn uuid_v4_text(bytes: &Vec<u8>) -> (res: String)
    requires
        bytes@.len() == 16,
    ensures
        res@ == uuid_text(uuid_v4_bytes(bytes@)),
{
    let mut random = [0_u8; 16];
    random.copy_from_slice(bytes.as_slice());
    uuid::Builder::from_random_bytes(random).into_uuid().to_string()
}

/// The system clock as seconds and nanoseconds since the Unix epoch
/// (`SystemTime::now().duration_since(UNIX_EPOCH)`), or `None` where the
/// clock reads an earlier time. Nothing is claimed of the time itself.
#[verifier::external_body]
pub(crate) fn clock_since_epoch() -> (res: Option<(u64, u32)>)
    ensures
        res matches Some((secs, nanos)) ==> nanos < 1_000_000_000,
{
    match std::time::SystemTime::now().duration_since(std::time::UNIX_EPOCH) {
        Ok(d) => Some((d.as_secs(), d.subsec_nanos())),
        Err(_) => None,
    }
}

/// `chrono::DateTime::<Utc>::from_timestamp(secs, nanos)` written with
/// `to_rfc3339`. The crate takes every nanosecond count below one billion
/// with every day count that fits in `i32` and lies in its calendar (years
/// up to 262142), which covers the years up to 9999.
#[verifier::external_body]
pub(crate) fn rfc3339_of_timestamp(secs: i64, nanos: u32) -> (res: Option<String>)
    ensures
        opt_text(res) == rfc3339_text(secs as int, nanos as int),
        0 <= secs <= 253_402_300_799 && nanos < 1_000_000_000 ==> res is Some,
{
    match chrono::DateTime::<chrono::Utc>::from_timestamp(secs, nanos) {
        Some(t) => Some(t.to_rfc3339()),
        None => None,
    }
}

/// `serde_json::to_string_pretty` of the raw evidence, each record an
/// object of `source`, `summary`, `device_ip` (`null` where absent) and
/// `fields`, whose keys come in sorted order. A list of JSON values with
/// string keys always serializes.
#[verifier::external_body]
pub(crate) fn evidence_json_pretty(records: &Vec<RawEvidenceRecord>) -> (res: Option<String>)
    ensures
        res is Some,
        res matches Some(s) ==> s@ == evidence_json(evidence_view(records@)),
{
    let items: Vec<Value> = records.iter().map(|r| Value::from_iter([
        ("source", Value::from(r.source.as_str())),
        ("summary", Value::from(r.summary.as_str())),
        ("device_ip", Value::from(r.device_ip.as_deref())),
        ("fields", Value::from_iter([
            ("hostname_present", Value::from(r.fields.hostname_present)),
            ("ip_address", Value::from(r.fields.ip_address.as_str())),
            ("mac_address_present", Value::from(r.fields.mac_address_present)),
            ("open_ports", Value::from(r.fields.open_ports.as_slice())),
        ])),
    ])).collect();
    serde_json::to_string_pretty(&items).ok()
}

} // verus!
