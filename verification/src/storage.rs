//! What a scan stores and what reading it back gives: sensitive fields are
//! encrypted under the vault key, the MAC address is matched by a keyed
//! hash, and the raw evidence is compressed, then encrypted.
use vstd::prelude::*;
use vstd::utf8::{decode_utf8, encode_utf8, valid_utf8};
use crate::crypto::{
    compress_then_encrypt_to_base64, decompressed_decryption, decrypt_from_base64,
    decrypt_then_decompress_from_base64, decryption, encrypt_to_base64, encryptable_len,
    encrypted_with, is_hex_char, keyed_hash, keyed_hash_hex, lower_hex, CryptoError, KEY_LEN,
};
use crate::primitives::{
    evidence_json, evidence_json_pretty, gzip_of_text, ports_from_json, ports_from_json_text,
    ports_json, ports_to_json, utf8_to_string,
};
use crate::scanner::{evidence_view, opt_text, DeviceView, ScanResult, ScannedDevice};
use crate::text::{chars_of, push_char, string_of_range};
use crate::vault::UnlockedVault;

verus! {

/// What can go wrong in storing a scan or reading it back.
#[derive(Debug, Clone, Copy, PartialEq, Eq, Structural)]
pub enum StorageError {
    /// Encrypting, decrypting, compressing or decompressing failed.
    Crypto(CryptoError),
    /// A decrypted field is not UTF-8 text.
    NotUtf8,
    /// A stored port list is not a JSON list of port numbers.
    BadPortList,
    /// The raw evidence could not be written as JSON.
    Serialization,
}

/// A device of the latest scan, decrypted for display.
#[derive(Debug)]
pub struct DeviceRow {
    pub display_id: usize,
    pub stable_id: String,
    pub status: String,
    pub ip_address: String,
    pub mac_address: Option<String>,
    pub hostname: Option<String>,
    pub vendor: Option<String>,
    pub open_ports: Vec<u16>,
    pub identity_confidence: u8,
    pub tags: String,
}

/// A device as it is stored: the MAC address and the hostname encrypted,
/// the port list as JSON.
#[derive(Debug)]
pub struct EncryptedDeviceRow {
    pub display_id: usize,
    pub stable_id: String,
    pub status: String,
    pub ip_address: String,
    pub encrypted_mac: Option<String>,
    pub encrypted_hostname: Option<String>,
    pub vendor: Option<String>,
    pub open_ports: String,
    pub identity_confidence: u8,
    pub tags: String,
}

/// A scan as it is stored, its raw evidence compressed and encrypted.
#[derive(Debug)]
pub struct ScanRecord {
    pub id: String,
    pub started_at: String,
    pub completed_at: String,
    pub subnet: String,
    pub profile: String,
    pub raw_evidence: String,
}

/// What storing a scan writes: the scan and its device rows.
#[derive(Debug)]
pub struct PreparedScan {
    pub scan: ScanRecord,
    pub devices: Vec<EncryptedDeviceRow>,
}

/// A decrypted device row as a mathematical value.
pub struct DeviceRowView {
    pub display_id: usize,
    pub stable_id: Seq<char>,
    pub status: Seq<char>,
    pub ip_address: Seq<char>,
    pub mac_address: Option<Seq<char>>,
    pub hostname: Option<Seq<char>>,
    pub vendor: Option<Seq<char>>,
    pub open_ports: Seq<u16>,
    pub identity_confidence: u8,
    pub tags: Seq<char>,
}

impl View for DeviceRow {
    type V = DeviceRowView;

    open spec fn view(&self) -> DeviceRowView {
        DeviceRowView {
            display_id: self.display_id,
            stable_id: self.stable_id@,
            status: self.status@,
            ip_address: self.ip_address@,
            mac_address: opt_text(self.mac_address),
            hostname: opt_text(self.hostname),
            vendor: opt_text(self.vendor),
            open_ports: self.open_ports@,
            identity_confidence: self.identity_confidence,
            tags: self.tags@,
        }
    }
}

/// A stored device row as a mathematical value.
pub struct EncryptedRowView {
    pub display_id: usize,
    pub stable_id: Seq<char>,
    pub status: Seq<char>,
    pub ip_address: Seq<char>,
    pub encrypted_mac: Option<Seq<char>>,
    pub encrypted_hostname: Option<Seq<char>>,
    pub vendor: Option<Seq<char>>,
    pub open_ports: Seq<char>,
    pub identity_confidence: u8,
    pub tags: Seq<char>,
}

impl View for EncryptedDeviceRow {
    type V = EncryptedRowView;

    open spec fn view(&self) -> EncryptedRowView {
        EncryptedRowView {
            display_id: self.display_id,
            stable_id: self.stable_id@,
            status: self.status@,
            ip_address: self.ip_address@,
            encrypted_mac: opt_text(self.encrypted_mac),
            encrypted_hostname: opt_text(self.encrypted_hostname),
            vendor: opt_text(self.vendor),
            open_ports: self.open_ports@,
            identity_confidence: self.identity_confidence,
            tags: self.tags@,
        }
    }
}

/// An address with each `.` turned into `-`.
pub open spec fn dashed(s: Seq<char>) -> Seq<char> {
    s.map_values(
        |c: char|
            if c == '.' {
                '-'
            } else {
                c
            },
    )
}

/// The stable identifier of a device under `key`: the first 12 hex digits
/// of the keyed hash of its MAC address, or, without one, `ip-` and its
/// address with dashes for dots.
pub open spec fn stable_id_of(key: Seq<u8>, d: DeviceView) -> Seq<char> {
    match d.mac_address {
        Some(mac) => keyed_hash(key, mac).subrange(0, 12),
        None => "ip-"@ + dashed(d.ip_address),
    }
}

/// Whether `t` occurs in `s` as a run of consecutive characters.
pub open spec fn occurs_in(t: Seq<char>, s: Seq<char>) -> bool {
    exists|i: int| 0 <= i && i + t.len() <= s.len() && #[trigger] s.subrange(i, i + t.len()) == t
}

/// A text of hexadecimal digits shows no text that is longer than it or
/// that holds another character.
pub proof fn lemma_hex_shows_no_other_text(s: Seq<char>, t: Seq<char>)
    requires
        lower_hex(s),
        t.len() > s.len() || !lower_hex(t),
    ensures
        !occurs_in(t, s),
{
    if occurs_in(t, s) {
        let i = choose|i: int|
            0 <= i && i + t.len() <= s.len() && #[trigger] s.subrange(i, i + t.len()) == t;
        let j = choose|j: int| 0 <= j < t.len() && !is_hex_char(#[trigger] t[j]);
        assert(t[j] == s.subrange(i, i + t.len())[j]);
        assert(is_hex_char(s[i + j]));
    }
}

/// How well a device is identified, in percent: 40 for a MAC address, 30
/// for a hostname and 30 for any open port.
pub open spec fn confidence_of(d: DeviceView) -> u8 {
    ((if d.mac_address is Some {
        40int
    } else {
        0int
    }) + (if d.hostname is Some {
        30int
    } else {
        0int
    }) + (if d.open_ports.len() > 0 {
        30int
    } else {
        0int
    })) as u8
}

/// Whether the cipher takes an optional text field.
pub open spec fn sealable(t: Option<Seq<char>>) -> bool {
    match t {
        None => true,
        Some(p) => encryptable_len(encode_utf8(p).len()),
    }
}

/// Whether `enc` is the text `plain` encrypted under `key` with some nonce.
pub open spec fn text_sealed(key: Seq<u8>, plain: Seq<char>, enc: Seq<char>) -> bool {
    exists|n: Seq<u8>| #[trigger] encrypted_with(key, n, encode_utf8(plain), enc)
}

/// Whether `enc` is `plain` encrypted under `key` with some nonce.
pub open spec fn field_sealed(key: Seq<u8>, plain: Option<Seq<char>>, enc: Option<Seq<char>>) -> bool {
    match (plain, enc) {
        (None, None) => true,
        (Some(p), Some(e)) => text_sealed(key, p, e),
        _ => false,
    }
}

/// What decrypting a stored text field gives: its bytes must be UTF-8.
pub open spec fn decrypted_text(key: Seq<u8>, value: Seq<char>) -> Result<Seq<char>, StorageError> {
    match decryption(key, value) {
        Err(e) => Err(StorageError::Crypto(e)),
        Ok(b) => if valid_utf8(b) {
            Ok(decode_utf8(b))
        } else {
            Err(StorageError::NotUtf8)
        },
    }
}

/// What decrypting an optional stored text field gives.
pub open spec fn decrypted_option(key: Seq<u8>, enc: Option<Seq<char>>) -> Result<
    Option<Seq<char>>,
    StorageError,
> {
    match enc {
        None => Ok(None),
        Some(e) => match decrypted_text(key, e) {
            Ok(t) => Ok(Some(t)),
            Err(err) => Err(err),
        },
    }
}

/// The row that storing a device numbered `display_id` under `key` should
/// read back as.
pub open spec fn stored_row(key: Seq<u8>, display_id: usize, d: DeviceView) -> DeviceRowView {
    DeviceRowView {
        display_id,
        stable_id: stable_id_of(key, d),
        status: d.status,
        ip_address: d.ip_address,
        mac_address: d.mac_address,
        hostname: d.hostname,
        vendor: d.vendor,
        open_ports: d.open_ports,
        identity_confidence: confidence_of(d),
        tags: Seq::empty(),
    }
}

/// Whether `r` is the stored row of device `d` numbered `display_id` under
/// `key`: the MAC address and the hostname encrypted, the port list as JSON,
/// and no tags.
pub open spec fn sealed_device_row(
    key: Seq<u8>,
    display_id: usize,
    d: DeviceView,
    r: EncryptedRowView,
) -> bool {
    &&& r.display_id == display_id
    &&& r.stable_id == stable_id_of(key, d)
    &&& r.status == d.status
    &&& r.ip_address == d.ip_address
    &&& field_sealed(key, d.mac_address, r.encrypted_mac)
    &&& field_sealed(key, d.hostname, r.encrypted_hostname)
    &&& r.vendor == d.vendor
    &&& r.open_ports == ports_json(d.open_ports)
    &&& r.identity_confidence == confidence_of(d)
    &&& r.tags == Seq::<char>::empty()
}

/// What reading a stored row back gives: the MAC address, then the
/// hostname, are decrypted, then the port list is read.
pub open spec fn row_decryption(key: Seq<u8>, r: EncryptedRowView) -> Result<DeviceRowView, StorageError> {
    match decrypted_option(key, r.encrypted_mac) {
        Err(e) => Err(e),
        Ok(mac) => match decrypted_option(key, r.encrypted_hostname) {
            Err(e) => Err(e),
            Ok(hostname) => match ports_from_json(r.open_ports) {
                None => Err(StorageError::BadPortList),
                Some(ports) => Ok(
                    DeviceRowView {
                        display_id: r.display_id,
                        stable_id: r.stable_id,
                        status: r.status,
                        ip_address: r.ip_address,
                        mac_address: mac,
                        hostname,
                        vendor: r.vendor,
                        open_ports: ports,
                        identity_confidence: r.identity_confidence,
                        tags: r.tags,
                    },
                ),
            },
        },
    }
}

/// What reading stored rows back gives: each row in order, or the error of
/// the first that fails.
pub open spec fn rows_decryption(key: Seq<u8>, rows: Seq<EncryptedRowView>) -> Result<
    Seq<DeviceRowView>,
    StorageError,
>
    decreases rows.len(),
{
    if rows.len() == 0 {
        Ok(Seq::empty())
    } else {
        match rows_decryption(key, rows.drop_last()) {
            Err(e) => Err(e),
            Ok(prev) => match row_decryption(key, rows.last()) {
                Err(e) => Err(e),
                Ok(r) => Ok(prev.push(r)),
            },
        }
    }
}

/// Once some first rows fail to read back, all of them do, with the same
/// error.
proof fn lemma_rows_decryption_prefix_err(key: Seq<u8>, rows: Seq<EncryptedRowView>, k: int)
    requires
        0 <= k <= rows.len(),
        rows_decryption(key, rows.take(k)) is Err,
    ensures
        rows_decryption(key, rows) == rows_decryption(key, rows.take(k)),
    decreases rows.len(),
{
    if k == rows.len() {
        assert(rows.take(k) =~= rows);
    } else {
        assert(rows.drop_last().take(k) =~= rows.take(k));
        lemma_rows_decryption_prefix_err(key, rows.drop_last(), k);
    }
}

/// How well a device is identified, in percent: 40 for a MAC address, 30
/// for a hostname and 30 for any open port.
pub fn identity_confidence(device: &ScannedDevice) -> (res: u8)
    ensures
        res == confidence_of(device@),
{
    let mut score: u8 = 0;
    if device.mac_address.is_some() {
        score += 40;
    }
    if device.hostname.is_some() {
        score += 30;
    }
    if device.open_ports.len() > 0 {
        score += 30;
    }
    score
}

fn clone_text_option(o: &Option<String>) -> (res: Option<String>)
    ensures
        opt_text(res) == opt_text(*o),
{
    match o {
        Some(s) => Some(s.clone()),
        None => None,
    }
}

/// The stable identifier of a device under `key`.
fn stable_id(key: &[u8; KEY_LEN], device: &ScannedDevice) -> (res: Result<String, StorageError>)
    ensures
        res matches Ok(s) && s@ == stable_id_of(key@, device@),
        res matches Ok(s) ==> (device@.mac_address is Some ==> s@.len() == 12 && lower_hex(s@)),
{
    match &device.mac_address {
        Some(mac) => {
            let hash = match keyed_hash_hex(key, mac.as_str()) {
                Ok(h) => h,
                Err(e) => {
                    return Err(StorageError::Crypto(e));
                },
            };
            let chars = chars_of(hash.as_str());
            Ok(string_of_range(&chars, 0, 12))
        },
        None => {
            let ip = chars_of(device.ip_address.as_str());
            let mut s = "ip-".to_owned();
            let ghost prefix = s@;
            let mut i: usize = 0;
            while i < ip.len()
                invariant
                    i <= ip@.len(),
                    s@ == prefix + dashed(ip@.take(i as int)),
                decreases ip@.len() - i,
            {
                let c = ip[i];
                if c == '.' {
                    push_char(&mut s, '-');
                } else {
                    push_char(&mut s, c);
                }
                assert(dashed(ip@.take(i + 1)) =~= dashed(ip@.take(i as int)).push(
                    if c == '.' {
                        '-'
                    } else {
                        c
                    },
                ));
                i = i + 1;
            }
            assert(ip@.take(ip@.len() as int) =~= ip@);
            Ok(s)
        },
    }
}

/// Encrypts an optional text field under `key`; it decrypts back to the
/// same text.
fn seal_text_option(key: &[u8; KEY_LEN], plain: &Option<String>) -> (res: Result<
    Option<String>,
    StorageError,
>)
    ensures
        res is Ok ==> sealable(opt_text(*plain)),
        plain is None ==> res == Ok::<Option<String>, StorageError>(None),
        res matches Err(e) ==> (e == StorageError::Crypto(CryptoError::Randomness) && plain is Some)
            || (e == StorageError::Crypto(CryptoError::Encryption) && !sealable(opt_text(*plain))),
        res matches Ok(enc) ==> field_sealed(key@, opt_text(*plain), opt_text(enc)),
        res matches Ok(enc) ==> decrypted_option(key@, opt_text(enc)) == Ok::<
            Option<Seq<char>>,
            StorageError,
        >(opt_text(*plain)),
{
    match plain {
        None => Ok(None),
        Some(p) => {
            let bytes = p.as_str().as_bytes();
            match encrypt_to_base64(key, bytes) {
                Err(e) => Err(StorageError::Crypto(e)),
                Ok(enc) => {
                    proof {
                        vstd::utf8::encode_utf8_valid_utf8(p@);
                        vstd::utf8::encode_utf8_decode_utf8(p@);
                        let n = choose|n: Seq<u8>| #[trigger] encrypted_with(key@, n, bytes@, enc@);
                        assert(bytes@ == encode_utf8(p@));
                        assert(encrypted_with(key@, n, encode_utf8(p@), enc@));
                        assert(text_sealed(key@, p@, enc@));
                        assert(opt_text(*plain) == Some(p@));
                    }
                    Ok(Some(enc))
                },
            }
        },
    }
}

/// The stored row of a device, numbered `display_id`: the keyed-hash
/// identifier, the MAC address and the hostname encrypted, the port list as
/// JSON, the identity confidence, and no tags. Reading the row back gives
/// the device's fields again.
pub fn encrypt_device(vault: &UnlockedVault, display_id: usize, device: &ScannedDevice) -> (res:
    Result<EncryptedDeviceRow, StorageError>)
    ensures
        res is Ok ==> sealable(device@.mac_address) && sealable(device@.hostname),
        device@.mac_address is None && device@.hostname is None ==> res is Ok,
        res matches Err(e) ==> (e == StorageError::Crypto(CryptoError::Randomness) && (
        device@.mac_address is Some || device@.hostname is Some)) || (e == StorageError::Crypto(
            CryptoError::Encryption,
        ) && !(sealable(device@.mac_address) && sealable(device@.hostname))),
        res matches Ok(r) ==> sealed_device_row(vault.key_bytes(), display_id, device@, r@),
        res matches Ok(r) ==> (device@.mac_address matches Some(m) ==> {
            &&& r.stable_id@.len() == 12
            &&& lower_hex(r.stable_id@)
            &&& (m.len() > 12 || !lower_hex(m) ==> !occurs_in(m, r.stable_id@))
        }),
        res matches Ok(r) ==> row_decryption(vault.key_bytes(), r@) == Ok::<
            DeviceRowView,
            StorageError,
        >(stored_row(vault.key_bytes(), display_id, device@)),
{
    let key = vault.key();
    let stable_id = stable_id(key, device)?;
    proof {
        if device@.mac_address is Some {
            let m = device@.mac_address->0;
            if m.len() > 12 || !lower_hex(m) {
                lemma_hex_shows_no_other_text(stable_id@, m);
            }
        }
    }
    let encrypted_mac = seal_text_option(key, &device.mac_address)?;
    let encrypted_hostname = seal_text_option(key, &device.hostname)?;
    let open_ports = match ports_to_json(&device.open_ports) {
        Some(j) => j,
        None => {
            return Err(StorageError::BadPortList);
        },
    };
    let identity_confidence = identity_confidence(device);
    let row = EncryptedDeviceRow {
        display_id,
        stable_id,
        status: device.status.clone(),
        ip_address: device.ip_address.clone(),
        encrypted_mac,
        encrypted_hostname,
        vendor: clone_text_option(&device.vendor),
        open_ports,
        identity_confidence,
        tags: String::new(),
    };
    proof {
        assert(row@.tags =~= Seq::<char>::empty());
        assert(row_decryption(vault.key_bytes(), row@) == Ok::<DeviceRowView, StorageError>(
            stored_row(vault.key_bytes(), display_id, device@),
        ));
    }
    Ok(row)
}

/// A device row result as a mathematical value.
pub open spec fn row_result(r: Result<DeviceRow, StorageError>) -> Result<DeviceRowView, StorageError> {
    match r {
        Ok(d) => Ok(d@),
        Err(e) => Err(e),
    }
}

/// The rows as mathematical values.
pub open spec fn encrypted_rows_view(rows: Seq<EncryptedDeviceRow>) -> Seq<EncryptedRowView> {
    rows.map_values(|r: EncryptedDeviceRow| r@)
}

/// The rows as mathematical values.
pub open spec fn device_rows_view(rows: Seq<DeviceRow>) -> Seq<DeviceRowView> {
    rows.map_values(|r: DeviceRow| r@)
}

/// Decrypts a stored text field.
pub fn decrypt_string(vault: &UnlockedVault, value: &str) -> (res: Result<String, StorageError>)
    ensures
        match res {
            Ok(s) => decrypted_text(vault.key_bytes(), value@) == Ok::<Seq<char>, StorageError>(s@),
            Err(e) => decrypted_text(vault.key_bytes(), value@) == Err::<Seq<char>, StorageError>(e),
        },
{
    let bytes = match decrypt_from_base64(vault.key(), value) {
        Ok(b) => b,
        Err(e) => {
            return Err(StorageError::Crypto(e));
        },
    };
    match utf8_to_string(bytes) {
        Some(s) => Ok(s),
        None => Err(StorageError::NotUtf8),
    }
}

fn decrypt_text_option(vault: &UnlockedVault, enc: Option<String>) -> (res: Result<
    Option<String>,
    StorageError,
>)
    ensures
        match res {
            Ok(t) => decrypted_option(vault.key_bytes(), opt_text(enc)) == Ok::<
                Option<Seq<char>>,
                StorageError,
            >(opt_text(t)),
            Err(e) => decrypted_option(vault.key_bytes(), opt_text(enc)) == Err::<
                Option<Seq<char>>,
                StorageError,
            >(e),
        },
{
    match enc {
        None => Ok(None),
        Some(e) => match decrypt_string(vault, e.as_str()) {
            Ok(t) => Ok(Some(t)),
            Err(err) => Err(err),
        },
    }
}

impl EncryptedDeviceRow {
    /// Reads a stored device row back: decrypts the MAC address and the
    /// hostname and reads the port list.
    pub fn decrypt(self, vault: &UnlockedVault) -> (res: Result<DeviceRow, StorageError>)
        ensures
            row_result(res) == row_decryption(vault.key_bytes(), self@),
    {
        let ghost v = self@;
        let mac_address = decrypt_text_option(vault, self.encrypted_mac)?;
        let hostname = decrypt_text_option(vault, self.encrypted_hostname)?;
        let open_ports = match ports_from_json_text(self.open_ports.as_str()) {
            Some(p) => p,
            None => {
                return Err(StorageError::BadPortList);
            },
        };
        let row = DeviceRow {
            display_id: self.display_id,
            stable_id: self.stable_id,
            status: self.status,
            ip_address: self.ip_address,
            mac_address,
            hostname,
            vendor: self.vendor,
            open_ports,
            identity_confidence: self.identity_confidence,
            tags: self.tags,
        };
        assert(row_decryption(vault.key_bytes(), v) == Ok::<DeviceRowView, StorageError>(row@));
        Ok(row)
    }
}

/// Reads the stored rows of a scan back, in order; the first row that fails
/// to read gives the error.
pub fn decrypt_rows(vault: &UnlockedVault, rows: Vec<EncryptedDeviceRow>) -> (res: Result<
    Vec<DeviceRow>,
    StorageError,
>)
    ensures
        match res {
            Ok(v) => rows_decryption(vault.key_bytes(), encrypted_rows_view(rows@)) == Ok::<
                Seq<DeviceRowView>,
                StorageError,
            >(device_rows_view(v@)),
            Err(e) => rows_decryption(vault.key_bytes(), encrypted_rows_view(rows@)) == Err::<
                Seq<DeviceRowView>,
                StorageError,
            >(e),
        },
{
    let ghost key = vault.key_bytes();
    let ghost all = encrypted_rows_view(rows@);
    let ghost n = rows@.len();
    assert(n <= usize::MAX) by {
        assert(rows@.len() == rows.len());
    }
    let mut rest = rows;
    let mut out: Vec<DeviceRow> = Vec::new();
    let mut i: usize = 0;
    assert(all.take(0) =~= Seq::<EncryptedRowView>::empty());
    assert(device_rows_view(out@) =~= Seq::<DeviceRowView>::empty());
    assert(rows_decryption(key, all.take(0)) == Ok::<Seq<DeviceRowView>, StorageError>(
        Seq::empty(),
    ));
    while rest.len() > 0
        invariant
            key == vault.key_bytes(),
            all == encrypted_rows_view(rows@),
            all.len() == n,
            n <= usize::MAX,
            i + rest@.len() == n,
            encrypted_rows_view(rest@) =~= all.skip(i as int),
            rows_decryption(key, all.take(i as int)) == Ok::<Seq<DeviceRowView>, StorageError>(
                device_rows_view(out@),
            ),
        decreases rest@.len(),
    {
        let ghost before = rest@;
        let row = rest.remove(0);
        proof {
            assert(row == before[0]);
            assert(encrypted_rows_view(before)[0] == row@);
            assert(all.skip(i as int)[0] == all[i as int]);
            assert(row@ == all[i as int]);
            assert(all.take(i + 1).drop_last() =~= all.take(i as int));
            assert(all.take(i + 1).last() == all[i as int]);
            assert forall|k: int| 0 <= k < rest@.len() implies #[trigger] encrypted_rows_view(
                rest@,
            )[k] == all.skip(i + 1)[k] by {
                assert(rest@[k] == before[k + 1]);
                assert(encrypted_rows_view(before)[k + 1] == before[k + 1]@);
                assert(all.skip(i as int)[k + 1] == all[i + 1 + k]);
            }
            assert(encrypted_rows_view(rest@) =~= all.skip(i + 1));
        }
        match row.decrypt(vault) {
            Err(e) => {
                proof {
                    assert(rows_decryption(key, all.take(i + 1)) == Err::<
                        Seq<DeviceRowView>,
                        StorageError,
                    >(e));
                    lemma_rows_decryption_prefix_err(key, all, i + 1);
                }
                return Err(e);
            },
            Ok(d) => {
                let ghost prev = out@;
                out.push(d);
                assert(device_rows_view(out@) =~= device_rows_view(prev).push(d@));
            },
        }
        i = i + 1;
    }
    assert(all.take(n as int) =~= all);
    Ok(out)
}

/// Decrypts and decompresses the stored raw evidence of the latest scan,
/// if there is one.
pub fn decrypt_raw_evidence(vault: &UnlockedVault, encrypted: Option<String>) -> (res: Result<
    Option<String>,
    CryptoError,
>)
    ensures
        match encrypted {
            None => res matches Ok(None),
            Some(e) => match res {
                Ok(t) => t matches Some(s) && decompressed_decryption(vault.key_bytes(), e@) == Ok::<
                    Seq<char>,
                    CryptoError,
                >(s@),
                Err(err) => decompressed_decryption(vault.key_bytes(), e@) == Err::<
                    Seq<char>,
                    CryptoError,
                >(err),
            },
        },
{
    match encrypted {
        None => Ok(None),
        Some(e) => match decrypt_then_decompress_from_base64(vault.key(), e.as_str()) {
            Ok(t) => Ok(Some(t)),
            Err(err) => Err(err),
        },
    }
}

/// The device of the latest scan with this display id, if there is one:
/// the first such in the list.
pub fn device_by_display_id(devices: Vec<DeviceRow>, display_id: usize) -> (res: Option<DeviceRow>)
    ensures
        match res {
            Some(d) => exists|i: int|
                0 <= i < devices@.len() && #[trigger] devices@[i] == d && d.display_id == display_id
                    && forall|j: int| 0 <= j < i ==> devices@[j].display_id != display_id,
            None => forall|i: int|
                0 <= i < devices@.len() ==> #[trigger] devices@[i].display_id != display_id,
        },
{
    let mut i: usize = 0;
    while i < devices.len()
        invariant
            i <= devices@.len(),
            forall|j: int| 0 <= j < i ==> #[trigger] devices@[j].display_id != display_id,
        decreases devices@.len() - i,
    {
        if devices[i].display_id == display_id {
            let ghost before = devices@;
            let mut devices = devices;
            let d = devices.remove(i);
            assert(before[i as int] == d);
            return Some(d);
        }
        i = i + 1;
    }
    None
}

/// Whether the cipher takes every value that storing a scan encrypts: the
/// compressed JSON of its raw evidence, and each device's MAC address and
/// hostname.
pub open spec fn scan_sealable(result: ScanResult) -> bool {
    &&& encryptable_len(gzip_of_text(evidence_json(evidence_view(result.raw_evidence@))).len())
    &&& forall|i: int|
        0 <= i < result.devices@.len() ==> sealable(#[trigger] result.devices@[i]@.mac_address)
            && sealable(result.devices@[i]@.hostname)
}

/// What storing a scan writes: the scan with the JSON of its raw evidence
/// compressed and encrypted, and each device's row, numbered from 1 in the
/// order of the scan. Reading back the raw evidence gives that JSON, and
/// reading back each row gives its device's fields. It fails only where the
/// random source does, or where a value is too long for the cipher.
pub fn prepare_scan(vault: &UnlockedVault, result: &ScanResult) -> (res: Result<
    PreparedScan,
    StorageError,
>)
    ensures
        res is Ok ==> scan_sealable(*result),
        res matches Err(e) ==> e == StorageError::Crypto(CryptoError::Randomness) || (e
            == StorageError::Crypto(CryptoError::Encryption) && !scan_sealable(*result)),
        res matches Ok(p) ==> {
            &&& p.scan.id@ == result.scan_id@
            &&& p.scan.started_at@ == result.started_at@
            &&& p.scan.completed_at@ == result.completed_at@
            &&& p.scan.subnet@ == result.subnet@
            &&& p.scan.profile@ == result.profile@
            &&& decompressed_decryption(vault.key_bytes(), p.scan.raw_evidence@) == Ok::<
                Seq<char>,
                CryptoError,
            >(evidence_json(evidence_view(result.raw_evidence@)))
            &&& p.devices@.len() == result.devices@.len()
            &&& forall|i: int|
                0 <= i < p.devices@.len() ==> sealed_device_row(
                    vault.key_bytes(),
                    (i + 1) as usize,
                    result.devices@[i]@,
                    #[trigger] p.devices@[i]@,
                )
            &&& forall|i: int|
                0 <= i < p.devices@.len() ==> row_decryption(
                    vault.key_bytes(),
                    #[trigger] p.devices@[i]@,
                ) == Ok::<DeviceRowView, StorageError>(
                    stored_row(vault.key_bytes(), (i + 1) as usize, result.devices@[i]@),
                )
        },
{
    let raw_json = match evidence_json_pretty(&result.raw_evidence) {
        Some(j) => j,
        None => {
            return Err(StorageError::Serialization);
        },
    };
    let raw_evidence = match compress_then_encrypt_to_base64(vault.key(), raw_json.as_str()) {
        Ok(r) => r,
        Err(e) => {
            return Err(StorageError::Crypto(e));
        },
    };
    let mut devices: Vec<EncryptedDeviceRow> = Vec::new();
    let mut i: usize = 0;
    while i < result.devices.len()
        invariant
            i <= result.devices@.len(),
            encryptable_len(gzip_of_text(evidence_json(evidence_view(result.raw_evidence@))).len()),
            devices@.len() == i,
            forall|k: int|
                0 <= k < i ==> sealable(#[trigger] result.devices@[k]@.mac_address) && sealable(
                    result.devices@[k]@.hostname,
                ),
            forall|k: int|
                0 <= k < i ==> sealed_device_row(
                    vault.key_bytes(),
                    (k + 1) as usize,
                    result.devices@[k]@,
                    #[trigger] devices@[k]@,
                ),
            forall|k: int|
                0 <= k < i ==> row_decryption(vault.key_bytes(), #[trigger] devices@[k]@) == Ok::<
                    DeviceRowView,
                    StorageError,
                >(stored_row(vault.key_bytes(), (k + 1) as usize, result.devices@[k]@)),
        decreases result.devices@.len() - i,
    {
        let row = match encrypt_device(vault, i + 1, &result.devices[i]) {
            Ok(r) => r,
            Err(e) => {
                return Err(e);
            },
        };
        devices.push(row);
        i = i + 1;
    }
    Ok(
        PreparedScan {
            scan: ScanRecord {
                id: result.scan_id.clone(),
                started_at: result.started_at.clone(),
                completed_at: result.completed_at.clone(),
                subnet: result.subnet.clone(),
                profile: result.profile.clone(),
                raw_evidence,
            },
            devices,
        },
    )
}

/// The rows that reading back a stored scan should give: each device,
/// numbered from 1 in the order of the scan.
pub open spec fn stored_rows(key: Seq<u8>, devices: Seq<DeviceView>) -> Seq<DeviceRowView> {
    Seq::new(devices.len(), |i: int| stored_row(key, (i + 1) as usize, devices[i]))
}

/// A stored scan reads back as it was stored: when each stored row reads
/// back as its device (as `prepare_scan` ensures), reading all the rows in
/// order gives the scan's devices, numbered from 1.
pub proof fn lemma_scan_reads_back(
    key: Seq<u8>,
    devices: Seq<DeviceView>,
    rows: Seq<EncryptedRowView>,
)
    requires
        rows.len() == devices.len(),
        forall|i: int|
            0 <= i < rows.len() ==> row_decryption(key, #[trigger] rows[i]) == Ok::<
                DeviceRowView,
                StorageError,
            >(stored_row(key, (i + 1) as usize, devices[i])),
    ensures
        rows_decryption(key, rows) == Ok::<Seq<DeviceRowView>, StorageError>(
            stored_rows(key, devices),
        ),
    decreases rows.len(),
{
    if rows.len() > 0 {
        let n = rows.len() - 1;
        assert forall|i: int| 0 <= i < n implies row_decryption(
            key,
            #[trigger] rows.drop_last()[i],
        ) == Ok::<DeviceRowView, StorageError>(
            stored_row(key, (i + 1) as usize, devices.drop_last()[i]),
        ) by {
            assert(rows.drop_last()[i] == rows[i]);
        }
        lemma_scan_reads_back(key, devices.drop_last(), rows.drop_last());
        assert(row_decryption(key, rows[n]) == Ok::<DeviceRowView, StorageError>(
            stored_row(key, (n + 1) as usize, devices[n]),
        ));
        assert(stored_rows(key, devices) =~= stored_rows(key, devices.drop_last()).push(
            stored_row(key, (n + 1) as usize, devices[n]),
        ));
    } else {
        assert(stored_rows(key, devices) =~= Seq::<DeviceRowView>::empty());
    }
}

/// Devices are matched across scans by their MAC address: under one key,
/// two devices with the same MAC address get the same stable identifier.
pub proof fn lemma_stable_id_follows_mac(key: Seq<u8>, a: DeviceView, b: DeviceView)
    requires
        a.mac_address is Some,
        a.mac_address == b.mac_address,
    ensures
        stable_id_of(key, a) == stable_id_of(key, b),
{
}


/// How well a device is identified, in percent: 40 when its MAC address is
/// known, plus 30 when its hostname is, plus 30 when it has an open port.
pub proof fn lemma_confidence_weights(d: DeviceView)
    ensures
        confidence_of(d) as int == (if d.mac_address is Some {
            40int
        } else {
            0int
        }) + (if d.hostname is Some {
            30int
        } else {
            0int
        }) + (if d.open_ports.len() > 0 {
            30int
        } else {
            0int
        }),
        d.mac_address is Some && d.hostname is Some && d.open_ports.len() == 0 ==> confidence_of(d)
            == 70,
        confidence_of(d) <= 100,
        confidence_of(d) == 100 <==> (d.mac_address is Some && d.hostname is Some
            && d.open_ports.len() > 0),
{
}

/// Open ports add 30 to the identity confidence, whatever else is known: of
/// two devices that agree on whether their MAC address and hostname are
/// known, the one with an open port scores 30 more than the one with none.
pub proof fn lemma_open_ports_add_thirty(a: DeviceView, b: DeviceView)
    requires
        (a.mac_address is Some) == (b.mac_address is Some),
        (a.hostname is Some) == (b.hostname is Some),
        a.open_ports.len() == 0,
        b.open_ports.len() > 0,
    ensures
        confidence_of(b) == confidence_of(a) + 30,
{
}

} // verus!
