use guardpetal::crypto::CryptoError;
use guardpetal::scanner::{FakeScanner, ScannedDevice};
use guardpetal::storage::{
    decrypt_raw_evidence, decrypt_rows, decrypt_string, device_by_display_id, encrypt_device,
    identity_confidence, prepare_scan, DeviceRow, EncryptedDeviceRow, StorageError,
};
use guardpetal::vault::{prepare_setup, UnlockedVault, Vault};
use std::path::PathBuf;

fn unlocked() -> UnlockedVault {
    let setup = prepare_setup("storage test", "storage test").unwrap();
    Vault::at(PathBuf::from("/tmp/guardpetal-storage-test.sqlite"))
        .unlock_with(Some(setup.salt), Some(setup.check), "storage test")
        .unwrap()
}

fn device(mac: Option<&str>, hostname: Option<&str>, ports: Vec<u16>) -> ScannedDevice {
    ScannedDevice {
        ip_address: "192.168.1.87".to_string(),
        mac_address: mac.map(|m| m.to_string()),
        hostname: hostname.map(|h| h.to_string()),
        vendor: None,
        open_ports: ports,
        status: "present".to_string(),
    }
}

fn row(display_id: usize) -> DeviceRow {
    DeviceRow {
        display_id,
        stable_id: format!("id-{display_id}"),
        status: "present".to_string(),
        ip_address: "10.0.0.1".to_string(),
        mac_address: None,
        hostname: None,
        vendor: None,
        open_ports: vec![],
        identity_confidence: 0,
        tags: String::new(),
    }
}

#[test]
fn identity_confidence_counts_what_is_known() {
    assert_eq!(identity_confidence(&device(Some("aa"), Some("h"), vec![22])), 100);
    assert_eq!(identity_confidence(&device(Some("aa"), None, vec![])), 40);
    assert_eq!(identity_confidence(&device(None, Some("h"), vec![])), 30);
    assert_eq!(identity_confidence(&device(None, None, vec![80])), 30);
    assert_eq!(identity_confidence(&device(None, None, vec![])), 0);
}

#[test]
fn device_without_mac_is_identified_by_its_address() {
    let vault = unlocked();
    let stored = encrypt_device(&vault, 3, &device(None, None, vec![])).unwrap();
    assert_eq!(stored.stable_id, "ip-192-168-1-87");
    assert_eq!(stored.display_id, 3);
    assert_eq!(stored.encrypted_mac, None);
    assert_eq!(stored.encrypted_hostname, None);
    assert_eq!(stored.open_ports, "[]");
    assert_eq!(stored.tags, "");
    assert_eq!(stored.status, "present");
    assert_eq!(stored.ip_address, "192.168.1.87");
    assert_eq!(stored.vendor, None);
    assert_eq!(stored.identity_confidence, 0);
}

#[test]
fn device_with_mac_is_identified_by_its_keyed_hash() {
    let vault = unlocked();
    let a = encrypt_device(&vault, 1, &device(Some("b8:27:eb:22:44:66"), None, vec![22])).unwrap();
    let b = encrypt_device(&vault, 2, &device(Some("b8:27:eb:22:44:66"), Some("pi"), vec![])).unwrap();
    assert_eq!(a.stable_id.len(), 12);
    assert_eq!(a.stable_id, b.stable_id);
    let expected = guardpetal::crypto::keyed_hash_hex(vault.key(), "b8:27:eb:22:44:66").unwrap();
    assert_eq!(a.stable_id, expected[..12]);
    assert_ne!(a.encrypted_mac.as_deref(), Some("b8:27:eb:22:44:66"));
    assert!(!a.stable_id.contains("b8:27:eb:22:44:66"));
    assert!(a.stable_id.chars().all(|c| c.is_ascii_digit() || ('a'..='f').contains(&c)));
    assert_eq!(a.open_ports, "[22]");
}

#[test]
fn stored_device_reads_back() {
    let vault = unlocked();
    let scanned = ScannedDevice {
        ip_address: "192.168.1.1".to_string(),
        mac_address: Some("a8:5e:45:10:00:01".to_string()),
        hostname: Some("home-router.local".to_string()),
        vendor: Some("Example Networks".to_string()),
        open_ports: vec![53, 80, 443],
        status: "present".to_string(),
    };
    let stored = encrypt_device(&vault, 1, &scanned).unwrap();
    assert_eq!(stored.open_ports, "[53,80,443]");
    let read = stored.decrypt(&vault).unwrap();
    assert_eq!(read.display_id, 1);
    assert_eq!(read.mac_address.as_deref(), Some("a8:5e:45:10:00:01"));
    assert_eq!(read.hostname.as_deref(), Some("home-router.local"));
    assert_eq!(read.vendor.as_deref(), Some("Example Networks"));
    assert_eq!(read.open_ports, vec![53, 80, 443]);
    assert_eq!(read.identity_confidence, 100);
    assert_eq!(read.tags, "");
}

#[test]
fn bad_port_list_fails_to_read() {
    let vault = unlocked();
    let row = EncryptedDeviceRow {
        display_id: 1,
        stable_id: "x".to_string(),
        status: "present".to_string(),
        ip_address: "10.0.0.1".to_string(),
        encrypted_mac: None,
        encrypted_hostname: None,
        vendor: None,
        open_ports: "[70000]".to_string(),
        identity_confidence: 0,
        tags: String::new(),
    };
    assert!(matches!(row.decrypt(&vault), Err(StorageError::BadPortList)));
}

#[test]
fn non_utf8_field_fails_to_read() {
    let vault = unlocked();
    let enc = guardpetal::crypto::encrypt_to_base64(vault.key(), &[0xff, 0xfe]).unwrap();
    assert_eq!(decrypt_string(&vault, &enc), Err(StorageError::NotUtf8));
    assert_eq!(
        decrypt_string(&vault, "@@@"),
        Err(StorageError::Crypto(CryptoError::Base64))
    );
}

#[test]
fn scan_is_stored_and_read_back_in_order() {
    let vault = unlocked();
    let result = FakeScanner.scan("192.168.1.0/24").unwrap();
    let prepared = prepare_scan(&vault, &result).unwrap();
    assert_eq!(prepared.scan.id, result.scan_id);
    assert_eq!(prepared.scan.subnet, "192.168.1.0/24");
    assert_eq!(prepared.scan.profile, "medium_manual_fake_v0");
    assert_eq!(prepared.scan.started_at, result.started_at);
    let ids: Vec<usize> = prepared.devices.iter().map(|d| d.display_id).collect();
    assert_eq!(ids, vec![1, 2, 3]);
    let rows = decrypt_rows(&vault, prepared.devices).unwrap();
    assert_eq!(rows.len(), 3);
    assert_eq!(rows[0].ip_address, "192.168.1.1");
    assert_eq!(rows[1].hostname.as_deref(), Some("raspberrypi.local"));
    assert_eq!(rows[2].mac_address, None);
    assert_eq!(rows[2].stable_id, "ip-192-168-1-87");
    assert_eq!(rows[2].identity_confidence, 0);
}

fn evidence_json_of_the_fake_scan() -> String {
    let mut records = Vec::new();
    for (ip, mac, host, ports) in [
        ("192.168.1.1", true, true, "[\n        53,\n        80,\n        443\n      ]"),
        ("192.168.1.42", true, true, "[\n        22\n      ]"),
        ("192.168.1.87", false, false, "[]"),
    ] {
        let count = if ports == "[]" { 0 } else { ports.matches(',').count() + 1 };
        records.push(format!(
            "  {{\n    \"source\": \"fake_scanner\",\n    \"summary\": \"Observed {ip} with {count} open ports\",\n    \"device_ip\": \"{ip}\",\n    \"fields\": {{\n      \"hostname_present\": {host},\n      \"ip_address\": \"{ip}\",\n      \"mac_address_present\": {mac},\n      \"open_ports\": {ports}\n    }}\n  }}"
        ));
    }
    format!("[\n{}\n]", records.join(",\n"))
}

#[test]
fn stored_raw_evidence_reads_back_as_its_json() {
    let vault = unlocked();
    let result = FakeScanner.scan("192.168.1.0/24").unwrap();
    let prepared = prepare_scan(&vault, &result).unwrap();
    let raw = decrypt_raw_evidence(&vault, Some(prepared.scan.raw_evidence.clone())).unwrap();
    assert_eq!(raw, Some(evidence_json_of_the_fake_scan()));
}

#[test]
fn raw_evidence_without_device_address_is_null() {
    let vault = unlocked();
    let mut result = FakeScanner.scan_with("s", "id".to_string(), "t0".to_string(), "t1".to_string());
    result.raw_evidence.truncate(1);
    result.raw_evidence[0].device_ip = None;
    let prepared = prepare_scan(&vault, &result).unwrap();
    let raw = decrypt_raw_evidence(&vault, Some(prepared.scan.raw_evidence)).unwrap().unwrap();
    assert!(raw.starts_with("[\n  {\n    \"source\": \"fake_scanner\",\n"));
    assert!(raw.contains("\n    \"device_ip\": null,\n"));
}

#[test]
fn no_raw_evidence_reads_as_none() {
    let vault = unlocked();
    assert_eq!(decrypt_raw_evidence(&vault, None), Ok(None));
}

#[test]
fn finds_device_by_display_id() {
    let found = device_by_display_id(vec![row(1), row(2), row(3)], 2).unwrap();
    assert_eq!(found.display_id, 2);
    assert_eq!(found.stable_id, "id-2");
    assert!(device_by_display_id(vec![row(1), row(2)], 9).is_none());
    assert!(device_by_display_id(vec![], 1).is_none());
}
