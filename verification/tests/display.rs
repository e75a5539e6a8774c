use guardpetal::render::{
    device_cells_of, device_detail, device_detail_rows, device_table_rows, devices,
    format_ports, help, raw_evidence, scope, settings, settings_rows,
};
use guardpetal::scanner::{timestamp_text, FakeScanner};
use guardpetal::settings::{ReverseDnsSetting, Settings};
use guardpetal::storage::DeviceRow;

fn router() -> DeviceRow {
    DeviceRow {
        display_id: 1,
        stable_id: "0123456789ab".to_string(),
        status: "present".to_string(),
        ip_address: "192.168.1.1".to_string(),
        mac_address: Some("a8:5e:45:10:00:01".to_string()),
        hostname: None,
        vendor: Some("Example Networks".to_string()),
        open_ports: vec![53, 80, 443],
        identity_confidence: 70,
        tags: String::new(),
    }
}

#[test]
fn formats_port_lists() {
    assert_eq!(format_ports(&[]), "-");
    assert_eq!(format_ports(&[22]), "22");
    assert_eq!(format_ports(&[53, 80, 443]), "53, 80, 443");
    assert_eq!(format_ports(&[0, 65535]), "0, 65535");
}

#[test]
fn decimal_numerals() {
    assert_eq!(format_ports(&[0]), "0");
    assert_eq!(format_ports(&[7, 10, 100, 9999]), "7, 10, 100, 9999");
    let mut row = router();
    row.display_id = usize::MAX;
    assert_eq!(device_cells_of(&row)[0], usize::MAX.to_string());
}

#[test]
fn device_table_cells() {
    let cells = device_cells_of(&router());
    assert_eq!(
        cells,
        vec![
            "1",
            "present",
            "192.168.1.1",
            "-",
            "a8:5e:45:10:00:01",
            "Example Networks",
            "53, 80, 443",
            "70%",
            "-"
        ]
    );
    let rows = device_table_rows(&[router(), router()]);
    assert_eq!(rows.len(), 2);
    assert_eq!(rows[1], cells);
}

#[test]
fn device_detail_lines() {
    let lines = device_detail_rows(&router());
    assert_eq!(lines.len(), 10);
    assert_eq!(lines[0], ("Session ID".to_string(), "1".to_string()));
    assert_eq!(lines[1], ("Stable ID".to_string(), "0123456789ab".to_string()));
    assert_eq!(lines[5], ("Hostname".to_string(), "-".to_string()));
    assert_eq!(lines[7], ("Open ports".to_string(), "53, 80, 443".to_string()));
    assert_eq!(lines[8], ("Identity confidence".to_string(), "70%".to_string()));
    assert_eq!(lines[9], ("Tags".to_string(), "-".to_string()));
}

#[test]
fn settings_lines() {
    let settings = Settings::defaults("/data/guardpetal.sqlite".to_string());
    let lines = settings_rows(&settings);
    assert_eq!(lines[0], ("Reverse DNS".to_string(), "NotConfigured".to_string()));
    assert_eq!(lines[1], ("Scan profile".to_string(), "medium_manual_fake_v0".to_string()));
    assert_eq!(lines[2], ("Subnet detection".to_string(), "detect_every_scan".to_string()));
    assert_eq!(lines[3], ("Vault path".to_string(), "/data/guardpetal.sqlite".to_string()));
    assert_eq!(lines[4], ("Logging mode".to_string(), "minimal_sensitive".to_string()));
}

#[test]
fn raw_evidence_message() {
    assert_eq!(raw_evidence(Some("{}")), "{}");
    assert_eq!(raw_evidence(None), "No raw evidence stored yet. Type `scan` first.");
}

#[test]
fn default_settings_and_their_saved_copy() {
    let settings = Settings::defaults("/x/db.sqlite".to_string());
    assert_eq!(settings.reverse_dns, ReverseDnsSetting::NotConfigured);
    let copy = settings.clone_for_save();
    assert_eq!(copy.reverse_dns, settings.reverse_dns);
    assert_eq!(copy.scan_profile, settings.scan_profile);
    assert_eq!(copy.subnet_detection, settings.subnet_detection);
    assert_eq!(copy.logging_mode, settings.logging_mode);
    assert_eq!(copy.vault_path, settings.vault_path);
}

#[test]
fn fake_scan_reports_the_fixed_network() {
    let scanner = FakeScanner::default();
    assert_eq!(scanner.detect_subnet(), "192.168.1.0/24");
    let result = scanner.scan("10.0.0.0/24").unwrap();
    assert_eq!(result.subnet, "10.0.0.0/24");
    assert_eq!(result.profile, "medium_manual_fake_v0");
    assert_eq!(result.scan_id.len(), 36);
    assert_eq!(result.devices.len(), 3);
    assert_eq!(result.devices[0].open_ports, vec![53, 80, 443]);
    assert_eq!(result.devices[2].mac_address, None);
    assert_eq!(result.raw_evidence.len(), 3);
    assert_eq!(result.raw_evidence[0].summary, "Observed 192.168.1.1 with 3 open ports");
    assert_eq!(result.raw_evidence[2].summary, "Observed 192.168.1.87 with 0 open ports");
    assert_eq!(result.raw_evidence[1].source, "fake_scanner");
    assert_eq!(result.raw_evidence[1].device_ip.as_deref(), Some("192.168.1.42"));
    assert!(result.raw_evidence[0].fields.mac_address_present);
    assert!(!result.raw_evidence[2].fields.hostname_present);
    assert!(result.started_at.ends_with("+00:00"));
    assert!(result.started_at <= result.completed_at);
}

#[test]
fn scan_id_is_a_version_four_uuid() {
    let result = FakeScanner.scan("192.168.1.0/24").unwrap();
    let id: Vec<char> = result.scan_id.chars().collect();
    assert_eq!(id.len(), 36);
    for i in [8, 13, 18, 23] {
        assert_eq!(id[i], '-');
    }
    assert_eq!(id[14], '4');
    assert!(matches!(id[19], '8' | '9' | 'a' | 'b'));
    assert!(result.scan_id.chars().all(|c| c == '-' || c.is_ascii_digit() || ('a'..='f').contains(&c)));
    let other = FakeScanner.scan("192.168.1.0/24").unwrap();
    assert_ne!(result.scan_id, other.scan_id);
}

#[test]
fn scan_with_given_id_and_times() {
    let result = FakeScanner.scan_with(
        "192.168.1.0/24",
        "id".to_string(),
        "2024-01-01T00:00:00+00:00".to_string(),
        "2024-01-01T00:00:01+00:00".to_string(),
    );
    assert_eq!(result.scan_id, "id");
    assert_eq!(result.started_at, "2024-01-01T00:00:00+00:00");
    assert_eq!(result.completed_at, "2024-01-01T00:00:01+00:00");
    assert_eq!(result.devices[1].ip_address, "192.168.1.42");
    assert_eq!(result.raw_evidence[1].summary, "Observed 192.168.1.42 with 1 open ports");
}

#[test]
fn timestamps_are_written_in_rfc3339() {
    assert_eq!(timestamp_text(0, 0).as_deref(), Some("1970-01-01T00:00:00+00:00"));
    assert_eq!(
        timestamp_text(1_431_648_000, 500_000_000).as_deref(),
        Some("2015-05-15T00:00:00.500+00:00")
    );
    assert_eq!(timestamp_text(u64::MAX, 0), None);
    assert_eq!(timestamp_text(0, 2_000_000_000), None);
}

#[test]
fn devices_screen() {
    assert_eq!(devices(&[]), "No scan results stored yet. Type `scan` first.");
    let text = devices(&[router()]);
    assert!(text.contains("Open Ports"));
    assert!(text.contains("a8:5e:45:10:00:01"));
    assert!(text.contains("53, 80, 443"));
    assert!(text.contains("70%"));
    assert!(text.lines().count() >= 5);
    let mut table = comfy_table::Table::new();
    table.set_header(vec!["ID", "Status", "IP", "Hostname", "MAC", "Vendor", "Open Ports", "Confidence", "Tags"]);
    table.add_row(vec!["1", "present", "192.168.1.1", "-", "a8:5e:45:10:00:01", "Example Networks", "53, 80, 443", "70%", "-"]);
    assert_eq!(text, table.to_string());
}

#[test]
fn device_detail_screen() {
    assert_eq!(device_detail(None), "No device found with that ID in the latest scan.");
    let text = device_detail(Some(&router()));
    assert!(text.contains("Identity confidence"));
    assert!(text.contains("0123456789ab"));
}

#[test]
fn settings_screen() {
    let current = Settings::defaults("/data/guardpetal.sqlite".to_string());
    let text = settings(&current);
    assert!(text.contains("NotConfigured"));
    assert!(text.contains("/data/guardpetal.sqlite"));
    assert!(text.contains("minimal_sensitive"));
}

#[test]
fn help_and_scope_screens() {
    let h = help();
    assert!(h.starts_with("Available commands:\n"));
    assert_eq!(h.lines().count(), 11);
    assert!(h.contains("  device <id>   Inspect one device from the latest scan"));
    let s = scope();
    assert!(s.starts_with("GuardPetal v1 visibility scope:"));
    assert_eq!(s.lines().count(), 7);
    assert!(s.ends_with("- Sensitive scan fields are encrypted before storage."));
}

#[test]
fn loaded_settings_take_the_installation_vault_path() {
    let s = Settings::loaded(
        ReverseDnsSetting::Enabled,
        "p".to_string(),
        "d".to_string(),
        "l".to_string(),
        "/db.sqlite".to_string(),
    );
    assert_eq!(s.reverse_dns, ReverseDnsSetting::Enabled);
    assert_eq!(s.scan_profile, "p");
    assert_eq!(s.subnet_detection, "d");
    assert_eq!(s.logging_mode, "l");
    assert_eq!(s.vault_path, "/db.sqlite");
}
