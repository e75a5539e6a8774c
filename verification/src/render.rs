//! The text of the tables and messages that the terminal shows.
use vstd::prelude::*;
use vstd::string::StringExecFns;
use crate::scanner::opt_text;
use crate::settings::{ReverseDnsSetting, Settings};
use crate::storage::{DeviceRow, DeviceRowView};
use crate::text::{decimal, push_decimal};

verus! {

/// Port numbers in decimal, separated by `, `.
pub open spec fn ports_joined(p: Seq<u16>) -> Seq<char>
    decreases p.len(),
{
    if p.len() == 0 {
        seq![]
    } else if p.len() == 1 {
        decimal(p[0] as nat)
    } else {
        ports_joined(p.drop_last()) + ", "@ + decimal(p.last() as nat)
    }
}

/// How a list of open ports is shown: `-` when there is none.
pub open spec fn ports_text(p: Seq<u16>) -> Seq<char> {
    if p.len() == 0 {
        "-"@
    } else {
        ports_joined(p)
    }
}

/// An optional text as shown: `-` when absent.
pub open spec fn or_dash(t: Option<Seq<char>>) -> Seq<char> {
    match t {
        Some(s) => s,
        None => "-"@,
    }
}

/// Tags as shown: `-` when there are none.
pub open spec fn tags_text(t: Seq<char>) -> Seq<char> {
    if t.len() == 0 {
        "-"@
    } else {
        t
    }
}

/// A percentage as shown, such as `70%`.
pub open spec fn percent_text(n: u8) -> Seq<char> {
    decimal(n as nat) + "%"@
}

/// The cells of a device's line in the devices table: ID, status, IP,
/// hostname, MAC, vendor, open ports, confidence, tags.
pub open spec fn device_cells(d: DeviceRowView) -> Seq<Seq<char>> {
    seq![
        decimal(d.display_id as nat),
        d.status,
        d.ip_address,
        or_dash(d.hostname),
        or_dash(d.mac_address),
        or_dash(d.vendor),
        ports_text(d.open_ports),
        percent_text(d.identity_confidence),
        tags_text(d.tags),
    ]
}

/// The lines of a device's detail table: each a field and its value.
pub open spec fn device_detail_lines(d: DeviceRowView) -> Seq<(Seq<char>, Seq<char>)> {
    seq![
        ("Session ID"@, decimal(d.display_id as nat)),
        ("Stable ID"@, d.stable_id),
        ("Status"@, d.status),
        ("IP address"@, d.ip_address),
        ("MAC address"@, or_dash(d.mac_address)),
        ("Hostname"@, or_dash(d.hostname)),
        ("Vendor"@, or_dash(d.vendor)),
        ("Open ports"@, ports_text(d.open_ports)),
        ("Identity confidence"@, percent_text(d.identity_confidence)),
        ("Tags"@, tags_text(d.tags)),
    ]
}

/// The name under which a reverse DNS setting is shown.
pub open spec fn reverse_dns_name(r: ReverseDnsSetting) -> Seq<char> {
    match r {
        ReverseDnsSetting::NotConfigured => "NotConfigured"@,
        ReverseDnsSetting::Enabled => "Enabled"@,
        ReverseDnsSetting::Disabled => "Disabled"@,
    }
}

/// Texts as mathematical values.
pub open spec fn texts_view(v: Seq<String>) -> Seq<Seq<char>> {
    v.map_values(|s: String| s@)
}

/// Rows of texts as mathematical values.
pub open spec fn rows_view(v: Seq<Vec<String>>) -> Seq<Seq<Seq<char>>> {
    v.map_values(|r: Vec<String>| texts_view(r@))
}

/// The two-column rows of a list of labelled values.
pub open spec fn pair_rows(p: Seq<(Seq<char>, Seq<char>)>) -> Seq<Seq<Seq<char>>> {
    p.map_values(|l: (Seq<char>, Seq<char>)| seq![l.0, l.1])
}

/// The text of a table drawn by `comfy-table` in its default style, with
/// columns as wide as their content, from its header and its rows of cell
/// texts.
pub uninterp spec fn table_text(header: Seq<Seq<char>>, rows: Seq<Seq<Seq<char>>>) -> Seq<char>;

/// Pairs of texts as mathematical values.
pub open spec fn pairs_view(v: Seq<(String, String)>) -> Seq<(Seq<char>, Seq<char>)> {
    v.map_values(|p: (String, String)| (p.0@, p.1@))
}

/// The port list as shown in the tables.
pub fn format_ports(ports: &[u16]) -> (res: String)
    ensures
        res@ == ports_text(ports@),
{
    if ports.len() == 0 {
        return "-".to_owned();
    }
    let mut s = String::new();
    let mut i: usize = 0;
    while i < ports.len()
        invariant
            i <= ports@.len(),
            s@ == ports_joined(ports@.take(i as int)),
        decreases ports@.len() - i,
    {
        let ghost before = s@;
        if i > 0 {
            s.append(", ");
        }
        push_decimal(&mut s, ports[i] as u64);
        proof {
            let t = ports@.take(i + 1);
            assert(t.drop_last() =~= ports@.take(i as int));
            assert(t.last() == ports@[i as int]);
            if i == 0 {
                assert(s@ =~= decimal(ports@[0] as nat));
            } else {
                assert(s@ =~= ports_joined(t.drop_last()) + ", "@ + decimal(t.last() as nat));
            }
        }
        i = i + 1;
    }
    assert(ports@.take(ports@.len() as int) =~= ports@);
    s
}

fn or_dash_text(t: &Option<String>) -> (res: String)
    ensures
        res@ == or_dash(opt_text(*t)),
{
    match t {
        Some(s) => s.clone(),
        None => "-".to_owned(),
    }
}

fn tags_cell(t: &String) -> (res: String)
    ensures
        res@ == tags_text(t@),
{
    if t.as_str().is_empty() {
        "-".to_owned()
    } else {
        t.clone()
    }
}

fn percent_cell(n: u8) -> (res: String)
    ensures
        res@ == percent_text(n),
{
    let mut s = String::new();
    push_decimal(&mut s, n as u64);
    s.append("%");
    assert(s@ =~= percent_text(n));
    s
}

fn decimal_cell(n: usize) -> (res: String)
    ensures
        res@ == decimal(n as nat),
{
    let mut s = String::new();
    push_decimal(&mut s, n as u64);
    assert(s@ =~= decimal(n as nat));
    s
}

/// The cells of a device's line in the devices table.
pub fn device_cells_of(device: &DeviceRow) -> (res: Vec<String>)
    ensures
        texts_view(res@) == device_cells(device@),
{
    let mut cells: Vec<String> = Vec::new();
    cells.push(decimal_cell(device.display_id));
    cells.push(device.status.clone());
    cells.push(device.ip_address.clone());
    cells.push(or_dash_text(&device.hostname));
    cells.push(or_dash_text(&device.mac_address));
    cells.push(or_dash_text(&device.vendor));
    cells.push(format_ports(device.open_ports.as_slice()));
    cells.push(percent_cell(device.identity_confidence));
    cells.push(tags_cell(&device.tags));
    assert(texts_view(cells@) =~= device_cells(device@));
    cells
}

/// The lines of the devices table, one per device, in order.
pub fn device_table_rows(devices: &[DeviceRow]) -> (res: Vec<Vec<String>>)
    ensures
        res@.len() == devices@.len(),
        forall|i: int|
            0 <= i < res@.len() ==> texts_view(#[trigger] res@[i]@) == device_cells(devices@[i]@),
{
    let mut rows: Vec<Vec<String>> = Vec::new();
    let mut i: usize = 0;
    while i < devices.len()
        invariant
            i <= devices@.len(),
            rows@.len() == i,
            forall|k: int|
                0 <= k < i ==> texts_view(#[trigger] rows@[k]@) == device_cells(devices@[k]@),
        decreases devices@.len() - i,
    {
        rows.push(device_cells_of(&devices[i]));
        i = i + 1;
    }
    rows
}

fn pair(label: &str, value: String) -> (res: (String, String))
    ensures
        res.0@ == label@,
        res.1@ == value@,
{
    (label.to_owned(), value)
}

/// The lines of a device's detail table.
pub fn device_detail_rows(device: &DeviceRow) -> (res: Vec<(String, String)>)
    ensures
        pairs_view(res@) == device_detail_lines(device@),
{
    let mut lines: Vec<(String, String)> = Vec::new();
    lines.push(pair("Session ID", decimal_cell(device.display_id)));
    lines.push(pair("Stable ID", device.stable_id.clone()));
    lines.push(pair("Status", device.status.clone()));
    lines.push(pair("IP address", device.ip_address.clone()));
    lines.push(pair("MAC address", or_dash_text(&device.mac_address)));
    lines.push(pair("Hostname", or_dash_text(&device.hostname)));
    lines.push(pair("Vendor", or_dash_text(&device.vendor)));
    lines.push(pair("Open ports", format_ports(device.open_ports.as_slice())));
    lines.push(pair("Identity confidence", percent_cell(device.identity_confidence)));
    lines.push(pair("Tags", tags_cell(&device.tags)));
    assert(pairs_view(lines@) =~= device_detail_lines(device@));
    lines
}

/// The lines of the settings table.
pub fn settings_rows(settings: &Settings) -> (res: Vec<(String, String)>)
    ensures
        pairs_view(res@) == settings_lines(*settings),
{
    let reverse_dns = match settings.reverse_dns {
        ReverseDnsSetting::NotConfigured => "NotConfigured".to_owned(),
        ReverseDnsSetting::Enabled => "Enabled".to_owned(),
        ReverseDnsSetting::Disabled => "Disabled".to_owned(),
    };
    let mut lines: Vec<(String, String)> = Vec::new();
    lines.push(pair("Reverse DNS", reverse_dns));
    lines.push(pair("Scan profile", settings.scan_profile.clone()));
    lines.push(pair("Subnet detection", settings.subnet_detection.clone()));
    lines.push(pair("Vault path", settings.vault_path.clone()));
    lines.push(pair("Logging mode", settings.logging_mode.clone()));
    assert(pairs_view(lines@) =~= settings_lines(*settings));
    lines
}

/// What the `raw` command shows: the evidence, or a hint to scan first.
pub fn raw_evidence(evidence: Option<&str>) -> (res: String)
    ensures
        res@ == match evidence {
            Some(e) => e@,
            None => "No raw evidence stored yet. Type `scan` first."@,
        },
{
    match evidence {
        Some(e) => e.to_owned(),
        None => "No raw evidence stored yet. Type `scan` first.".to_owned(),
    }
}

/// Draws a table with `comfy-table` (`Table::new`, `set_header`,
/// `add_rows`, then its `Display`): its text is a function of the header and
/// the cell texts alone. The terminal is consulted only for the width and
/// the styling, which a table with content-wide columns and no cell styles
/// does not use.
#[verifier::external_body]
fn render_table(header: &Vec<String>, rows: &Vec<Vec<String>>) -> (res: String)
    ensures
        res@ == table_text(texts_view(header@), rows_view(rows@)),
{
    let mut table = comfy_table::Table::new();
    table.set_header(header.clone());
    table.add_rows(rows.clone());
    table.to_string()
}

fn texts(items: &[&str]) -> (res: Vec<String>)
    ensures
        texts_view(res@) == items@.map_values(|s: &str| s@),
{
    let mut v: Vec<String> = Vec::new();
    let mut i: usize = 0;
    while i < items.len()
        invariant
            i <= items@.len(),
            v@.len() == i,
            texts_view(v@) == items@.take(i as int).map_values(|s: &str| s@),
        decreases items@.len() - i,
    {
        let ghost old_v = v@;
        let t = items[i].to_owned();
        v.push(t);
        assert forall|k: int| 0 <= k < i + 1 implies #[trigger] texts_view(v@)[k] == items@.take(
            i + 1,
        ).map_values(|s: &str| s@)[k] by {
            if k < i {
                assert(v@[k] == old_v[k]);
                assert(texts_view(old_v)[k] == items@.take(i as int).map_values(|s: &str| s@)[k]);
            }
        }
        assert(texts_view(v@) =~= items@.take(i + 1).map_values(|s: &str| s@));
        i = i + 1;
    }
    assert(items@.take(items@.len() as int) =~= items@);
    v
}

fn two_column_rows(lines: Vec<(String, String)>) -> (res: Vec<Vec<String>>)
    ensures
        rows_view(res@) == pair_rows(pairs_view(lines@)),
{
    let mut rows: Vec<Vec<String>> = Vec::new();
    let mut rest = lines;
    let ghost all = pairs_view(rest@);
    let ghost mut i: int = 0;
    assert(all.skip(0) =~= all);
    while rest.len() > 0
        invariant
            0 <= i <= all.len(),
            rest@.len() == all.len() - i,
            rows@.len() == i,
            pairs_view(rest@) == all.skip(i),
            rows_view(rows@) == pair_rows(all.take(i)),
        decreases rest@.len(),
    {
        let ghost before = rest@;
        let (label, value) = rest.remove(0);
        let mut row: Vec<String> = Vec::new();
        row.push(label);
        row.push(value);
        let ghost old_rows = rows@;
        rows.push(row);
        proof {
            assert(pairs_view(before)[0] == all[i]);
            assert(rest@ =~= before.subrange(1, before.len() as int));
            assert forall|k: int| 0 <= k < rest@.len() implies #[trigger] pairs_view(rest@)[k]
                == all.skip(i + 1)[k] by {
                assert(pairs_view(before)[k + 1] == all.skip(i)[k + 1]);
            }
            assert(pairs_view(rest@) =~= all.skip(i + 1));
            assert(texts_view(row@) =~= seq![all[i].0, all[i].1]);
            assert forall|k: int| 0 <= k < i + 1 implies #[trigger] rows_view(rows@)[k]
                == pair_rows(all.take(i + 1))[k] by {
                if k < i {
                    assert(rows@[k] == old_rows[k]);
                    assert(rows_view(old_rows)[k] == pair_rows(all.take(i))[k]);
                }
            }
            assert(rows_view(rows@) =~= pair_rows(all.take(i + 1)));
            i = i + 1;
        }
    }
    assert(all.take(i) =~= all);
    rows
}

/// The header of the devices table.
pub open spec fn devices_header() -> Seq<Seq<char>> {
    seq![
        "ID"@,
        "Status"@,
        "IP"@,
        "Hostname"@,
        "MAC"@,
        "Vendor"@,
        "Open Ports"@,
        "Confidence"@,
        "Tags"@,
    ]
}

/// What the `devices` command shows: a hint to scan first when there are no
/// results, else the table of the devices, one line each, in order.
pub fn devices(rows_in: &[DeviceRow]) -> (res: String)
    ensures
        rows_in@.len() == 0 ==> res@ == "No scan results stored yet. Type `scan` first."@,
        rows_in@.len() > 0 ==> res@ == table_text(
            devices_header(),
            rows_in@.map_values(|d: DeviceRow| device_cells(d@)),
        ),
{
    if rows_in.len() == 0 {
        return "No scan results stored yet. Type `scan` first.".to_owned();
    }
    let header = texts(
        &["ID", "Status", "IP", "Hostname", "MAC", "Vendor", "Open Ports", "Confidence", "Tags"],
    );
    let rows = device_table_rows(rows_in);
    proof {
        reveal_strlit("ID");
        assert(texts_view(header@) =~= devices_header());
        assert(rows_view(rows@) =~= rows_in@.map_values(|d: DeviceRow| device_cells(d@)));
    }
    render_table(&header, &rows)
}

/// What the `device <id>` command shows: the device's detail table, or a
/// note that the latest scan has no such device.
pub fn device_detail(device: Option<&DeviceRow>) -> (res: String)
    ensures
        match device {
            None => res@ == "No device found with that ID in the latest scan."@,
            Some(d) => res@ == table_text(
                seq!["Field"@, "Value"@],
                pair_rows(device_detail_lines(d@)),
            ),
        },
{
    match device {
        None => "No device found with that ID in the latest scan.".to_owned(),
        Some(d) => {
            let header = texts(&["Field", "Value"]);
            let rows = two_column_rows(device_detail_rows(d));
            assert(texts_view(header@) =~= seq!["Field"@, "Value"@]);
            render_table(&header, &rows)
        },
    }
}

/// The lines of the settings table: each setting and its value.
pub open spec fn settings_lines(s: Settings) -> Seq<(Seq<char>, Seq<char>)> {
    seq![
        ("Reverse DNS"@, reverse_dns_name(s.reverse_dns)),
        ("Scan profile"@, s.scan_profile@),
        ("Subnet detection"@, s.subnet_detection@),
        ("Vault path"@, s.vault_path@),
        ("Logging mode"@, s.logging_mode@),
    ]
}

/// The header of the settings table.
pub open spec fn settings_header() -> Seq<Seq<char>> {
    seq!["Setting"@, "Value"@]
}

/// What the `settings` command shows: the table of the settings.
pub fn settings(current: &Settings) -> (res: String)
    ensures
        res@ == table_text(settings_header(), pair_rows(settings_lines(*current))),
{
    let lines = settings_rows(current);
    let header = texts(&["Setting", "Value"]);
    let rows = two_column_rows(lines);
    assert(texts_view(header@) =~= settings_header());
    render_table(&header, &rows)
}

/// What the `help` command shows.
pub fn help() -> (res: String)
    ensures
        res@ == "Available commands:\n  help          Show this command list\n  settings      Show current local settings\n  scope         Show visibility and data-handling scope\n  scan          Run the configured manual scan\n  run scan      Alias for scan\n  devices       Show latest scan results\n  raw           Show normalized raw evidence from latest scan\n  device <id>   Inspect one device from the latest scan\n  wipe          Delete stored scan data; settings remain\n  exit          Lock and exit"@,
{
    "Available commands:\n  help          Show this command list\n  settings      Show current local settings\n  scope         Show visibility and data-handling scope\n  scan          Run the configured manual scan\n  run scan      Alias for scan\n  devices       Show latest scan results\n  raw           Show normalized raw evidence from latest scan\n  device <id>   Inspect one device from the latest scan\n  wipe          Delete stored scan data; settings remain\n  exit          Lock and exit".to_owned()
}

/// What the `scope` command shows: what GuardPetal can and cannot see, and
/// how it handles the data.
pub fn scope() -> (res: String)
    ensures
        res@ == "GuardPetal v1 visibility scope:\n- Runs locally on this machine.\n- Assumes this machine is on the same flat LAN being scanned.\n- Can discover local device presence and visible metadata.\n- Cannot claim whole-network packet or DNS visibility from a normal laptop on a switched network.\n- Reverse DNS can contact outside infrastructure and requires explicit consent before use.\n- Sensitive scan fields are encrypted before storage."@,
{
    "GuardPetal v1 visibility scope:\n- Runs locally on this machine.\n- Assumes this machine is on the same flat LAN being scanned.\n- Can discover local device presence and visible metadata.\n- Cannot claim whole-network packet or DNS visibility from a normal laptop on a switched network.\n- Reverse DNS can contact outside infrastructure and requires explicit consent before use.\n- Sensitive scan fields are encrypted before storage.".to_owned()
}


/// The settings table has one line per setting, in order: reverse DNS
/// shown by the name of its state (`Enabled`, `Disabled` or
/// `NotConfigured`), then the scan profile, the subnet detection, the vault
/// path and the logging mode, each shown as it is.
pub proof fn lemma_settings_lines_show_each_setting(s: Settings)
    ensures
        settings_lines(s).len() == 5,
        settings_lines(s)[0].0 == "Reverse DNS"@,
        s.reverse_dns == ReverseDnsSetting::Enabled ==> settings_lines(s)[0].1 == "Enabled"@,
        s.reverse_dns == ReverseDnsSetting::Disabled ==> settings_lines(s)[0].1 == "Disabled"@,
        s.reverse_dns == ReverseDnsSetting::NotConfigured ==> settings_lines(s)[0].1
            == "NotConfigured"@,
        settings_lines(s)[1] == ("Scan profile"@, s.scan_profile@),
        settings_lines(s)[2] == ("Subnet detection"@, s.subnet_detection@),
        settings_lines(s)[3] == ("Vault path"@, s.vault_path@),
        settings_lines(s)[4] == ("Logging mode"@, s.logging_mode@),
{
}

/// The detail table of a device shows each of its fields on the line that
/// names it: an absent MAC address, hostname or vendor as `-`, and only
/// then; no tags as `-`; the confidence as its numeral and `%`.
pub proof fn lemma_device_detail_shows_each_field(d: DeviceRowView)
    ensures
        device_detail_lines(d).len() == 10,
        device_detail_lines(d)[0] == ("Session ID"@, decimal(d.display_id as nat)),
        device_detail_lines(d)[1] == ("Stable ID"@, d.stable_id),
        device_detail_lines(d)[2] == ("Status"@, d.status),
        device_detail_lines(d)[3] == ("IP address"@, d.ip_address),
        device_detail_lines(d)[4].0 == "MAC address"@,
        d.mac_address matches Some(m) ==> device_detail_lines(d)[4].1 == m,
        d.mac_address is None ==> device_detail_lines(d)[4].1 == "-"@,
        device_detail_lines(d)[5].0 == "Hostname"@,
        d.hostname matches Some(h) ==> device_detail_lines(d)[5].1 == h,
        d.hostname is None ==> device_detail_lines(d)[5].1 == "-"@,
        device_detail_lines(d)[6].0 == "Vendor"@,
        d.vendor matches Some(v) ==> device_detail_lines(d)[6].1 == v,
        d.vendor is None ==> device_detail_lines(d)[6].1 == "-"@,
        device_detail_lines(d)[7] == ("Open ports"@, ports_text(d.open_ports)),
        device_detail_lines(d)[8] == ("Identity confidence"@, decimal(d.identity_confidence as nat)
            + "%"@),
        device_detail_lines(d)[9].0 == "Tags"@,
        d.tags.len() > 0 ==> device_detail_lines(d)[9].1 == d.tags,
        d.tags.len() == 0 ==> device_detail_lines(d)[9].1 == "-"@,
{
}

/// A device's line in the devices table holds, in the order of the header
/// (ID, status, IP, hostname, MAC, vendor, open ports, confidence, tags),
/// each of its fields: an absent hostname, MAC address or vendor as `-`, and
/// only then.
pub proof fn lemma_device_cells_show_each_field(d: DeviceRowView)
    ensures
        device_cells(d).len() == 9,
        device_cells(d)[0] == decimal(d.display_id as nat),
        device_cells(d)[1] == d.status,
        device_cells(d)[2] == d.ip_address,
        d.hostname matches Some(h) ==> device_cells(d)[3] == h,
        d.hostname is None ==> device_cells(d)[3] == "-"@,
        d.mac_address matches Some(m) ==> device_cells(d)[4] == m,
        d.mac_address is None ==> device_cells(d)[4] == "-"@,
        d.vendor matches Some(v) ==> device_cells(d)[5] == v,
        d.vendor is None ==> device_cells(d)[5] == "-"@,
        device_cells(d)[6] == ports_text(d.open_ports),
        device_cells(d)[7] == decimal(d.identity_confidence as nat) + "%"@,
        d.tags.len() > 0 ==> device_cells(d)[8] == d.tags,
        d.tags.len() == 0 ==> device_cells(d)[8] == "-"@,
{
}

/// How open ports are shown: `-` for none, the numeral of a single port,
/// and for two nonempty lists one after the other, the text of the first,
/// `, `, then the text of the second; so every port is listed, in order.
pub proof fn lemma_ports_text_lists_every_port(a: Seq<u16>, b: Seq<u16>, x: u16)
    ensures
        ports_text(Seq::empty()) == "-"@,
        ports_text(seq![x]) == decimal(x as nat),
        a.len() > 0 && b.len() > 0 ==> ports_text(a + b) == ports_text(a) + ", "@ + ports_text(b),
    decreases b.len(),
{
    if a.len() > 0 && b.len() > 0 {
        let ab = a + b;
        if b.len() == 1 {
            assert(ab.drop_last() =~= a);
            assert(ab.last() == b[0]);
        } else {
            lemma_ports_text_lists_every_port(a, b.drop_last(), x);
            assert(ab.drop_last() =~= a + b.drop_last());
            assert(ab.last() == b.last());
            assert(ports_joined(ab) =~= ports_joined(a) + ", "@ + ports_joined(b));
        }
    }
}

} // verus!
