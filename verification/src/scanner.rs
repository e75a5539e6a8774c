//! The scanner: it detects the subnet and observes the devices on it. The
//! current scanner is a stand-in that reports a fixed set of devices.
use vstd::prelude::*;
use vstd::string::StringExecFns;
use crate::crypto::lemma_hex_text_len;
use crate::primitives::{
    clock_since_epoch, fill_random, rfc3339_of_timestamp, rfc3339_text, uuid_text,
    uuid_v4_bytes, uuid_v4_text,
};
use crate::text::{decimal, push_decimal};

verus! {

/// The scanner that reports a fixed home network.
pub struct FakeScanner;

impl Default for FakeScanner {
    fn default() -> (res: Self)
        ensures
            res == FakeScanner,
    {
        FakeScanner
    }
}

/// One device seen by a scan.
#[derive(Debug, Clone)]
pub struct ScannedDevice {
    pub ip_address: String,
    pub mac_address: Option<String>,
    pub hostname: Option<String>,
    pub vendor: Option<String>,
    pub open_ports: Vec<u16>,
    pub status: String,
}

/// The fields of a piece of raw evidence: what was seen of a device.
#[derive(Debug)]
pub struct EvidenceFields {
    pub ip_address: String,
    pub mac_address_present: bool,
    pub hostname_present: bool,
    pub open_ports: Vec<u16>,
}

/// A piece of normalized raw evidence from a scan.
#[derive(Debug)]
pub struct RawEvidenceRecord {
    pub source: String,
    pub summary: String,
    pub device_ip: Option<String>,
    pub fields: EvidenceFields,
}

/// The outcome of a scan. The times are in RFC 3339.
#[derive(Debug)]
pub struct ScanResult {
    pub scan_id: String,
    pub started_at: String,
    pub completed_at: String,
    pub subnet: String,
    pub profile: String,
    pub devices: Vec<ScannedDevice>,
    pub raw_evidence: Vec<RawEvidenceRecord>,
}

/// An optional text as a mathematical value.
pub open spec fn opt_text(o: Option<String>) -> Option<Seq<char>> {
    match o {
        Some(s) => Some(s@),
        None => None,
    }
}

/// A scanned device as a mathematical value.
pub struct DeviceView {
    pub ip_address: Seq<char>,
    pub mac_address: Option<Seq<char>>,
    pub hostname: Option<Seq<char>>,
    pub vendor: Option<Seq<char>>,
    pub open_ports: Seq<u16>,
    pub status: Seq<char>,
}

impl View for ScannedDevice {
    type V = DeviceView;

    open spec fn view(&self) -> DeviceView {
        DeviceView {
            ip_address: self.ip_address@,
            mac_address: opt_text(self.mac_address),
            hostname: opt_text(self.hostname),
            vendor: opt_text(self.vendor),
            open_ports: self.open_ports@,
            status: self.status@,
        }
    }
}

/// A piece of raw evidence as a mathematical value.
pub struct EvidenceView {
    pub source: Seq<char>,
    pub summary: Seq<char>,
    pub device_ip: Option<Seq<char>>,
    pub ip_address: Seq<char>,
    pub mac_address_present: bool,
    pub hostname_present: bool,
    pub open_ports: Seq<u16>,
}

impl View for RawEvidenceRecord {
    type V = EvidenceView;

    open spec fn view(&self) -> EvidenceView {
        EvidenceView {
            source: self.source@,
            summary: self.summary@,
            device_ip: opt_text(self.device_ip),
            ip_address: self.fields.ip_address@,
            mac_address_present: self.fields.mac_address_present,
            hostname_present: self.fields.hostname_present,
            open_ports: self.fields.open_ports@,
        }
    }
}

/// The pieces of raw evidence as mathematical values.
pub open spec fn evidence_view(records: Seq<RawEvidenceRecord>) -> Seq<EvidenceView> {
    records.map_values(|r: RawEvidenceRecord| r@)
}

/// The evidence that the stand-in scanner records for a device.
pub open spec fn evidence_of(d: DeviceView) -> EvidenceView {
    EvidenceView {
        source: "fake_scanner"@,
        summary: "Observed "@ + d.ip_address + " with "@ + decimal(d.open_ports.len())
            + " open ports"@,
        device_ip: Some(d.ip_address),
        ip_address: d.ip_address,
        mac_address_present: d.mac_address is Some,
        hostname_present: d.hostname is Some,
        open_ports: d.open_ports,
    }
}

/// The devices that the stand-in scanner reports: a router, a Raspberry Pi,
/// and a device of which only the address is known.
pub open spec fn fake_devices() -> Seq<DeviceView> {
    seq![
        DeviceView {
            ip_address: "192.168.1.1"@,
            mac_address: Some("a8:5e:45:10:00:01"@),
            hostname: Some("home-router.local"@),
            vendor: Some("Example Networks"@),
            open_ports: seq![53u16, 80u16, 443u16],
            status: "present"@,
        },
        DeviceView {
            ip_address: "192.168.1.42"@,
            mac_address: Some("b8:27:eb:22:44:66"@),
            hostname: Some("raspberrypi.local"@),
            vendor: Some("Raspberry Pi Foundation"@),
            open_ports: seq![22u16],
            status: "present"@,
        },
        DeviceView {
            ip_address: "192.168.1.87"@,
            mac_address: None,
            hostname: None,
            vendor: None,
            open_ports: seq![],
            status: "present"@,
        },
    ]
}

/// The scanned devices as mathematical values.
pub open spec fn devices_view(devices: Seq<ScannedDevice>) -> Seq<DeviceView> {
    devices.map_values(|d: ScannedDevice| d@)
}

/// A copy of a list of port numbers.
pub fn copy_ports(ports: &Vec<u16>) -> (res: Vec<u16>)
    ensures
        res@ == ports@,
{
    let mut r: Vec<u16> = Vec::new();
    let mut i: usize = 0;
    while i < ports.len()
        invariant
            i <= ports@.len(),
            r@ == ports@.take(i as int),
        decreases ports@.len() - i,
    {
        r.push(ports[i]);
        assert(r@ =~= ports@.take(i + 1));
        i = i + 1;
    }
    assert(ports@.take(ports@.len() as int) =~= ports@);
    r
}

/// The evidence that the stand-in scanner records for `device`.
pub fn evidence_for(device: &ScannedDevice) -> (res: RawEvidenceRecord)
    ensures
        res@ == evidence_of(device@),
{
    let mut summary = "Observed ".to_owned();
    summary.append(device.ip_address.as_str());
    summary.append(" with ");
    push_decimal(&mut summary, device.open_ports.len() as u64);
    summary.append(" open ports");
    RawEvidenceRecord {
        source: "fake_scanner".to_owned(),
        summary,
        device_ip: Some(device.ip_address.clone()),
        fields: EvidenceFields {
            ip_address: device.ip_address.clone(),
            mac_address_present: device.mac_address.is_some(),
            hostname_present: device.hostname.is_some(),
            open_ports: copy_ports(&device.open_ports),
        },
    }
}

/// Why a scan could not be made.
#[derive(Debug, Clone, Copy, PartialEq, Eq, Structural)]
pub enum ScanError {
    /// The system's random source supplied no bytes for the scan id.
    Randomness,
    /// The system clock reads a time before the Unix epoch, or one that the
    /// calendar cannot write.
    Clock,
}

/// Whether `s` is a version 4 UUID, in its hyphenated form, made from some
/// sixteen random bytes.
pub open spec fn is_uuid_v4_text(s: Seq<char>) -> bool {
    exists|b: Seq<u8>| b.len() == 16 && s == uuid_text(#[trigger] uuid_v4_bytes(b))
}

/// Whether `s` is the RFC 3339 text of a time since the Unix epoch, in whole
/// seconds and a nanosecond fraction.
pub open spec fn is_clock_text(s: Seq<char>) -> bool {
    exists|secs: int, nanos: int|
        0 <= secs <= i64::MAX && 0 <= nanos < 1_000_000_000 && #[trigger] rfc3339_text(secs, nanos)
            == Some(s)
}

/// Whether `r` is the stand-in scanner's result for `subnet`, under the given
/// scan id and times: the fixed devices, each with its evidence, in order.
pub open spec fn is_fake_scan(
    r: ScanResult,
    subnet: Seq<char>,
    scan_id: Seq<char>,
    started_at: Seq<char>,
    completed_at: Seq<char>,
) -> bool {
    &&& r.scan_id@ == scan_id
    &&& r.started_at@ == started_at
    &&& r.completed_at@ == completed_at
    &&& r.subnet@ == subnet
    &&& r.profile@ == "medium_manual_fake_v0"@
    &&& devices_view(r.devices@) == fake_devices()
    &&& r.raw_evidence@.len() == r.devices@.len()
    &&& forall|i: int|
        0 <= i < r.raw_evidence@.len() ==> #[trigger] r.raw_evidence@[i]@ == evidence_of(
            r.devices@[i]@,
        )
}

/// The RFC 3339 text of a time given as seconds and nanoseconds since the
/// Unix epoch; `None` where the seconds do not fit in `i64` or the calendar
/// cannot write the time.
pub fn timestamp_text(secs: u64, nanos: u32) -> (res: Option<String>)
    ensures
        secs <= i64::MAX ==> opt_text(res) == rfc3339_text(secs as int, nanos as int),
        secs > i64::MAX ==> res is None,
        secs <= 253_402_300_799 && nanos < 1_000_000_000 ==> res is Some,
{
    if secs > 0x7FFF_FFFF_FFFF_FFFF {
        None
    } else {
        rfc3339_of_timestamp(secs as i64, nanos)
    }
}

/// The current time in RFC 3339, or `None` where the clock reads a time
/// before the Unix epoch or one that the calendar cannot write.
fn now_rfc3339() -> (res: Option<String>)
    ensures
        res matches Some(s) ==> is_clock_text(s@),
{
    match clock_since_epoch() {
        None => None,
        Some((secs, nanos)) => {
            let text = timestamp_text(secs, nanos);
            proof {
                if text is Some {
                    assert(rfc3339_text(secs as int, nanos as int) == Some(text->0@));
                }
            }
            text
        },
    }
}

/// A fresh scan id: a version 4 UUID made from sixteen bytes of the
/// system's random source, or `None` where it supplied none.
fn new_scan_id() -> (res: Option<String>)
    ensures
        res matches Some(s) ==> is_uuid_v4_text(s@) && s@.len() == 36,
{
    let mut bytes = vec![0_u8; 16];
    if !fill_random(&mut bytes) {
        return None;
    }
    let id = uuid_v4_text(&bytes);
    proof {
        let u = uuid_v4_bytes(bytes@);
        lemma_hex_text_len(u.subrange(0, 4));
        lemma_hex_text_len(u.subrange(4, 6));
        lemma_hex_text_len(u.subrange(6, 8));
        lemma_hex_text_len(u.subrange(8, 10));
        lemma_hex_text_len(u.subrange(10, 16));
        assert(bytes@.len() == 16 && id@ == uuid_text(uuid_v4_bytes(bytes@)));
    }
    Some(id)
}

impl FakeScanner {
    /// The subnet to scan.
    pub fn detect_subnet(&self) -> (res: String)
        ensures
            res@ == "192.168.1.0/24"@,
    {
        "192.168.1.0/24".to_owned()
    }

    /// The scan of `subnet` under the given scan id and times: the fixed
    /// devices, each with its evidence.
    pub fn scan_with(&self, subnet: &str, scan_id: String, started_at: String, completed_at: String) -> (res: ScanResult)
        ensures
            is_fake_scan(res, subnet@, scan_id@, started_at@, completed_at@),
    {
        let mut devices: Vec<ScannedDevice> = Vec::new();
        let mut router_ports: Vec<u16> = Vec::new();
        router_ports.push(53);
        router_ports.push(80);
        router_ports.push(443);
        assert(router_ports@ =~= seq![53u16, 80u16, 443u16]);
        devices.push(
            ScannedDevice {
                ip_address: "192.168.1.1".to_owned(),
                mac_address: Some("a8:5e:45:10:00:01".to_owned()),
                hostname: Some("home-router.local".to_owned()),
                vendor: Some("Example Networks".to_owned()),
                open_ports: router_ports,
                status: "present".to_owned(),
            },
        );
        let mut pi_ports: Vec<u16> = Vec::new();
        pi_ports.push(22);
        assert(pi_ports@ =~= seq![22u16]);
        devices.push(
            ScannedDevice {
                ip_address: "192.168.1.42".to_owned(),
                mac_address: Some("b8:27:eb:22:44:66".to_owned()),
                hostname: Some("raspberrypi.local".to_owned()),
                vendor: Some("Raspberry Pi Foundation".to_owned()),
                open_ports: pi_ports,
                status: "present".to_owned(),
            },
        );
        devices.push(
            ScannedDevice {
                ip_address: "192.168.1.87".to_owned(),
                mac_address: None,
                hostname: None,
                vendor: None,
                open_ports: Vec::new(),
                status: "present".to_owned(),
            },
        );
        proof {
            assert(devices@[2].open_ports@ =~= Seq::<u16>::empty());
            assert(devices_view(devices@)[0] == fake_devices()[0]);
            assert(devices_view(devices@)[1] == fake_devices()[1]);
            assert(devices_view(devices@)[2] == fake_devices()[2]);
            assert(devices_view(devices@) =~= fake_devices());
        }
        let mut raw_evidence: Vec<RawEvidenceRecord> = Vec::new();
        let mut i: usize = 0;
        while i < devices.len()
            invariant
                i <= devices@.len(),
                raw_evidence@.len() == i,
                forall|k: int|
                    0 <= k < i ==> #[trigger] raw_evidence@[k]@ == evidence_of(devices@[k]@),
            decreases devices@.len() - i,
        {
            raw_evidence.push(evidence_for(&devices[i]));
            i = i + 1;
        }
        ScanResult {
            scan_id,
            started_at,
            completed_at,
            subnet: subnet.to_owned(),
            profile: "medium_manual_fake_v0".to_owned(),
            devices,
            raw_evidence,
        }
    }

    /// Runs a scan of `subnet`: the fixed devices, each with its evidence,
    /// under a fresh random scan id, timed by the clock. It fails only where
    /// the random source or the clock does.
    pub fn scan(&self, subnet: &str) -> (res: Result<ScanResult, ScanError>)
        ensures
            res matches Ok(r) ==> is_fake_scan(r, subnet@, r.scan_id@, r.started_at@, r.completed_at@),
            res matches Ok(r) ==> is_uuid_v4_text(r.scan_id@) && r.scan_id@.len() == 36,
            res matches Ok(r) ==> is_clock_text(r.started_at@) && is_clock_text(r.completed_at@),
    {
        let started_at = match now_rfc3339() {
            None => {
                return Err(ScanError::Clock);
            },
            Some(t) => t,
        };
        let scan_id = match new_scan_id() {
            None => {
                return Err(ScanError::Randomness);
            },
            Some(id) => id,
        };
        let completed_at = match now_rfc3339() {
            None => {
                return Err(ScanError::Clock);
            },
            Some(t) => t,
        };
        Ok(self.scan_with(subnet, scan_id, started_at, completed_at))
    }
}

} // verus!
