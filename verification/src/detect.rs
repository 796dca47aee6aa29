//! Device discovery: matching a USB bus scan against the table of known
//! devices, stable device identities, and USB port paths.
//!
//! The bus scan itself (libusb/hidapi) is done by the caller, which hands
//! over one `ScannedUsbDevice` per device found.

use vstd::prelude::*;
use crate::text::{
    chars_eq, chars_to_string, dec, hex4, push_all, push_dec, push_hex4, push_str, starts_with,
    str_chars,
};

verus! {

/// A USB vendor/product id pair.
#[derive(Debug, Clone, Copy, PartialEq, Eq, Structural)]
pub struct UsbId {
    pub vid: u16,
    pub pid: u16,
}

/// The device families that the library tells apart by name: the LCD
/// families driven over HID, and every other family of the table.
#[derive(Debug, Clone, Copy, PartialEq, Eq, Structural)]
pub enum FamilyKind {
    HydroShiftLcd,
    Galahad2Lcd,
    TlLcd,
    /// Any other family of the table (fans, RGB controllers, other panels).
    Other,
}

/// A device family of the table of known devices: its identifier, whether
/// the family is driven over HID, and which named family it is.
#[derive(Debug, Clone, Copy, PartialEq, Eq, Structural)]
pub struct DeviceFamily {
    pub code: u16,
    pub hid: bool,
    pub kind: FamilyKind,
}

/// Whether devices of this family are driven over HID.
pub fn uses_hid(family: DeviceFamily) -> (r: bool)
    ensures
        r == family.hid,
{
    family.hid
}

/// One row of the table of known devices.
#[derive(Debug, Clone, Copy)]
pub struct DeviceEntry {
    pub id: UsbId,
    pub family: DeviceFamily,
    pub name: &'static str,
    /// HID usage page filter: when set, only the HID interface with this
    /// usage page belongs to the device.
    pub hid_usage_page: Option<u16>,
}

/// What a bus scan reports about one USB device.
#[derive(Debug)]
pub struct ScannedUsbDevice {
    /// Vendor/product id, `None` when the device descriptor could not be read.
    pub descriptor: Option<UsbId>,
    pub bus: u8,
    pub address: u8,
    /// Port numbers from the root hub, `None` when they could not be read.
    pub port_numbers: Option<Vec<u8>>,
    /// ASCII serial number string, when it could be read.
    pub serial: Option<String>,
}

/// A detected USB device with its identified family.
#[derive(Debug)]
pub struct DetectedDevice {
    pub family: DeviceFamily,
    pub name: &'static str,
    pub vid: u16,
    pub pid: u16,
    pub bus: u8,
    pub address: u8,
    pub serial: Option<String>,
    /// HID usage page filter from the device entry. When set, only the HID
    /// interface with this usage page should be opened.
    pub hid_usage_page: Option<u16>,
    /// Port numbers from the root hub, `None` when they could not be read.
    pub port_numbers: Option<Vec<u8>>,
}

/// Index of the first table entry at or after `from` with id `id`.
pub open spec fn first_entry_from(known: Seq<DeviceEntry>, id: UsbId, from: int) -> Option<int>
    decreases known.len() - from,
{
    if from < 0 || from >= known.len() {
        None
    } else if known[from].id == id {
        Some(from)
    } else {
        first_entry_from(known, id, from + 1)
    }
}

/// Index of the first table entry with id `id`.
pub open spec fn first_entry(known: Seq<DeviceEntry>, id: UsbId) -> Option<int> {
    first_entry_from(known, id, 0)
}

/// Finds the first table entry with the given id.
pub fn find_entry(known: &[DeviceEntry], id: UsbId) -> (r: Option<usize>)
    ensures
        match r {
            Some(i) => i < known@.len() && known@[i as int].id == id && first_entry(known@, id)
                == Some(i as int),
            None => first_entry(known@, id) is None,
        },
{
    let mut i: usize = 0;
    while i < known.len()
        invariant
            i <= known@.len(),
            first_entry(known@, id) == first_entry_from(known@, id, i as int),
        decreases known@.len() - i,
    {
        if known[i].id == id {
            return Some(i);
        }
        i = i + 1;
    }
    None
}

/// The detected device for one scanned device, if it is a known device.
pub open spec fn detect_spec(d: ScannedUsbDevice, known: Seq<DeviceEntry>) -> Option<DetectedDevice> {
    match d.descriptor {
        None => None,
        Some(id) => match first_entry(known, id) {
            None => None,
            Some(i) => Some(
                DetectedDevice {
                    family: known[i].family,
                    name: known[i].name,
                    vid: id.vid,
                    pid: id.pid,
                    bus: d.bus,
                    address: d.address,
                    serial: d.serial,
                    hid_usage_page: known[i].hid_usage_page,
                    port_numbers: d.port_numbers,
                },
            ),
        },
    }
}

/// The known devices of a scan, in scan order.
pub open spec fn detect_all(scan: Seq<ScannedUsbDevice>, known: Seq<DeviceEntry>) -> Seq<DetectedDevice>
    decreases scan.len(),
{
    if scan.len() == 0 {
        seq![]
    } else {
        match detect_spec(scan.last(), known) {
            Some(x) => detect_all(scan.drop_last(), known).push(x),
            None => detect_all(scan.drop_last(), known),
        }
    }
}

/// Whether `a` comes strictly after `b` in (bus, address) order.
pub open spec fn location_after(a: DetectedDevice, b: DetectedDevice) -> bool {
    a.bus > b.bus || (a.bus == b.bus && a.address > b.address)
}

/// Position at which `x` is inserted into `s` so that it follows every
/// element that is not after it: the first index at or after `j` whose
/// element comes after `x`.
pub open spec fn insertion_point_from(s: Seq<DetectedDevice>, x: DetectedDevice, j: int) -> int
    decreases s.len() - j,
{
    if j < 0 || j >= s.len() {
        s.len() as int
    } else if location_after(s[j], x) {
        j
    } else {
        insertion_point_from(s, x, j + 1)
    }
}

/// Stable sort by (bus, address): each device is inserted after every
/// earlier device that does not come after it.
pub open spec fn sort_by_location(s: Seq<DetectedDevice>) -> Seq<DetectedDevice>
    decreases s.len(),
{
    if s.len() == 0 {
        seq![]
    } else {
        let sorted = sort_by_location(s.drop_last());
        sorted.insert(insertion_point_from(sorted, s.last(), 0), s.last())
    }
}

/// Whether devices are in (bus, address) order.
pub open spec fn sorted_by_location(s: Seq<DetectedDevice>) -> bool {
    forall|i: int, j: int| 0 <= i < j < s.len() ==> !location_after(#[trigger] s[i], #[trigger] s[j])
}

proof fn lemma_insertion_point(s: Seq<DetectedDevice>, x: DetectedDevice, j: int)
    requires
        0 <= j <= s.len(),
        sorted_by_location(s),
        forall|i: int| 0 <= i < j ==> !location_after(#[trigger] s[i], x),
    ensures
        j <= insertion_point_from(s, x, j) <= s.len(),
        forall|i: int| 0 <= i < insertion_point_from(s, x, j) ==> !location_after(#[trigger] s[i], x),
        forall|i: int| insertion_point_from(s, x, j) <= i < s.len() ==> location_after(#[trigger] s[i], x),
    decreases s.len() - j,
{
    if j < s.len() {
        if location_after(s[j], x) {
            assert forall|i: int| j <= i < s.len() implies location_after(#[trigger] s[i], x) by {
                if i > j {
                    assert(!location_after(s[j], s[i]));
                }
            }
        } else {
            lemma_insertion_point(s, x, j + 1);
        }
    }
}

proof fn lemma_sort_by_location(s: Seq<DetectedDevice>)
    ensures
        sorted_by_location(sort_by_location(s)),
        sort_by_location(s).to_multiset() =~= s.to_multiset(),
    decreases s.len(),
{
    if s.len() > 0 {
        let t = sort_by_location(s.drop_last());
        lemma_sort_by_location(s.drop_last());
        let x = s.last();
        lemma_insertion_point(t, x, 0);
        let p = insertion_point_from(t, x, 0);
        let u = t.insert(p, x);
        assert forall|i: int, j: int| 0 <= i < j < u.len() implies !location_after(#[trigger] u[i], #[trigger] u[j]) by {
            if j < p {
                assert(!location_after(t[i], t[j]));
            } else if j == p {
                assert(!location_after(t[i], x));
            } else if i < p {
                assert(!location_after(t[i], x));
                assert(location_after(t[j - 1], x));
            } else if i == p {
                assert(location_after(t[j - 1], x));
            } else {
                assert(!location_after(t[i - 1], t[j - 1]));
            }
        }
        crate::seq_facts::lemma_insert_to_multiset(t, p, x);
        crate::seq_facts::lemma_push_to_multiset(s.drop_last(), x);
        assert(s.drop_last().push(x) =~= s);
    } else {
        assert(sort_by_location(s) =~= s);
    }
}

/// The devices that enumeration reports are in (bus, address) order and
/// are exactly the known devices of the scan, none lost or repeated.
pub proof fn law_enumerate_sorted(scan: Seq<ScannedUsbDevice>, known: Seq<DeviceEntry>)
    ensures
        sorted_by_location(sort_by_location(detect_all(scan, known))),
        sort_by_location(detect_all(scan, known)).to_multiset() =~= detect_all(scan, known).to_multiset(),
{
    lemma_sort_by_location(detect_all(scan, known));
}

fn is_after(a: &DetectedDevice, b: &DetectedDevice) -> (r: bool)
    ensures
        r == location_after(*a, *b),
{
    a.bus > b.bus || (a.bus == b.bus && a.address > b.address)
}

fn insert_by_location(out: &mut Vec<DetectedDevice>, x: DetectedDevice)
    ensures
        final(out)@ == old(out)@.insert(insertion_point_from(old(out)@, x, 0), x),
{
    let mut j: usize = 0;
    while j < out.len() && !is_after(&out[j], &x)
        invariant
            j <= out@.len(),
            out@ == old(out)@,
            insertion_point_from(out@, x, 0) == insertion_point_from(out@, x, j as int),
        decreases out@.len() - j,
    {
        j = j + 1;
    }
    out.insert(j, x);
}

/// The known devices of the scan (matched by vendor/product id against the
/// first entry of `known` with that id), sorted by (bus, address).
pub fn enumerate_devices(scan: Vec<ScannedUsbDevice>, known: &[DeviceEntry]) -> (found: Vec<DetectedDevice>)
    ensures
        found@ == sort_by_location(detect_all(scan@, known@)),
{
    let ghost orig = scan@;
    let mut scan = scan;
    let mut found: Vec<DetectedDevice> = Vec::new();
    let mut i: usize = 0;
    let n = scan.len();
    assert(orig.take(0) =~= Seq::<ScannedUsbDevice>::empty());
    while i < n
        invariant
            n == orig.len(),
            i <= n,
            scan@ == orig.skip(i as int),
            found@ == sort_by_location(detect_all(orig.take(i as int), known@)),
        decreases n - i,
    {
        let d = scan.remove(0);
        assert(d == orig[i as int]);
        assert(orig.take(i + 1).drop_last() =~= orig.take(i as int));
        assert(scan@ =~= orig.skip(i + 1));
        if let Some(id) = d.descriptor {
            if let Some(k) = find_entry(known, id) {
                let entry = known[k];
                let x = DetectedDevice {
                    family: entry.family,
                    name: entry.name,
                    vid: id.vid,
                    pid: id.pid,
                    bus: d.bus,
                    address: d.address,
                    serial: d.serial,
                    hid_usage_page: entry.hid_usage_page,
                    port_numbers: d.port_numbers,
                };
                let ghost before = detect_all(orig.take(i as int), known@);
                assert(detect_all(orig.take(i + 1), known@) == before.push(x));
                assert(before.push(x).drop_last() =~= before);
                insert_by_location(&mut found, x);
            }
        }
        i = i + 1;
    }
    assert(orig.take(n as int) =~= orig);
    found
}

/// Known serial strings that are not per-device serials (chip vendor
/// names, firmware markers).
pub open spec fn non_unique_serial(s: Seq<char>) -> bool {
    s == "Nuvoton"@ || "TL_LCDV"@.is_prefix_of(s)
}

/// Whether `s` is a known non-unique serial string.
pub fn is_non_unique_serial(s: &str) -> (r: bool)
    ensures
        r == non_unique_serial(s@),
{
    let v = str_chars(s);
    let nuvoton = str_chars("Nuvoton");
    let tl = str_chars("TL_LCDV");
    chars_eq(&v, &nuvoton) || starts_with(&v, &tl)
}

/// Port numbers joined with dots, each in decimal.
pub open spec fn join_ports(p: Seq<u8>) -> Seq<char>
    decreases p.len(),
{
    if p.len() == 0 {
        seq![]
    } else if p.len() == 1 {
        dec(p[0] as nat)
    } else {
        join_ports(p.drop_last()) + seq!['.'] + dec(p.last() as nat)
    }
}

/// The USB port path `bus-p1.p2...`, or `bus-address` when the port
/// numbers are unknown or empty.
pub open spec fn port_path_text(bus: u8, address: u8, ports: Option<Seq<u8>>) -> Seq<char> {
    match ports {
        Some(p) => if p.len() > 0 {
            dec(bus as nat) + seq!['-'] + join_ports(p)
        } else {
            dec(bus as nat) + seq!['-'] + dec(address as nat)
        },
        None => dec(bus as nat) + seq!['-'] + dec(address as nat),
    }
}

/// The port numbers of an optional vector, as a sequence.
pub open spec fn ports_view(p: Option<Vec<u8>>) -> Option<Seq<u8>> {
    match p {
        Some(v) => Some(v@),
        None => None,
    }
}

/// Stable id of a detected device: its serial when that is unique,
/// otherwise vendor, product and USB port path.
pub open spec fn detected_device_id(d: DetectedDevice) -> Seq<char> {
    match d.serial {
        Some(s) => if !non_unique_serial(s@) {
            "hid:"@ + s@
        } else {
            "hid:"@ + hex4(d.vid) + ":"@ + hex4(d.pid) + ":"@ + port_path_text(
                d.bus,
                d.address,
                ports_view(d.port_numbers),
            )
        },
        None => "hid:"@ + hex4(d.vid) + ":"@ + hex4(d.pid) + ":"@ + port_path_text(
            d.bus,
            d.address,
            ports_view(d.port_numbers),
        ),
    }
}

fn push_joined_ports(out: &mut Vec<char>, p: &[u8])
    ensures
        final(out)@ == old(out)@ + join_ports(p@),
{
    let mut i: usize = 0;
    while i < p.len()
        invariant
            i <= p@.len(),
            out@ == old(out)@ + join_ports(p@.take(i as int)),
        decreases p@.len() - i,
    {
        let ghost mid = out@;
        if i > 0 {
            out.push('.');
        }
        push_dec(out, p[i] as u64);
        assert(p@.take(i + 1).drop_last() =~= p@.take(i as int));
        if i == 0 {
            assert(join_ports(p@.take(1)) == dec(p@[0] as nat));
        }
        assert(out@ =~= old(out)@ + join_ports(p@.take(i + 1)));
        i = i + 1;
    }
    assert(p@.take(p@.len() as int) =~= p@);
}

/// Appends the USB port path of a device to `out`.
pub fn push_port_path(out: &mut Vec<char>, bus: u8, address: u8, ports: &Option<Vec<u8>>)
    ensures
        final(out)@ == old(out)@ + port_path_text(bus, address, ports_view(*ports)),
{
    push_dec(out, bus as u64);
    out.push('-');
    match ports {
        Some(p) if p.len() > 0 => {
            push_joined_ports(out, p.as_slice());
        },
        _ => {
            push_dec(out, address as u64);
        },
    }
    assert(final(out)@ =~= old(out)@ + port_path_text(bus, address, ports_view(*ports)));
}

impl DetectedDevice {
    /// Stable device ID: serial if unique, otherwise USB port path (bus-port topology).
    pub fn device_id(&self) -> (r: String)
        ensures
            r@ == detected_device_id(*self),
    {
        let mut out: Vec<char> = Vec::new();
        push_str(&mut out, "hid:");
        match &self.serial {
            Some(s) if !is_non_unique_serial(s.as_str()) => {
                let sv = str_chars(s.as_str());
                push_all(&mut out, &sv);
            },
            _ => {
                push_hex4(&mut out, self.vid);
                push_str(&mut out, ":");
                push_hex4(&mut out, self.pid);
                push_str(&mut out, ":");
                push_port_path(&mut out, self.bus, self.address, &self.port_numbers);
            },
        }
        assert(out@ =~= detected_device_id(*self));
        chars_to_string(&out)
    }
}

/// The port path of the first scanned device with the given ids whose port
/// numbers are known and non-empty, looking from index `i` on; `None` as
/// soon as a device descriptor or the matching device's port numbers
/// cannot be read.
pub open spec fn usb_port_path_from(scan: Seq<ScannedUsbDevice>, vid: u16, pid: u16, i: int) -> Option<Seq<char>>
    decreases scan.len() - i,
{
    if i < 0 || i >= scan.len() {
        None
    } else {
        match scan[i].descriptor {
            None => None,
            Some(id) => if id.vid == vid && id.pid == pid {
                match scan[i].port_numbers {
                    None => None,
                    Some(p) => if p@.len() > 0 {
                        Some(dec(scan[i].bus as nat) + seq!['-'] + join_ports(p@))
                    } else {
                        usb_port_path_from(scan, vid, pid, i + 1)
                    },
                }
            } else {
                usb_port_path_from(scan, vid, pid, i + 1)
            },
        }
    }
}

/// Looks up the USB port path (e.g. "1-5.3", stable across reboots) of the
/// device with the given vendor/product ids.
pub fn usb_port_path(scan: &[ScannedUsbDevice], vid: u16, pid: u16) -> (r: Option<String>)
    ensures
        match r {
            Some(s) => usb_port_path_from(scan@, vid, pid, 0) == Some(s@),
            None => usb_port_path_from(scan@, vid, pid, 0) is None,
        },
{
    let mut i: usize = 0;
    while i < scan.len()
        invariant
            i <= scan@.len(),
            usb_port_path_from(scan@, vid, pid, 0) == usb_port_path_from(scan@, vid, pid, i as int),
        decreases scan@.len() - i,
    {
        let d = &scan[i];
        match d.descriptor {
            None => {
                return None;
            },
            Some(id) => {
                if id.vid == vid && id.pid == pid {
                    match &d.port_numbers {
                        None => {
                            return None;
                        },
                        Some(p) => {
                            if p.len() > 0 {
                                let mut out: Vec<char> = Vec::new();
                                push_dec(&mut out, d.bus as u64);
                                out.push('-');
                                push_joined_ports(&mut out, p.as_slice());
                                assert(out@ =~= dec(d.bus as nat) + seq!['-'] + join_ports(p@));
                                return Some(chars_to_string(&out));
                            }
                        },
                    }
                }
            },
        }
        i = i + 1;
    }
    None
}

/// Whether scanned device `d` has the given vendor/product ids.
pub open spec fn scanned_is(d: ScannedUsbDevice, vid: u16, pid: u16) -> bool {
    d.descriptor == Some(UsbId { vid, pid })
}

/// Finds the first scanned device with the given vendor/product ids; a
/// device whose descriptor cannot be read does not match.
pub fn find_usb_device(scan: &[ScannedUsbDevice], vid: u16, pid: u16) -> (r: Option<usize>)
    ensures
        match r {
            Some(i) => i < scan@.len() && scanned_is(scan@[i as int], vid, pid) && forall|j: int|
                0 <= j < i ==> !scanned_is(#[trigger] scan@[j], vid, pid),
            None => forall|j: int| 0 <= j < scan@.len() ==> !scanned_is(#[trigger] scan@[j], vid, pid),
        },
{
    let mut i: usize = 0;
    while i < scan.len()
        invariant
            i <= scan@.len(),
            forall|j: int| 0 <= j < i ==> !scanned_is(#[trigger] scan@[j], vid, pid),
        decreases scan@.len() - i,
    {
        match scan[i].descriptor {
            Some(id) => {
                if id.vid == vid && id.pid == pid {
                    return Some(i);
                }
            },
            None => {},
        }
        i = i + 1;
    }
    None
}

} // verus!
