//! Discovery of HID devices: which entries of the HID device list belong
//! to known devices, and their stable identities.
//!
//! The HID device list itself (hidapi) and the USB bus scan are taken by
//! the caller and handed over as plain values.

use vstd::prelude::*;
use crate::detect::{
    first_entry, find_entry, non_unique_serial, usb_port_path, usb_port_path_from, DeviceEntry,
    DeviceFamily, ScannedUsbDevice, UsbId,
};
use crate::text::{
    chars_eq, chars_to_string, hex4, push_all, push_hex4, push_str, str_chars,
};

verus! {

/// What the HID device list reports about one HID interface.
#[derive(Debug)]
pub struct ScannedHidDevice {
    pub vid: u16,
    pub pid: u16,
    pub usage_page: u16,
    /// Platform path of the interface (bytes of the C string, without NUL).
    pub path: Vec<u8>,
    /// Serial number string, when it could be read.
    pub serial: Option<String>,
}

/// A detected HID device with its identified family.
#[derive(Debug)]
pub struct DetectedHidDevice {
    pub family: DeviceFamily,
    pub name: &'static str,
    pub vid: u16,
    pub pid: u16,
    pub path: Vec<u8>,
    pub serial: Option<String>,
    /// USB port path (e.g. "1-5.3") for stable device IDs.
    pub usb_port_path: Option<String>,
}

/// The value of a `DetectedHidDevice`.
pub struct DetectedHidDeviceView {
    pub family: DeviceFamily,
    pub name: &'static str,
    pub vid: u16,
    pub pid: u16,
    pub path: Seq<u8>,
    pub serial: Option<Seq<char>>,
    pub usb_port_path: Option<Seq<char>>,
}

/// The view of an optional string.
pub open spec fn opt_text(s: Option<String>) -> Option<Seq<char>> {
    match s {
        Some(x) => Some(x@),
        None => None,
    }
}

impl View for DetectedHidDevice {
    type V = DetectedHidDeviceView;

    open spec fn view(&self) -> DetectedHidDeviceView {
        DetectedHidDeviceView {
            family: self.family,
            name: self.name,
            vid: self.vid,
            pid: self.pid,
            path: self.path@,
            serial: opt_text(self.serial),
            usb_port_path: opt_text(self.usb_port_path),
        }
    }
}

/// The values of a list of detected HID devices.
pub open spec fn hid_devices_view(d: Seq<DetectedHidDevice>) -> Seq<DetectedHidDeviceView> {
    d.map_values(|x: DetectedHidDevice| x@)
}

/// The key by which interfaces without a usage page filter are told apart:
/// vendor, product and serial (empty when unreadable).
pub type HidKey = (u16, u16, Seq<char>);

/// The key of a scanned interface.
pub open spec fn hid_key(d: ScannedHidDevice) -> HidKey {
    (d.vid, d.pid, match d.serial {
        Some(s) => s@,
        None => seq![],
    })
}

/// The detected device for scanned interface `d` of known entry `e`.
pub open spec fn hid_detected(d: ScannedHidDevice, e: DeviceEntry, scan: Seq<ScannedUsbDevice>) -> DetectedHidDeviceView {
    DetectedHidDeviceView {
        family: e.family,
        name: e.name,
        vid: d.vid,
        pid: d.pid,
        path: d.path@,
        serial: opt_text(d.serial),
        usb_port_path: usb_port_path_from(scan, d.vid, d.pid, 0),
    }
}

/// One step of HID discovery: the device an interface yields, if any, and
/// the keys seen so far. Interfaces of unknown or non-HID devices yield
/// nothing; for an entry with a usage page filter only the interface with
/// that page counts; otherwise only the first interface with each key.
pub open spec fn hid_step(
    d: ScannedHidDevice,
    known: Seq<DeviceEntry>,
    scan: Seq<ScannedUsbDevice>,
    seen: Set<HidKey>,
) -> (Option<DetectedHidDeviceView>, Set<HidKey>) {
    match first_entry(known, UsbId { vid: d.vid, pid: d.pid }) {
        None => (None, seen),
        Some(i) => if !known[i].family.hid {
            (None, seen)
        } else {
            match known[i].hid_usage_page {
                Some(page) => if d.usage_page != page {
                    (None, seen)
                } else {
                    (Some(hid_detected(d, known[i], scan)), seen)
                },
                None => if seen.contains(hid_key(d)) {
                    (None, seen)
                } else {
                    (Some(hid_detected(d, known[i], scan)), seen.insert(hid_key(d)))
                },
            }
        },
    }
}

/// The devices found among the first `n` interfaces of the list, in list
/// order, and the keys seen.
pub open spec fn hid_detect_from(
    list: Seq<ScannedHidDevice>,
    known: Seq<DeviceEntry>,
    scan: Seq<ScannedUsbDevice>,
    n: int,
) -> (Seq<DetectedHidDeviceView>, Set<HidKey>)
    decreases n,
{
    if n <= 0 {
        (seq![], Set::empty())
    } else {
        let prev = hid_detect_from(list, known, scan, n - 1);
        let step = hid_step(list[n - 1], known, scan, prev.1);
        match step.0 {
            Some(x) => (prev.0.push(x), step.1),
            None => (prev.0, step.1),
        }
    }
}

/// The key of a detected device: vendor, product and serial (empty when
/// unknown).
pub open spec fn view_key(v: DetectedHidDeviceView) -> HidKey {
    (v.vid, v.pid, match v.serial {
        Some(s) => s,
        None => seq![],
    })
}

/// Whether the known entry of a device's ids has no usage page filter (so
/// its interfaces are told apart by key).
pub open spec fn unfiltered(v: DetectedHidDeviceView, known: Seq<DeviceEntry>) -> bool {
    match first_entry(known, UsbId { vid: v.vid, pid: v.pid }) {
        Some(i) => known[i].hid_usage_page is None,
        None => false,
    }
}

proof fn lemma_hid_keys(list: Seq<ScannedHidDevice>, known: Seq<DeviceEntry>, scan: Seq<ScannedUsbDevice>, n: int)
    ensures
        forall|k: int|
            0 <= k < hid_detect_from(list, known, scan, n).0.len() && unfiltered(
                #[trigger] hid_detect_from(list, known, scan, n).0[k],
                known,
            ) ==> hid_detect_from(list, known, scan, n).1.contains(view_key(hid_detect_from(list, known, scan, n).0[k])),
        forall|i: int, j: int|
            0 <= i < j < hid_detect_from(list, known, scan, n).0.len() && unfiltered(
                #[trigger] hid_detect_from(list, known, scan, n).0[i],
                known,
            ) && unfiltered(#[trigger] hid_detect_from(list, known, scan, n).0[j], known) ==> view_key(
                hid_detect_from(list, known, scan, n).0[i],
            ) != view_key(hid_detect_from(list, known, scan, n).0[j]),
    decreases n,
{
    if n > 0 {
        lemma_hid_keys(list, known, scan, n - 1);
        let prev = hid_detect_from(list, known, scan, n - 1);
        let d = list[n - 1];
        let step = hid_step(d, known, scan, prev.1);
        let cur = hid_detect_from(list, known, scan, n);
        assert(prev.1.subset_of(step.1));
        match step.0 {
            Some(x) => {
                assert(cur.0 == prev.0.push(x));
                assert(view_key(x) == hid_key(d));
                assert(unfiltered(x, known) ==> !prev.1.contains(hid_key(d)) && step.1.contains(hid_key(d)));
                assert forall|k: int| 0 <= k < cur.0.len() && unfiltered(#[trigger] cur.0[k], known) implies cur.1.contains(view_key(cur.0[k])) by {
                    if k < prev.0.len() {
                        assert(cur.0[k] == prev.0[k]);
                    }
                }
                assert forall|i: int, j: int| 0 <= i < j < cur.0.len() && unfiltered(#[trigger] cur.0[i], known) && unfiltered(#[trigger] cur.0[j], known) implies view_key(cur.0[i]) != view_key(cur.0[j]) by {
                    assert(cur.0[i] == prev.0[i]);
                    if j < prev.0.len() {
                        assert(cur.0[j] == prev.0[j]);
                    } else {
                        assert(prev.1.contains(view_key(prev.0[i])));
                    }
                }
            },
            None => {
                assert(cur.0 == prev.0);
            },
        }
    }
}

/// Interfaces of devices whose entry has no usage page filter are
/// deduplicated: no two devices found for such entries share vendor,
/// product and serial.
pub proof fn law_hid_dedup(list: Seq<ScannedHidDevice>, known: Seq<DeviceEntry>, scan: Seq<ScannedUsbDevice>)
    ensures
        forall|i: int, j: int|
            0 <= i < j < hid_detect_from(list, known, scan, list.len() as int).0.len() && unfiltered(
                #[trigger] hid_detect_from(list, known, scan, list.len() as int).0[i],
                known,
            ) && unfiltered(#[trigger] hid_detect_from(list, known, scan, list.len() as int).0[j], known)
                ==> view_key(hid_detect_from(list, known, scan, list.len() as int).0[i]) != view_key(
                hid_detect_from(list, known, scan, list.len() as int).0[j],
            ),
{
    lemma_hid_keys(list, known, scan, list.len() as int);
}

fn copy_bytes(v: &Vec<u8>) -> (r: Vec<u8>)
    ensures
        r@ == v@,
{
    let mut r: Vec<u8> = Vec::new();
    let mut i: usize = 0;
    while i < v.len()
        invariant
            i <= v@.len(),
            r@ == v@.take(i as int),
        decreases v@.len() - i,
    {
        r.push(v[i]);
        i = i + 1;
        assert(r@ =~= v@.take(i as int));
    }
    assert(v@.take(i as int) =~= v@);
    r
}

fn copy_opt(s: &Option<String>) -> (r: Option<String>)
    ensures
        opt_text(r) == opt_text(*s),
{
    match s {
        Some(x) => Some(chars_to_string(&str_chars(x.as_str()))),
        None => None,
    }
}

fn key_of(d: &ScannedHidDevice) -> (r: (u16, u16, Vec<char>))
    ensures
        (r.0, r.1, r.2@) == hid_key(*d),
{
    let serial = match &d.serial {
        Some(s) => str_chars(s.as_str()),
        None => Vec::new(),
    };
    assert(d.serial is None ==> serial@ =~= Seq::<char>::empty());
    (d.vid, d.pid, serial)
}

/// The values of a list of keys.
pub open spec fn keys_view(k: Seq<(u16, u16, Vec<char>)>) -> Set<HidKey> {
    Set::new(|x: HidKey| exists|i: int| 0 <= i < k.len() && (k[i].0, k[i].1, k[i].2@) == x)
}

fn key_seen(seen: &Vec<(u16, u16, Vec<char>)>, key: &(u16, u16, Vec<char>)) -> (r: bool)
    ensures
        r == keys_view(seen@).contains((key.0, key.1, key.2@)),
{
    let mut i: usize = 0;
    while i < seen.len()
        invariant
            i <= seen@.len(),
            forall|j: int| 0 <= j < i ==> ((#[trigger] seen@[j]).0, seen@[j].1, seen@[j].2@) != (key.0, key.1, key.2@),
        decreases seen@.len() - i,
    {
        let k = &seen[i];
        if k.0 == key.0 && k.1 == key.1 && chars_eq(&k.2, &key.2) {
            assert(keys_view(seen@).contains((key.0, key.1, key.2@))) by {
                assert((seen@[i as int].0, seen@[i as int].1, seen@[i as int].2@) == (key.0, key.1, key.2@));
            }
            return true;
        }
        i = i + 1;
    }
    assert(!keys_view(seen@).contains((key.0, key.1, key.2@))) by {
        if keys_view(seen@).contains((key.0, key.1, key.2@)) {
            let j = choose|j: int| 0 <= j < seen@.len() && (seen@[j].0, seen@[j].1, seen@[j].2@) == (key.0, key.1, key.2@);
            assert(((seen@[j]).0, seen@[j].1, seen@[j].2@) != (key.0, key.1, key.2@));
        }
    }
    false
}

/// All known HID devices of the HID device list, in list order. When a
/// device entry specifies a usage page, only the interface with that usage
/// page is returned; otherwise interfaces are deduplicated by vendor,
/// product and serial. Each carries the USB port path that the bus scan
/// `scan` gives for its ids.
pub fn enumerate_hid_devices(
    list: &[ScannedHidDevice],
    known: &[DeviceEntry],
    scan: &[ScannedUsbDevice],
) -> (r: Vec<DetectedHidDevice>)
    ensures
        hid_devices_view(r@) == hid_detect_from(list@, known@, scan@, list@.len() as int).0,
{
    let mut found: Vec<DetectedHidDevice> = Vec::new();
    let mut seen: Vec<(u16, u16, Vec<char>)> = Vec::new();
    let mut i: usize = 0;
    assert(keys_view(seen@) =~= Set::<HidKey>::empty());
    while i < list.len()
        invariant
            i <= list@.len(),
            hid_devices_view(found@) == hid_detect_from(list@, known@, scan@, i as int).0,
            keys_view(seen@) == hid_detect_from(list@, known@, scan@, i as int).1,
        decreases list@.len() - i,
    {
        let d = &list[i];
        let ghost prev = hid_detect_from(list@, known@, scan@, i as int);
        let ghost before = hid_devices_view(found@);
        match find_entry(known, UsbId { vid: d.vid, pid: d.pid }) {
            None => {},
            Some(ei) => {
                let e = &known[ei];
                let keep = if !e.family.hid {
                    false
                } else {
                    match e.hid_usage_page {
                        Some(page) => d.usage_page == page,
                        None => {
                            let key = key_of(d);
                            if key_seen(&seen, &key) {
                                false
                            } else {
                                let ghost ks = seen@;
                                seen.push(key);
                                assert(keys_view(seen@) =~= keys_view(ks).insert(hid_key(*d))) by {
                                    assert forall|x: HidKey| keys_view(seen@).contains(x) implies keys_view(ks).insert(hid_key(*d)).contains(x) by {
                                        let j = choose|j: int| 0 <= j < seen@.len() && (seen@[j].0, seen@[j].1, seen@[j].2@) == x;
                                        if j < ks.len() {
                                            assert((ks[j].0, ks[j].1, ks[j].2@) == x);
                                        }
                                    }
                                    assert forall|x: HidKey| keys_view(ks).insert(hid_key(*d)).contains(x) implies keys_view(seen@).contains(x) by {
                                        if x == hid_key(*d) {
                                            assert((seen@[ks.len() as int].0, seen@[ks.len() as int].1, seen@[ks.len() as int].2@) == x);
                                        } else {
                                            let j = choose|j: int| 0 <= j < ks.len() && (ks[j].0, ks[j].1, ks[j].2@) == x;
                                            assert(seen@[j] == ks[j]);
                                        }
                                    }
                                }
                                true
                            }
                        },
                    }
                };
                if keep {
                    let det = DetectedHidDevice {
                        family: e.family,
                        name: e.name,
                        vid: d.vid,
                        pid: d.pid,
                        path: copy_bytes(&d.path),
                        serial: copy_opt(&d.serial),
                        usb_port_path: usb_port_path(scan, d.vid, d.pid),
                    };
                    assert(det@ == hid_detected(*d, known@[ei as int], scan@)) by {
                        assert(opt_text(det.usb_port_path) == usb_port_path_from(scan@, d.vid, d.pid, 0));
                    }
                    found.push(det);
                    assert(hid_devices_view(found@) =~= before.push(det@));
                }
            },
        }
        assert(list@[i as int] == *d);
        i = i + 1;
    }
    found
}

/// The devices of the given family.
pub open spec fn of_family(d: Seq<DetectedHidDeviceView>, family: DeviceFamily) -> Seq<DetectedHidDeviceView>
    decreases d.len(),
{
    if d.len() == 0 {
        seq![]
    } else if d.last().family == family {
        of_family(d.drop_last(), family).push(d.last())
    } else {
        of_family(d.drop_last(), family)
    }
}

/// The known HID devices of the given family, in list order.
pub fn find_hid_devices_by_family(devices: Vec<DetectedHidDevice>, family: DeviceFamily) -> (r: Vec<DetectedHidDevice>)
    ensures
        hid_devices_view(r@) == of_family(hid_devices_view(devices@), family),
{
    let ghost all = hid_devices_view(devices@);
    let n = devices.len();
    let mut src = devices;
    let mut out: Vec<DetectedHidDevice> = Vec::new();
    let mut i: usize = 0;
    assert(all.take(0) =~= Seq::<DetectedHidDeviceView>::empty());
    while i < n
        invariant
            n == all.len(),
            i <= n,
            src@.len() == n - i,
            hid_devices_view(src@) == all.skip(i as int),
            hid_devices_view(out@) == of_family(all.take(i as int), family),
        decreases n - i,
    {
        let ghost sb = hid_devices_view(src@);
        let d = src.remove(0);
        assert(sb[0] == all.skip(i as int)[0]);
        assert(d@ == all[i as int]);
        assert(hid_devices_view(src@) =~= sb.skip(1));
        assert(all.skip(i as int).skip(1) =~= all.skip(i + 1));
        assert(all.take(i + 1).drop_last() =~= all.take(i as int));
        if d.family == family {
            let ghost before = hid_devices_view(out@);
            let ghost dv = d@;
            out.push(d);
            assert(hid_devices_view(out@) =~= before.push(dv));
        }
        i = i + 1;
    }
    assert(all.take(n as int) =~= all);
    out
}

/// One step of the path hash: multiply by 31 and add the byte, wrapping.
pub open spec fn hash_step(acc: u32, b: u8) -> u32 {
    (((acc as int * 31) % 0x1_0000_0000 + b as int) % 0x1_0000_0000) as u32
}

/// Hash of an interface path, folding `hash_step` over its bytes from 0.
pub open spec fn path_hash(p: Seq<u8>) -> u32
    decreases p.len(),
{
    if p.len() == 0 {
        0
    } else {
        hash_step(path_hash(p.drop_last()), p.last())
    }
}

/// Stable id of a detected HID device: its serial when that is unique,
/// otherwise vendor, product and USB port path, or, without a port path,
/// the low 16 bits of the hash of its interface path.
pub open spec fn hid_device_id_spec(d: DetectedHidDeviceView) -> Seq<char> {
    let fallback = match d.usb_port_path {
        Some(p) => "hid:"@ + hex4(d.vid) + ":"@ + hex4(d.pid) + ":"@ + p,
        None => "hid:"@ + hex4(d.vid) + ":"@ + hex4(d.pid) + ":"@ + hex4(
            (path_hash(d.path) as int % 0x1_0000) as u16,
        ),
    };
    match d.serial {
        Some(s) => if !non_unique_serial(s) {
            "hid:"@ + s
        } else {
            fallback
        },
        None => fallback,
    }
}

fn hash_path(p: &Vec<u8>) -> (r: u32)
    ensures
        r == path_hash(p@),
{
    let mut acc: u32 = 0;
    let mut i: usize = 0;
    while i < p.len()
        invariant
            i <= p@.len(),
            acc == path_hash(p@.take(i as int)),
        decreases p@.len() - i,
    {
        assert(p@.take(i + 1).drop_last() =~= p@.take(i as int));
        acc = acc.wrapping_mul(31).wrapping_add(p[i] as u32);
        i = i + 1;
    }
    assert(p@.take(i as int) =~= p@);
    acc
}

impl DetectedHidDevice {
    /// Stable device ID: serial if unique, otherwise USB port path.
    pub fn device_id(&self) -> (r: String)
        ensures
            r@ == hid_device_id_spec(self@),
    {
        let mut out: Vec<char> = Vec::new();
        push_str(&mut out, "hid:");
        match &self.serial {
            Some(s) if !crate::detect::is_non_unique_serial(s.as_str()) => {
                push_all(&mut out, &str_chars(s.as_str()));
            },
            _ => {
                push_hex4(&mut out, self.vid);
                push_str(&mut out, ":");
                push_hex4(&mut out, self.pid);
                push_str(&mut out, ":");
                match &self.usb_port_path {
                    Some(p) => {
                        push_all(&mut out, &str_chars(p.as_str()));
                    },
                    None => {
                        let h = hash_path(&self.path);
                        push_hex4(&mut out, (h % 0x1_0000) as u16);
                    },
                }
            },
        }
        assert(out@ =~= hid_device_id_spec(self@));
        chars_to_string(&out)
    }
}

/// Whether detected device `d` is of `family` with ids `vid`:`pid`.
pub open spec fn is_lcd_candidate(d: DetectedHidDeviceView, family: DeviceFamily, vid: u16, pid: u16) -> bool {
    d.family == family && d.vid == vid && d.pid == pid
}

/// Position of the first candidate at or after `i`.
pub open spec fn lcd_candidate_from(
    devices: Seq<DetectedHidDeviceView>,
    family: DeviceFamily,
    vid: u16,
    pid: u16,
    i: int,
) -> Option<int>
    decreases devices.len() - i,
{
    if i < 0 || i >= devices.len() {
        None
    } else if is_lcd_candidate(devices[i], family, vid, pid) {
        Some(i)
    } else {
        lcd_candidate_from(devices, family, vid, pid, i + 1)
    }
}

/// The HID device to open as the LCD with ids `vid`:`pid` of `family`:
/// the first detected device of that family with those ids.
pub fn select_hid_lcd(devices: &[DetectedHidDevice], family: DeviceFamily, vid: u16, pid: u16) -> (r: Option<usize>)
    ensures
        match r {
            Some(i) => lcd_candidate_from(hid_devices_view(devices@), family, vid, pid, 0) == Some(i as int),
            None => lcd_candidate_from(hid_devices_view(devices@), family, vid, pid, 0) is None,
        },
{
    let ghost v = hid_devices_view(devices@);
    let mut i: usize = 0;
    while i < devices.len()
        invariant
            i <= devices@.len(),
            v == hid_devices_view(devices@),
            lcd_candidate_from(v, family, vid, pid, 0) == lcd_candidate_from(v, family, vid, pid, i as int),
        decreases devices@.len() - i,
    {
        let d = &devices[i];
        assert(v[i as int] == d@);
        if d.family == family && d.vid == vid && d.pid == pid {
            return Some(i);
        }
        i = i + 1;
    }
    None
}

} // verus!
