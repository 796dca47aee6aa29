use lianli::binding::{
    devices_missing_hidraw, hid_interface_numbers, reset_error_means_reenumerated,
    InterfaceDescriptorInfo, HID_CLASS,
};
use lianli::desktop_display::enumerate_turzx;
use lianli::detect::{
    enumerate_devices, find_entry, find_usb_device, is_non_unique_serial, push_port_path, usb_port_path,
    uses_hid, DetectedDevice, DeviceEntry, DeviceFamily, FamilyKind, ScannedUsbDevice, UsbId,
};
use lianli::ene6k77::{Ene6k77Firmware, Ene6k77Model};
use lianli::hid_detect::{enumerate_hid_devices, find_hid_devices_by_family, DetectedHidDevice, ScannedHidDevice};
use lianli::hydroshift_lcd::{AioLcdVariant, LcdControlMode, ScreenRotation};
use lianli::tl_fan::{TlFanHandshake, TlFanInfo};

const FAN: DeviceFamily = DeviceFamily { code: 1, hid: true, kind: FamilyKind::Other };
const LCD: DeviceFamily = DeviceFamily { code: 2, hid: false, kind: FamilyKind::Other };

fn known() -> Vec<DeviceEntry> {
    vec![
        DeviceEntry { id: UsbId { vid: 0x0cf2, pid: 0xa100 }, family: FAN, name: "SL Fan", hid_usage_page: None },
        DeviceEntry { id: UsbId { vid: 0x0416, pid: 0x7398 }, family: LCD, name: "HydroShift", hid_usage_page: Some(0xff1b) },
        DeviceEntry { id: UsbId { vid: 0x0cf2, pid: 0xa100 }, family: LCD, name: "duplicate", hid_usage_page: None },
    ]
}

fn scanned(vid: u16, pid: u16, bus: u8, address: u8, ports: Option<Vec<u8>>, serial: Option<&str>) -> ScannedUsbDevice {
    ScannedUsbDevice {
        descriptor: Some(UsbId { vid, pid }),
        bus,
        address,
        port_numbers: ports,
        serial: serial.map(|s| s.to_string()),
    }
}

fn detected(vid: u16, pid: u16, serial: Option<&str>, ports: Option<Vec<u8>>) -> DetectedDevice {
    DetectedDevice {
        family: FAN,
        name: "SL Fan",
        vid,
        pid,
        bus: 1,
        address: 7,
        serial: serial.map(|s| s.to_string()),
        hid_usage_page: None,
        port_numbers: ports,
    }
}

#[test]
fn ene_models_by_pid() {
    assert_eq!(Ene6k77Model::from_pid(0xA100), Some(Ene6k77Model::SlFan));
    assert_eq!(Ene6k77Model::from_pid(0xA104), Some(Ene6k77Model::AlV2Fan));
    assert_eq!(Ene6k77Model::from_pid(0xA106), Some(Ene6k77Model::SlRedragon));
    assert_eq!(Ene6k77Model::from_pid(0xA107), None);
    assert_eq!(Ene6k77Model::from_pid(0x0000), None);
}

#[test]
fn ene_model_properties() {
    assert_eq!(Ene6k77Model::SlV2aFan.name(), "SL V2A Fan");
    assert_eq!(Ene6k77Model::SlInfinity.name(), "SL Infinity");
    assert!(Ene6k77Model::SlV2Fan.is_v2());
    assert!(!Ene6k77Model::SlFan.is_v2());
    assert!(Ene6k77Model::AlFan.uses_double_port());
    assert!(Ene6k77Model::SlInfinity.uses_double_port());
    assert!(!Ene6k77Model::SlV2Fan.uses_double_port());
    assert_eq!(Ene6k77Model::AlV2Fan.max_fans_per_group(), 6);
    assert_eq!(Ene6k77Model::SlRedragon.max_fans_per_group(), 4);
}

#[test]
fn ene_pid_roundtrip_for_every_pid() {
    for pid in 0xA100u16..=0xA106 {
        let m = Ene6k77Model::from_pid(pid).unwrap();
        let again = Ene6k77Model::from_pid(pid).unwrap();
        assert_eq!(m, again);
    }
}

#[test]
fn ene_firmware_description() {
    let fw = Ene6k77Firmware { customer_id: 0x0a, project_id: 0x1f, major_id: 0, minor_id: 0xff, fine_tune: 3 };
    assert_eq!(fw.describe(), "v1.0 (cust=0x0a proj=0x1f major=0x00 minor=0xff)");
    assert_eq!(fw.version_tenths(), 10);
    let fw2 = Ene6k77Firmware { customer_id: 1, project_id: 2, major_id: 3, minor_id: 4, fine_tune: 0x12 };
    // (1 * 10 + 2 + 2) / 10 = 1.4
    assert_eq!(fw2.version_tenths(), 14);
    assert_eq!(fw2.describe(), "v1.4 (cust=0x01 proj=0x02 major=0x03 minor=0x04)");
    let fw3 = Ene6k77Firmware { customer_id: 0, project_id: 0, major_id: 0, minor_id: 0, fine_tune: 0xff };
    assert_eq!(fw3.describe(), "v16.7 (cust=0x00 proj=0x00 major=0x00 minor=0x00)");
}

#[test]
fn aio_variants() {
    assert_eq!(AioLcdVariant::from_pid(0x7398), Some(AioLcdVariant::HydroShiftLcd));
    assert_eq!(AioLcdVariant::from_pid(0x7391), Some(AioLcdVariant::Galahad2Lcd));
    assert_eq!(AioLcdVariant::from_pid(0x7395), Some(AioLcdVariant::Galahad2Vision));
    assert_eq!(AioLcdVariant::from_pid(0x7390), None);
    assert_eq!(AioLcdVariant::Galahad2Lcd.name(), "Galahad II LCD");
    assert_eq!(AioLcdVariant::HydroShiftLcdTl.name(), "HydroShift LCD TL");
    assert!(AioLcdVariant::Galahad2Vision.has_pump_rgb());
    assert!(!AioLcdVariant::HydroShiftLcdRgb.has_pump_rgb());
}

#[test]
fn screen_rotation_codes() {
    assert_eq!(ScreenRotation::from_degrees(90), ScreenRotation::Rotate90);
    assert_eq!(ScreenRotation::from_degrees(270).code(), 3);
    assert_eq!(ScreenRotation::from_degrees(45), ScreenRotation::Rotate0);
    assert_eq!(ScreenRotation::from_degrees(360).code(), 0);
    for (deg, code) in [(0u16, 0u8), (90, 1), (180, 2), (270, 3)] {
        let r = ScreenRotation::from_degrees(deg);
        assert_eq!(r.code(), code);
        assert_eq!(ScreenRotation::from_degrees(r.code() as u16 * 90), r);
    }
    assert_eq!(LcdControlMode::Application.code(), 1);
    assert_eq!(LcdControlMode::LcdTest.code(), 5);
}

#[test]
fn tl_fan_handshake_holds_ports_and_fans() {
    let hs = TlFanHandshake {
        port_fan_counts: [2, 0, 1, 0],
        fans: vec![TlFanInfo { port: 0, fan_index: 1, rpm: 900, is_detected: true }],
    };
    assert_eq!(hs.port_fan_counts[0], 2);
    assert_eq!(hs.fans[0].rpm, 900);
}

#[test]
fn family_hid_flag() {
    assert!(uses_hid(FAN));
    assert!(!uses_hid(LCD));
}

#[test]
fn first_table_entry_wins() {
    let k = known();
    assert_eq!(find_entry(&k, UsbId { vid: 0x0cf2, pid: 0xa100 }), Some(0));
    assert_eq!(find_entry(&k, UsbId { vid: 0x0416, pid: 0x7398 }), Some(1));
    assert_eq!(find_entry(&k, UsbId { vid: 1, pid: 2 }), None);
}

#[test]
fn enumerate_keeps_known_devices_sorted_by_location() {
    let scan = vec![
        scanned(0x0416, 0x7398, 2, 5, Some(vec![3]), None),
        scanned(0x1234, 0x5678, 1, 1, None, None),
        ScannedUsbDevice { descriptor: None, bus: 0, address: 0, port_numbers: None, serial: None },
        scanned(0x0cf2, 0xa100, 1, 9, Some(vec![1, 4]), Some("ABC")),
        scanned(0x0cf2, 0xa100, 2, 5, None, None),
        scanned(0x0cf2, 0xa100, 1, 3, None, None),
    ];
    let found = enumerate_devices(scan, &known());
    let locs: Vec<(u8, u8, &str)> = found.iter().map(|d| (d.bus, d.address, d.name)).collect();
    assert_eq!(
        locs,
        vec![(1, 3, "SL Fan"), (1, 9, "SL Fan"), (2, 5, "HydroShift"), (2, 5, "SL Fan")]
    );
    assert_eq!(found[1].serial.as_deref(), Some("ABC"));
    assert_eq!(found[1].port_numbers, Some(vec![1, 4]));
    assert_eq!(found[2].hid_usage_page, Some(0xff1b));
    assert_eq!(found[2].family, LCD);
}

#[test]
fn non_unique_serials() {
    assert!(is_non_unique_serial("Nuvoton"));
    assert!(is_non_unique_serial("TL_LCDV1.2"));
    assert!(!is_non_unique_serial("nuvoton"));
    assert!(!is_non_unique_serial("0123456789"));
}

#[test]
fn device_id_prefers_unique_serial() {
    assert_eq!(detected(0x0cf2, 0xa100, Some("SN42"), None).device_id(), "hid:SN42");
    assert_eq!(
        detected(0x0cf2, 0xa100, Some("Nuvoton"), Some(vec![5, 3])).device_id(),
        "hid:0cf2:a100:1-5.3"
    );
    assert_eq!(detected(0x0416, 0x7398, None, None).device_id(), "hid:0416:7398:1-7");
    assert_eq!(detected(0x0416, 0x7398, None, Some(vec![])).device_id(), "hid:0416:7398:1-7");
}

#[test]
fn port_paths() {
    let mut out = vec!['x'];
    push_port_path(&mut out, 3, 9, &Some(vec![1, 12, 4]));
    assert_eq!(out.iter().collect::<String>(), "x3-1.12.4");
    let scan = vec![
        scanned(0x1111, 0x2222, 1, 2, Some(vec![7]), None),
        scanned(0x0cf2, 0xa100, 4, 2, Some(vec![]), None),
        scanned(0x0cf2, 0xa100, 5, 2, Some(vec![2, 1]), None),
    ];
    assert_eq!(usb_port_path(&scan, 0x0cf2, 0xa100), Some("5-2.1".to_string()));
    assert_eq!(usb_port_path(&scan, 0x1111, 0x2222), Some("1-7".to_string()));
    assert_eq!(usb_port_path(&scan, 0x9999, 0x2222), None);
    let blocked = vec![
        ScannedUsbDevice { descriptor: None, bus: 0, address: 0, port_numbers: None, serial: None },
        scanned(0x0cf2, 0xa100, 5, 2, Some(vec![2, 1]), None),
    ];
    assert_eq!(usb_port_path(&blocked, 0x0cf2, 0xa100), None);
    let no_ports = vec![scanned(0x0cf2, 0xa100, 5, 2, None, None)];
    assert_eq!(usb_port_path(&no_ports, 0x0cf2, 0xa100), None);
}

#[test]
fn find_usb_device_skips_unreadable_descriptors() {
    let scan = vec![
        ScannedUsbDevice { descriptor: None, bus: 0, address: 0, port_numbers: None, serial: None },
        scanned(0x0cf2, 0xa100, 4, 2, None, None),
        scanned(0x0cf2, 0xa100, 5, 2, None, None),
    ];
    assert_eq!(find_usb_device(&scan, 0x0cf2, 0xa100), Some(1));
    assert_eq!(find_usb_device(&scan, 0x0cf2, 0xa101), None);
}

#[test]
fn turzx_panels_in_scan_order() {
    let ids = [UsbId { vid: 0x1d6b, pid: 0x0121 }, UsbId { vid: 0x1d6b, pid: 0x0122 }];
    let scan = vec![
        scanned(0x1d6b, 0x0122, 3, 4, None, None),
        scanned(0x1d6b, 0x0001, 3, 1, None, None),
        ScannedUsbDevice { descriptor: None, bus: 0, address: 0, port_numbers: None, serial: None },
        scanned(0x1d6b, 0x0121, 1, 2, None, None),
    ];
    let m = enumerate_turzx(&scan, &ids);
    assert_eq!(m.len(), 2);
    assert_eq!((m[0].pid, m[0].key), (0x0122, (3, 4)));
    assert_eq!((m[1].pid, m[1].key), (0x0121, (1, 2)));
}

#[test]
fn hid_devices_without_hidraw() {
    let mut lcd = detected(0x0416, 0x7398, None, None);
    lcd.family = LCD;
    let devices = vec![
        detected(0x0cf2, 0xa100, None, None),
        lcd,
        detected(0x0cf2, 0xa101, None, None),
        detected(0x0cf2, 0xa102, None, None),
    ];
    let hidraw = [UsbId { vid: 0x0cf2, pid: 0xa101 }];
    assert_eq!(devices_missing_hidraw(&devices, &hidraw), vec![0, 3]);
    assert_eq!(devices_missing_hidraw(&devices, &[]), vec![0, 2, 3]);
}

#[test]
fn reset_errors() {
    assert!(reset_error_means_reenumerated("Entity not found"));
    assert!(reset_error_means_reenumerated("libusb: Entity not found (-5)"));
    assert!(!reset_error_means_reenumerated("Access denied"));
}

#[test]
fn hid_interfaces_to_rebind() {
    let descs = [
        InterfaceDescriptorInfo { class_code: HID_CLASS, interface_number: 0 },
        InterfaceDescriptorInfo { class_code: 0xff, interface_number: 1 },
        InterfaceDescriptorInfo { class_code: 3, interface_number: 2 },
    ];
    assert_eq!(hid_interface_numbers(&descs), vec![0, 2]);
    assert_eq!(hid_interface_numbers(&[]), Vec::<u8>::new());
}

fn hid_entry(vid: u16, pid: u16, page: u16, path: &[u8], serial: Option<&str>) -> ScannedHidDevice {
    ScannedHidDevice {
        vid,
        pid,
        usage_page: page,
        path: path.to_vec(),
        serial: serial.map(|s| s.to_string()),
    }
}

#[test]
fn hid_devices_filtered_and_deduplicated() {
    let mut k = known();
    k[1].family = DeviceFamily { code: 2, hid: true, kind: FamilyKind::Other };
    k.push(DeviceEntry { id: UsbId { vid: 0x1111, pid: 0x0001 }, family: LCD, name: "usb only", hid_usage_page: None });
    let list = vec![
        hid_entry(0x0cf2, 0xa100, 1, b"/dev/hidraw0", Some("S1")),
        hid_entry(0x0cf2, 0xa100, 2, b"/dev/hidraw1", Some("S1")),
        hid_entry(0x0cf2, 0xa100, 1, b"/dev/hidraw2", Some("S2")),
        hid_entry(0x0416, 0x7398, 0x0001, b"/dev/hidraw3", None),
        hid_entry(0x0416, 0x7398, 0xff1b, b"/dev/hidraw4", None),
        hid_entry(0x0416, 0x7398, 0xff1b, b"/dev/hidraw5", None),
        hid_entry(0x1111, 0x0001, 0, b"/dev/hidraw6", None),
        hid_entry(0x9999, 0x0001, 0, b"/dev/hidraw7", None),
    ];
    let scan = vec![scanned(0x0416, 0x7398, 3, 2, Some(vec![4, 1]), None)];
    let found = enumerate_hid_devices(&list, &k, &scan);
    let paths: Vec<&[u8]> = found.iter().map(|d| d.path.as_slice()).collect();
    assert_eq!(
        paths,
        vec![&b"/dev/hidraw0"[..], &b"/dev/hidraw2"[..], &b"/dev/hidraw4"[..], &b"/dev/hidraw5"[..]]
    );
    assert_eq!(found[2].usb_port_path.as_deref(), Some("3-4.1"));
    assert_eq!(found[0].usb_port_path, None);
    assert_eq!(found[1].serial.as_deref(), Some("S2"));
    assert_eq!(found[2].name, "HydroShift");
    let fans = find_hid_devices_by_family(found, FAN);
    assert_eq!(fans.len(), 2);
}

#[test]
fn hid_device_ids() {
    let dev = |serial: Option<&str>, port: Option<&str>, path: &[u8]| DetectedHidDevice {
        family: FAN,
        name: "x",
        vid: 0x0cf2,
        pid: 0xa100,
        path: path.to_vec(),
        serial: serial.map(|s| s.to_string()),
        usb_port_path: port.map(|s| s.to_string()),
    };
    assert_eq!(dev(Some("ABC"), None, b"p").device_id(), "hid:ABC");
    assert_eq!(dev(Some("Nuvoton"), Some("1-2.3"), b"p").device_id(), "hid:0cf2:a100:1-2.3");
    // Hash of "ab": (0 * 31 + 97) * 31 + 98 = 3105 = 0x0c21.
    assert_eq!(dev(None, None, b"ab").device_id(), "hid:0cf2:a100:0c21");
    let long = vec![0xffu8; 40];
    let mut h: u32 = 0;
    for b in &long {
        h = h.wrapping_mul(31).wrapping_add(*b as u32);
    }
    assert_eq!(dev(Some("TL_LCDV2"), None, &long).device_id(), format!("hid:0cf2:a100:{:04x}", h as u16));
}
