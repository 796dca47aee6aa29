use lianli::backends::{
    hid_lcd_controller, lcd_attempt_action, lcd_attempt_outcome, lcd_family_supported, HidLcdController,
    LcdOpenAction, LcdOpenError, LcdOpenOutcome, RESET_DELAY_MS,
};
use lianli::detect::{DeviceFamily, FamilyKind};
use lianli::live_encoder::{check_frame_size, FrameSizeMismatch};
use lianli::sensor_list::sort_by_display_name;
use lianli::sensors::{
    infer_sensor_category, pick_source_for_category, SensorCategory, SensorInfo, SensorName, SensorSource, Unit,
};
use lianli::turzx::fragment_stream_a;
use lianli::widgets::{resolve_font, FontRef};

fn family(kind: FamilyKind) -> DeviceFamily {
    DeviceFamily { code: 40, hid: true, kind }
}

#[test]
fn lcd_families_and_controllers() {
    assert_eq!(hid_lcd_controller(family(FamilyKind::HydroShiftLcd)), Some(HidLcdController::HydroShift));
    assert_eq!(hid_lcd_controller(family(FamilyKind::Galahad2Lcd)), Some(HidLcdController::HydroShift));
    assert_eq!(hid_lcd_controller(family(FamilyKind::TlLcd)), Some(HidLcdController::TlLcd));
    assert_eq!(hid_lcd_controller(family(FamilyKind::Other)), None);
    assert!(lcd_family_supported(family(FamilyKind::TlLcd)));
    assert!(!lcd_family_supported(family(FamilyKind::Other)));
}

#[test]
fn lcd_attempt_outcomes_and_actions() {
    let tl = family(FamilyKind::TlLcd);
    let other = family(FamilyKind::Other);
    assert_eq!(lcd_attempt_outcome(None, true), LcdOpenOutcome::NotFound);
    assert_eq!(lcd_attempt_outcome(Some(other), true), LcdOpenOutcome::Unsupported);
    assert_eq!(lcd_attempt_outcome(Some(tl), true), LcdOpenOutcome::Opened);
    assert_eq!(lcd_attempt_outcome(Some(tl), false), LcdOpenOutcome::OpenFailed);

    assert_eq!(
        lcd_attempt_action(0, Some(other), true, true),
        LcdOpenAction::Fail(LcdOpenError::FamilyWithoutLcd)
    );
    assert_eq!(lcd_attempt_action(2, Some(tl), true, false), LcdOpenAction::Done);
    assert_eq!(
        lcd_attempt_action(1, Some(tl), false, true),
        LcdOpenAction::ResetAndRetry { delay_ms: RESET_DELAY_MS }
    );
    assert_eq!(
        lcd_attempt_action(3, None, false, true),
        LcdOpenAction::Fail(LcdOpenError::NoHidDevice)
    );
    assert_eq!(
        lcd_attempt_action(0, None, false, false),
        LcdOpenAction::Fail(LcdOpenError::NoUsbDeviceForReset)
    );
}

#[test]
fn frame_size_is_width_by_height_by_four() {
    assert_eq!(check_frame_size(480 * 480 * 4, 480, 480), Ok(()));
    assert_eq!(
        check_frame_size(100, 480, 480),
        Err(FrameSizeMismatch { got: 100, expected: 921_600 })
    );
    assert_eq!(check_frame_size(0, 0, 7), Ok(()));
    assert_eq!(
        check_frame_size(0, u32::MAX, u32::MAX),
        Err(FrameSizeMismatch { got: 0, expected: (u32::MAX as u128) * (u32::MAX as u128) * 4 })
    );
}

#[test]
fn fonts_resolve_to_loaded_file_or_default() {
    let fonts: Vec<(String, u32)> = vec![("/a.ttf".to_string(), 1), ("/b.ttf".to_string(), 2)];
    let default: u32 = 0;
    assert_eq!(*resolve_font(&FontRef { path: Some("/b.ttf".to_string()) }, &fonts, &default), 2);
    assert_eq!(*resolve_font(&FontRef { path: Some("/c.ttf".to_string()) }, &fonts, &default), 0);
    assert_eq!(*resolve_font(&FontRef { path: None }, &fonts, &default), 0);
    assert_eq!(*resolve_font(&FontRef { path: Some("/a.ttf".to_string()) }, &[], &default), 0);
}

fn named(device: &str, label: &str) -> SensorInfo {
    SensorInfo {
        source: SensorSource::Hwmon { name: "nct6798".to_string(), label: label.to_string(), device_path: "p".to_string() },
        sensor_name: Some(SensorName { device_name: device.to_string(), sensor_name: label.to_string() }),
        display_name: None,
        divider: 1000,
        unit: Unit::C,
    }
}

fn labels(v: &[SensorInfo]) -> Vec<String> {
    v.iter().map(|s| s.sensor_name.as_ref().unwrap().sensor_name.clone()).collect()
}

#[test]
fn device_sensors_sorted_by_display_name() {
    let v = vec![
        named("Board", "SYSTIN"),
        named("Board", "CPUTIN"),
        named("Board", "AUXTIN0"),
        named("Board", "Fan 2"),
        named("Board", "Fan 10"),
    ];
    let sorted = sort_by_display_name(v);
    assert_eq!(labels(&sorted), vec!["AUXTIN0", "CPUTIN", "Fan 10", "Fan 2", "SYSTIN"]);
    assert!(sort_by_display_name(Vec::new()).is_empty());

    // Equal names keep their order; the divider tells the two apart.
    let mut a = named("Board", "temp");
    a.divider = 1;
    let mut b = named("Board", "temp");
    b.divider = 2;
    let sorted = sort_by_display_name(vec![named("Board", "zeta"), a, b]);
    let dividers: Vec<usize> = sorted.iter().map(|s| s.divider).collect();
    assert_eq!(dividers, vec![1, 2, 1000]);
}

fn payloads(urbs: &[Vec<u8>]) -> (Vec<u8>, Vec<u32>) {
    let mut data = Vec::new();
    let mut offsets = Vec::new();
    for u in urbs {
        let off = ((u[2] as u32) << 16) | ((u[3] as u32) << 8) | u[4] as u32;
        let size = ((u[5] as usize) << 16) | ((u[6] as usize) << 8) | u[7] as usize;
        offsets.push(off);
        data.extend_from_slice(&u[8..8 + size]);
    }
    (data, offsets)
}

#[test]
fn stream_a_reassembles_with_a_huge_urb_limit() {
    let packet: Vec<u8> = (0..5000u32).map(|i| (i % 251) as u8).collect();
    let urbs = fragment_stream_a(&packet, usize::MAX);
    assert_eq!(urbs.len(), 1);
    let (data, offsets) = payloads(&urbs);
    assert_eq!(data, packet);
    assert_eq!(offsets, vec![0]);

    let urbs = fragment_stream_a(&packet, 0x200_0000);
    let (data, _) = payloads(&urbs);
    assert_eq!(data, packet);
}

fn amd(label: &str) -> SensorInfo {
    SensorInfo {
        source: SensorSource::Hwmon { name: "amdgpu".to_string(), label: label.to_string(), device_path: "p".to_string() },
        sensor_name: None,
        display_name: None,
        divider: 1000,
        unit: Unit::C,
    }
}

#[test]
fn gpu_fallback_with_temp_label_is_inferred_back() {
    let sensors = vec![amd("Junction Temp"), amd("mem")];
    let picked = pick_source_for_category(SensorCategory::GpuTemp, &sensors, None, None).unwrap();
    assert_eq!(infer_sensor_category(&picked), Some(SensorCategory::GpuTemp));

    let sensors = vec![amd("junction"), amd("mem")];
    let picked = pick_source_for_category(SensorCategory::GpuTemp, &sensors, None, None).unwrap();
    assert_eq!(infer_sensor_category(&picked), None);
}
