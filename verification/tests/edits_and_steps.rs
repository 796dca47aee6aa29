use lianli::binding::{
    bind_start, bind_step, BindAction, BindEvent, BindPhase, BindState, HIDRAW_POLL_MS, REENUMERATE_WAIT_MS,
};
use lianli::detect::{DeviceFamily, FamilyKind};
use lianli::gui_fan::{
    add_fan_curve, remove_curve_point, remove_fan_curve, rename_fan_curve, set_curve_command, FanCurve,
};
use lianli::gui_lcd::{
    add_lcd, apply_lcd_field_edit, default_sensor, lcd_field_edit, remove_lcd, update_lcd_field, LcdConfig,
    LcdFieldEdit, MediaType,
};
use lianli::hid_detect::{select_hid_lcd, DetectedHidDevice};
use lianli::live_encoder::live_encoder_args;
use lianli::sensors::SensorSourceConfig;
use lianli::service::parse_mac_str;
use lianli::turzx::{pack_fragment, pack_frame, COMMIT, MAGIC};
use lianli::widgets::{widget_font_refs, widget_sensor_source, FontRef, WidgetKind};

const DEFAULT_COMMAND: &str = "cat /sys/class/thermal/thermal_zone0/temp | awk '{print $1/1000}'";

fn run(count: usize, events: Vec<BindEvent>) -> (BindState, Vec<BindAction>) {
    let (mut s, a) = bind_start(count);
    let mut actions = vec![a];
    for e in &events {
        let (n, a) = bind_step(s, e);
        s = n;
        actions.push(a);
    }
    (s, actions)
}

#[test]
fn binding_with_nothing_missing_does_nothing() {
    let (s, a) = bind_start(0);
    assert_eq!(a, BindAction::Done);
    assert_eq!(s.phase, BindPhase::Finished);
}

#[test]
fn binding_hidraw_after_nudge_needs_no_reset_or_wait() {
    let (s, actions) = run(
        1,
        vec![
            BindEvent::UsbLocated { found: true },
            BindEvent::Probed { responds: true },
            BindEvent::HidrawPolled { appeared: true },
        ],
    );
    assert_eq!(
        actions,
        vec![
            BindAction::LocateUsb { index: 0 },
            BindAction::ProbeDescriptor,
            BindAction::NudgeAndPoll { wait_ms: 2000 },
            BindAction::Done,
        ]
    );
    assert_eq!(s.resets, 0);
    assert_eq!(HIDRAW_POLL_MS, 2000);
}

#[test]
fn binding_resets_after_nudge_without_hidraw_then_waits() {
    let (s, actions) = run(
        2,
        vec![
            BindEvent::UsbLocated { found: false },
            BindEvent::UsbLocated { found: true },
            BindEvent::Probed { responds: true },
            BindEvent::HidrawPolled { appeared: false },
            BindEvent::ResetOk,
        ],
    );
    assert_eq!(
        actions,
        vec![
            BindAction::LocateUsb { index: 0 },
            BindAction::LocateUsb { index: 1 },
            BindAction::ProbeDescriptor,
            BindAction::NudgeAndPoll { wait_ms: 2000 },
            BindAction::ResetDevice,
            BindAction::Sleep { ms: 3000 },
        ]
    );
    assert_eq!(s.resets, 1);
    assert_eq!(REENUMERATE_WAIT_MS, 3000);
}

#[test]
fn binding_counts_reenumeration_but_not_other_failures() {
    let (s, actions) = run(
        2,
        vec![
            BindEvent::UsbLocated { found: true },
            BindEvent::Probed { responds: false },
            BindEvent::ResetFailed { message: String::from("Access denied (insufficient permissions)") },
            BindEvent::UsbLocated { found: true },
            BindEvent::Probed { responds: false },
            BindEvent::ResetFailed { message: String::from("Entity not found") },
        ],
    );
    assert_eq!(actions[2], BindAction::ResetDevice);
    assert_eq!(actions[3], BindAction::LocateUsb { index: 1 });
    assert_eq!(actions[6], BindAction::Sleep { ms: 3000 });
    assert_eq!(s.resets, 1);

    let (s, actions) = run(
        1,
        vec![
            BindEvent::UsbLocated { found: true },
            BindEvent::Probed { responds: false },
            BindEvent::ResetFailed { message: String::from("Pipe error") },
        ],
    );
    assert_eq!(actions[3], BindAction::Done);
    assert_eq!(s.resets, 0);
}

#[test]
fn binding_ignores_an_event_that_does_not_fit() {
    let (s, _) = bind_start(1);
    let (n, a) = bind_step(s, &BindEvent::ResetOk);
    assert_eq!(n, s);
    assert_eq!(a, BindAction::LocateUsb { index: 0 });
}

fn points_of(c: &FanCurve) -> Vec<(f32, f32)> {
    c.curve.iter().map(|(t, s)| (f32::from_bits(*t), f32::from_bits(*s))).collect()
}

#[test]
fn fan_curves_are_added_numbered_with_defaults() {
    let mut curves: Vec<FanCurve> = Vec::new();
    add_fan_curve(&mut curves);
    add_fan_curve(&mut curves);
    assert_eq!(curves.len(), 2);
    assert_eq!(curves[0].name, "curve-1");
    assert_eq!(curves[1].name, "curve-2");
    assert_eq!(curves[1].temp_command, DEFAULT_COMMAND);
    assert_eq!(points_of(&curves[0]), vec![(30.0, 30.0), (50.0, 50.0), (70.0, 80.0), (85.0, 100.0)]);
}

#[test]
fn fan_curve_edits_by_index() {
    let mut curves: Vec<FanCurve> = Vec::new();
    for _ in 0..3 {
        add_fan_curve(&mut curves);
    }
    assert!(rename_fan_curve(&mut curves, 1, "gpu"));
    assert!(!rename_fan_curve(&mut curves, 3, "nope"));
    assert!(set_curve_command(&mut curves, 2, "echo 40"));
    assert!(!set_curve_command(&mut curves, 9, "echo 50"));
    assert_eq!(curves[1].name, "gpu");
    assert_eq!(curves[1].temp_command, DEFAULT_COMMAND);
    assert_eq!(curves[2].temp_command, "echo 40");
    assert_eq!(curves[2].name, "curve-3");

    assert!(remove_curve_point(&mut curves, 0, 1));
    assert_eq!(points_of(&curves[0]), vec![(30.0, 30.0), (70.0, 80.0), (85.0, 100.0)]);
    assert!(!remove_curve_point(&mut curves, 0, 3));
    assert!(!remove_curve_point(&mut curves, 5, 0));
    assert_eq!(curves[0].curve.len(), 3);

    assert!(remove_fan_curve(&mut curves, 0));
    assert!(!remove_fan_curve(&mut curves, 2));
    let names: Vec<&str> = curves.iter().map(|c| c.name.as_str()).collect();
    assert_eq!(names, vec!["gpu", "curve-3"]);
    // Numbering follows the list length, so a name can come back.
    add_fan_curve(&mut curves);
    assert_eq!(curves[2].name, "curve-3");
}

#[test]
fn lcd_entries_are_added_and_removed() {
    let mut lcds: Vec<LcdConfig> = Vec::new();
    add_lcd(&mut lcds);
    add_lcd(&mut lcds);
    let l = &lcds[0];
    assert_eq!(l.index, None);
    assert_eq!(l.serial, None);
    assert_eq!(l.media_type, MediaType::Image);
    assert_eq!(l.path, None);
    assert_eq!(l.fps_bits.map(f32::from_bits), Some(30.0));
    assert_eq!(f32::from_bits(l.orientation_bits), 0.0);
    assert!(l.sensor.is_none());
    assert!(update_lcd_field(&mut lcds, 1, "serial", "ABC", 0));
    assert!(!remove_lcd(&mut lcds, 2));
    assert_eq!(lcds.len(), 2);
    assert!(remove_lcd(&mut lcds, 0));
    assert_eq!(lcds.len(), 1);
    assert_eq!(lcds[0].serial.as_deref(), Some("ABC"));
}

#[test]
fn lcd_field_edits_apply_to_entries() {
    let mut lcds: Vec<LcdConfig> = Vec::new();
    add_lcd(&mut lcds);
    assert!(update_lcd_field(&mut lcds, 0, "media_type", "GIF", 0));
    assert_eq!(lcds[0].media_type, MediaType::Gif);
    assert!(update_lcd_field(&mut lcds, 0, "media_type", "Hologram", 0));
    assert_eq!(lcds[0].media_type, MediaType::Gif);
    assert!(update_lcd_field(&mut lcds, 0, "path", "/tmp/a.gif", 0));
    assert_eq!(lcds[0].path.as_deref(), Some("/tmp/a.gif"));
    assert!(update_lcd_field(&mut lcds, 0, "orientation", "90", 90.0f32.to_bits()));
    assert_eq!(f32::from_bits(lcds[0].orientation_bits), 90.0);
    assert!(update_lcd_field(&mut lcds, 0, "brightness", "50", 0));
    assert!(lcds[0].sensor.is_none());
    assert!(!update_lcd_field(&mut lcds, 1, "serial", "X", 0));

    assert!(update_lcd_field(&mut lcds, 0, "sensor_unit", "%", 0));
    let s = lcds[0].sensor.as_ref().unwrap();
    assert_eq!(s.unit, "%");
    assert_eq!(s.label, "CPU");
    assert!(matches!(&s.source, SensorSourceConfig::Command { cmd } if cmd.is_empty()));
    assert!(update_lcd_field(&mut lcds, 0, "sensor_command", "echo 42", 0));
    assert!(update_lcd_field(&mut lcds, 0, "sensor_font_path", "/f.ttf", 0));
    let s = lcds[0].sensor.as_ref().unwrap();
    assert_eq!(s.unit, "%");
    assert!(matches!(&s.source, SensorSourceConfig::Command { cmd } if cmd == "echo 42"));
    assert_eq!(s.font_path.as_deref(), Some("/f.ttf"));

    let mut lcd = LcdConfig {
        index: Some(1),
        serial: None,
        media_type: MediaType::Video,
        path: None,
        fps_bits: None,
        orientation_bits: 0,
        sensor: None,
    };
    apply_lcd_field_edit(&mut lcd, lcd_field_edit("sensor_label", "GPU"), 0);
    assert_eq!(lcd.sensor.as_ref().unwrap().label, "GPU");
    apply_lcd_field_edit(&mut lcd, LcdFieldEdit::Media(Some(MediaType::Sensor)), 0);
    assert_eq!(lcd.media_type, MediaType::Sensor);
    assert_eq!(lcd.index, Some(1));
}

#[test]
fn default_sensor_gauge() {
    let s = default_sensor();
    assert_eq!(s.label, "CPU");
    assert_eq!(s.unit, "°C");
    assert_eq!(s.text_color, [255, 255, 255]);
    assert_eq!(s.background_color, [0, 0, 0]);
    assert_eq!(s.gauge_background_color, [40, 40, 40]);
    assert_eq!(s.update_interval_ms, 1000);
    let floats: Vec<f32> = [
        s.gauge_start_angle_bits,
        s.gauge_sweep_angle_bits,
        s.gauge_outer_radius_bits,
        s.gauge_thickness_bits,
        s.bar_corner_radius_bits,
        s.value_font_size_bits,
        s.unit_font_size_bits,
        s.label_font_size_bits,
    ]
    .iter()
    .map(|b| f32::from_bits(*b))
    .collect();
    assert_eq!(floats, vec![135.0, 270.0, 200.0, 30.0, 5.0, 120.0, 40.0, 30.0]);
    assert_eq!(s.font_path, None);
    assert_eq!(s.decimal_places, 0);
    assert_eq!((s.value_offset, s.unit_offset, s.label_offset), (0, 0, 0));
}

fn font(p: &str) -> FontRef {
    FontRef { path: Some(p.to_string()) }
}

#[test]
fn widget_fonts_and_sources() {
    let label = WidgetKind::Label { font: font("/a.ttf") };
    let refs = widget_font_refs(&label);
    assert_eq!(refs.len(), 1);
    assert_eq!(refs[0].path.as_deref(), Some("/a.ttf"));
    assert!(widget_sensor_source(&label).is_none());

    let spark = WidgetKind::Sparkline { axis_label_font: font("/b.ttf"), source: SensorSourceConfig::CpuUsage };
    assert_eq!(widget_font_refs(&spark)[0].path.as_deref(), Some("/b.ttf"));
    assert!(matches!(widget_sensor_source(&spark), Some(SensorSourceConfig::CpuUsage)));

    let clock = WidgetKind::ClockAnalog { numbers_font: FontRef { path: None } };
    assert_eq!(widget_font_refs(&clock)[0].path, None);

    let gauge = WidgetKind::RadialGauge { source: SensorSourceConfig::MemUsage };
    assert!(widget_font_refs(&gauge).is_empty());
    assert!(matches!(widget_sensor_source(&gauge), Some(SensorSourceConfig::MemUsage)));
    assert!(widget_font_refs(&WidgetKind::Other).is_empty());
    assert!(widget_sensor_source(&WidgetKind::Other).is_none());
}

fn strings(v: &[&str]) -> Vec<String> {
    v.iter().map(|s| s.to_string()).collect()
}

#[test]
fn live_encoder_argument_list() {
    let args = live_encoder_args(
        &strings(&["-vaapi_device", "/dev/dri/renderD128"]),
        "480x480",
        "30",
        "transpose=1,format=nv12,hwupload",
        &strings(&["-c:v", "h264_vaapi", "-b:v", "1000000"]),
    );
    let expected = strings(&[
        "-loglevel", "error", "-vaapi_device", "/dev/dri/renderD128", "-f", "rawvideo", "-pix_fmt", "rgba",
        "-s", "480x480", "-r", "30", "-i", "pipe:0", "-vf", "transpose=1,format=nv12,hwupload", "-c:v",
        "h264_vaapi", "-b:v", "1000000", "-color_range", "pc", "-an", "-f", "h264", "pipe:1",
    ]);
    assert_eq!(args, expected);

    let args = live_encoder_args(&[], "320x240", "60", "", &strings(&["-c:v", "libx264"]));
    let expected = strings(&[
        "-loglevel", "error", "-f", "rawvideo", "-pix_fmt", "rgba", "-s", "320x240", "-r", "60", "-i",
        "pipe:0", "-c:v", "libx264", "-color_range", "pc", "-an", "-f", "h264", "pipe:1",
    ]);
    assert_eq!(args, expected);
}

#[test]
fn mac_format_then_parse_round_trips() {
    let macs = [[0u8, 1, 0x0a, 0x7f, 0x80, 0xff], [0xde, 0xad, 0xbe, 0xef, 0x00, 0x42]];
    for mac in macs {
        let lower = mac.iter().map(|b| format!("{:02x}", b)).collect::<Vec<_>>().join(":");
        let upper = mac.iter().map(|b| format!("{:02X}", b)).collect::<Vec<_>>().join(":");
        assert_eq!(parse_mac_str(&lower), Some(mac));
        assert_eq!(parse_mac_str(&upper), Some(mac));
    }
    assert_eq!(parse_mac_str("AA:BB:CC:DD:EE"), None);
    assert_eq!(parse_mac_str("AA:BB:CC:DD:EE:"), None);
    assert_eq!(parse_mac_str("AA:BB:CC:DD:EE:100"), None);
}

#[test]
fn frame_is_fragment_plus_commit() {
    for payload in [vec![], vec![1u8, 2, 3], vec![0xee; 300]] {
        let frame = pack_frame(0x21, 0x0102_0304, &payload);
        let mut expected = pack_fragment(0x21, 0x0102_0304, &payload);
        expected.extend([MAGIC, COMMIT]);
        assert_eq!(frame, expected);
        assert_eq!(frame.len(), payload.len() + 10);
    }
}

const FAMILY_A: DeviceFamily = DeviceFamily { code: 7, hid: true, kind: FamilyKind::Other };
const FAMILY_B: DeviceFamily = DeviceFamily { code: 8, hid: true, kind: FamilyKind::Other };

fn hid(family: DeviceFamily, vid: u16, pid: u16) -> DetectedHidDevice {
    DetectedHidDevice {
        family,
        name: "x",
        vid,
        pid,
        path: vec![1],
        serial: None,
        usb_port_path: None,
    }
}

#[test]
fn hid_lcd_selected_by_family_and_ids() {
    let devices = vec![
        hid(FAMILY_B, 0x0416, 0x7395),
        hid(FAMILY_A, 0x0416, 0x7391),
        hid(FAMILY_A, 0x0416, 0x7395),
        hid(FAMILY_A, 0x0416, 0x7395),
    ];
    assert_eq!(select_hid_lcd(&devices, FAMILY_A, 0x0416, 0x7395), Some(2));
    assert_eq!(select_hid_lcd(&devices, FAMILY_B, 0x0416, 0x7395), Some(0));
    assert_eq!(select_hid_lcd(&devices, FAMILY_B, 0x0416, 0x7391), None);
    assert_eq!(select_hid_lcd(&[], FAMILY_A, 0x0416, 0x7395), None);
}
