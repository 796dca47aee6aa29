use lianli::gui_fan::{fan_set_slot_pwm, fan_set_slot_speed, fan_speed_for_choice, FanConfig, FanGroup, FanSpeed};
use lianli::gui_lcd::{lcd_field_edit, media_type_for_choice, LcdFieldEdit, MediaType};
use lianli::gui_rgb::{
    apply_effect_edit, copy_effect, default_effect, edit_zone_effect, get_or_create_device_config,
    get_or_create_zone_config, parse_rgb_direction, parse_rgb_mode, parse_rgb_scope, rgb_apply_to_all,
    rgb_effect_request, rgb_toggle_mb_sync, rgb_toggle_swap, set_openrgb_server, with_zone_effect,
    EffectEdit, RgbAppConfig, RgbDeviceConfig, RgbDirection, RgbMode, RgbRequest, RgbScope, SwapAxis,
};

fn speed_is(s: &FanSpeed, c: Option<u8>, curve: Option<&str>) -> bool {
    match s {
        FanSpeed::Constant(v) => c == Some(*v) && curve.is_none(),
        FanSpeed::Curve(n) => curve == Some(n.as_str()) && c.is_none(),
    }
}

#[test]
fn rgb_names_parse() {
    assert_eq!(parse_rgb_mode("Breathing"), RgbMode::Breathing);
    assert_eq!(parse_rgb_mode("ColorsMorph"), RgbMode::ColorsMorph);
    assert_eq!(parse_rgb_mode("breathing"), RgbMode::Off);
    assert_eq!(parse_rgb_mode(""), RgbMode::Off);
    assert_eq!(parse_rgb_direction("Gather"), RgbDirection::Gather);
    assert_eq!(parse_rgb_direction("Sideways"), RgbDirection::Clockwise);
    assert_eq!(parse_rgb_scope("Outer"), RgbScope::Outer);
    assert_eq!(parse_rgb_scope("Middle"), RgbScope::All);
}

#[test]
fn rgb_mode_names_roundtrip() {
    let modes = [
        RgbMode::Off, RgbMode::Direct, RgbMode::Static, RgbMode::Rainbow, RgbMode::RainbowMorph,
        RgbMode::Breathing, RgbMode::Runway, RgbMode::Meteor, RgbMode::ColorCycle,
        RgbMode::Staggered, RgbMode::Tide, RgbMode::Mixing, RgbMode::Voice, RgbMode::Door,
        RgbMode::Render, RgbMode::Ripple, RgbMode::Reflect, RgbMode::TailChasing, RgbMode::Paint,
        RgbMode::PingPong, RgbMode::Stack, RgbMode::CoverCycle, RgbMode::Wave, RgbMode::Racing,
        RgbMode::Lottery, RgbMode::Intertwine, RgbMode::MeteorShower, RgbMode::Collide,
        RgbMode::ElectricCurrent, RgbMode::Kaleidoscope, RgbMode::BigBang, RgbMode::Vortex,
        RgbMode::Pump, RgbMode::ColorsMorph,
    ];
    for m in modes {
        assert_eq!(parse_rgb_mode(m.name()), m);
        assert_eq!(m.name(), format!("{:?}", m));
    }
    for d in [
        RgbDirection::Clockwise, RgbDirection::CounterClockwise, RgbDirection::Up,
        RgbDirection::Down, RgbDirection::Spread, RgbDirection::Gather,
    ] {
        assert_eq!(parse_rgb_direction(&format!("{:?}", d)), d);
    }
    for s in [RgbScope::All, RgbScope::Top, RgbScope::Bottom, RgbScope::Inner, RgbScope::Outer] {
        assert_eq!(parse_rgb_scope(&format!("{:?}", s)), s);
    }
}

#[test]
fn default_effect_is_static_white() {
    let e = default_effect();
    assert_eq!(e.mode, RgbMode::Static);
    assert_eq!(e.colors, vec![[255, 255, 255]]);
    assert_eq!((e.speed, e.brightness), (2, 4));
    assert_eq!(e.direction, RgbDirection::Clockwise);
    assert_eq!(e.scope, RgbScope::All);
}

#[test]
fn color_edit_pads_with_white() {
    let mut e = default_effect();
    apply_effect_edit(&mut e, EffectEdit::Color { index: 3, rgb: [1, 2, 3] });
    assert_eq!(e.colors, vec![[255, 255, 255], [255, 255, 255], [255, 255, 255], [1, 2, 3]]);
    apply_effect_edit(&mut e, EffectEdit::Color { index: 0, rgb: [9, 9, 9] });
    assert_eq!(e.colors[0], [9, 9, 9]);
    assert_eq!(e.colors.len(), 4);
    apply_effect_edit(&mut e, EffectEdit::Speed(7));
    apply_effect_edit(&mut e, EffectEdit::Brightness(1));
    apply_effect_edit(&mut e, EffectEdit::Mode(RgbMode::Wave));
    apply_effect_edit(&mut e, EffectEdit::Direction(RgbDirection::Up));
    apply_effect_edit(&mut e, EffectEdit::Scope(RgbScope::Inner));
    assert_eq!((e.speed, e.brightness, e.mode, e.direction, e.scope), (7, 1, RgbMode::Wave, RgbDirection::Up, RgbScope::Inner));
    let c = copy_effect(&e);
    assert_eq!(c.colors, e.colors);
    assert_eq!(c.mode, e.mode);
}

#[test]
fn get_or_create_is_idempotent() {
    let mut rgb = RgbAppConfig::empty();
    let a = get_or_create_device_config(&mut rgb, "hid:A");
    let b = get_or_create_device_config(&mut rgb, "hid:B");
    let a2 = get_or_create_device_config(&mut rgb, "hid:A");
    assert_eq!((a, b, a2), (0, 1, 0));
    assert_eq!(rgb.devices.len(), 2);
    assert!(!rgb.devices[1].mb_rgb_sync);
    let z = get_or_create_zone_config(&mut rgb.devices[0], 2);
    let z2 = get_or_create_zone_config(&mut rgb.devices[0], 2);
    assert_eq!((z, z2), (0, 0));
    assert_eq!(rgb.devices[0].zones.len(), 1);
    assert_eq!(rgb.devices[0].zones[0].zone_index, 2);
    assert_eq!(rgb.devices[0].zones[0].effect.mode, RgbMode::Static);
}

#[test]
fn zone_edit_is_stored_and_returned() {
    let mut rgb = RgbAppConfig::empty();
    let e = edit_zone_effect(&mut rgb, "hid:A", 1, EffectEdit::Mode(RgbMode::Rainbow));
    assert_eq!(e.mode, RgbMode::Rainbow);
    assert_eq!(rgb.devices[0].device_id, "hid:A");
    assert_eq!(rgb.devices[0].zones[0].zone_index, 1);
    assert_eq!(rgb.devices[0].zones[0].effect.mode, RgbMode::Rainbow);
}

#[test]
fn with_zone_effect_without_loaded_config_uses_default() {
    let mut cfg: Option<Option<RgbAppConfig>> = None;
    let e = with_zone_effect(&mut cfg, "hid:A", 0, EffectEdit::Speed(9));
    assert_eq!(e.speed, 9);
    assert_eq!(e.mode, RgbMode::Static);
    assert!(cfg.is_none());
}

#[test]
fn with_zone_effect_creates_rgb_section() {
    let mut cfg: Option<Option<RgbAppConfig>> = Some(None);
    let e = with_zone_effect(&mut cfg, "hid:A", 3, EffectEdit::Brightness(0));
    assert_eq!(e.brightness, 0);
    let rgb = cfg.as_ref().unwrap().as_ref().unwrap();
    assert_eq!(rgb.devices.len(), 1);
    assert_eq!(rgb.devices[0].zones[0].effect.brightness, 0);
    assert!(!rgb.openrgb_server);
}

#[test]
fn effect_request_carries_new_effect() {
    let mut cfg: Option<Option<RgbAppConfig>> = Some(Some(RgbAppConfig::empty()));
    let r = rgb_effect_request(&mut cfg, "hid:X", 2, EffectEdit::Scope(RgbScope::Top));
    match r {
        RgbRequest::SetRgbEffect { device_id, zone, effect } => {
            assert_eq!(device_id, "hid:X");
            assert_eq!(zone, 2);
            assert_eq!(effect.scope, RgbScope::Top);
        }
        other => panic!("unexpected request {:?}", other),
    }
}

#[test]
fn mb_sync_applies_to_sibling_ports() {
    let mut rgb = RgbAppConfig::empty();
    get_or_create_device_config(&mut rgb, "hid:CTRL:port0");
    get_or_create_device_config(&mut rgb, "hid:CTRL:port1");
    get_or_create_device_config(&mut rgb, "hid:OTHER");
    let mut cfg = Some(Some(rgb));
    let r = rgb_toggle_mb_sync(&mut cfg, "hid:CTRL:port2", true);
    match r {
        RgbRequest::SetMbRgbSync { device_id, enabled } => {
            assert_eq!(device_id, "hid:CTRL:port2");
            assert!(enabled);
        }
        other => panic!("unexpected request {:?}", other),
    }
    let rgb = cfg.unwrap().unwrap();
    let flags: Vec<(&str, bool)> = rgb.devices.iter().map(|d| (d.device_id.as_str(), d.mb_rgb_sync)).collect();
    assert_eq!(
        flags,
        vec![("hid:CTRL:port0", true), ("hid:CTRL:port1", true), ("hid:OTHER", false), ("hid:CTRL:port2", true)]
    );
}

#[test]
fn mb_sync_without_config_only_requests() {
    let mut cfg: Option<Option<RgbAppConfig>> = None;
    let r = rgb_toggle_mb_sync(&mut cfg, "hid:A", false);
    assert!(matches!(r, RgbRequest::SetMbRgbSync { enabled: false, .. }));
    assert!(cfg.is_none());
}

#[test]
fn swap_toggles_twice_restore() {
    let mut cfg = Some(Some(RgbAppConfig::empty()));
    let r1 = rgb_toggle_swap(&mut cfg, "hid:A", 0, SwapAxis::LeftRight).unwrap();
    assert!(matches!(r1, RgbRequest::SetFanDirection { swap_lr: true, swap_tb: false, zone: 0, .. }));
    let r2 = rgb_toggle_swap(&mut cfg, "hid:A", 0, SwapAxis::TopBottom).unwrap();
    assert!(matches!(r2, RgbRequest::SetFanDirection { swap_lr: true, swap_tb: true, .. }));
    let r3 = rgb_toggle_swap(&mut cfg, "hid:A", 0, SwapAxis::LeftRight).unwrap();
    assert!(matches!(r3, RgbRequest::SetFanDirection { swap_lr: false, swap_tb: true, .. }));
    let mut none: Option<Option<RgbAppConfig>> = None;
    assert!(rgb_toggle_swap(&mut none, "hid:A", 0, SwapAxis::LeftRight).is_none());
}

#[test]
fn openrgb_server_flag() {
    let mut cfg: Option<Option<RgbAppConfig>> = Some(None);
    assert!(set_openrgb_server(&mut cfg, true));
    assert!(cfg.as_ref().unwrap().as_ref().unwrap().openrgb_server);
    let mut none: Option<Option<RgbAppConfig>> = None;
    assert!(!set_openrgb_server(&mut none, true));
}

#[test]
fn apply_to_all_uses_first_zone_effect() {
    let mut rgb = RgbAppConfig::empty();
    edit_zone_effect(&mut rgb, "hid:A", 5, EffectEdit::Mode(RgbMode::Meteor));
    edit_zone_effect(&mut rgb, "hid:A", 1, EffectEdit::Mode(RgbMode::Tide));
    let cfg = Some(Some(rgb));
    let reqs = rgb_apply_to_all(&cfg, "hid:A");
    assert_eq!(reqs.len(), 2);
    let zones: Vec<(u8, RgbMode)> = reqs
        .iter()
        .map(|r| match r {
            RgbRequest::SetRgbEffect { zone, effect, .. } => (*zone, effect.mode),
            other => panic!("unexpected request {:?}", other),
        })
        .collect();
    assert_eq!(zones, vec![(5, RgbMode::Meteor), (1, RgbMode::Meteor)]);
    assert!(rgb_apply_to_all(&cfg, "hid:B").is_empty());
    let empty_dev = Some(Some(RgbAppConfig {
        devices: vec![RgbDeviceConfig { device_id: "hid:C".to_string(), mb_rgb_sync: false, zones: vec![] }],
        openrgb_server: false,
    }));
    assert!(rgb_apply_to_all(&empty_dev, "hid:C").is_empty());
    assert!(rgb_apply_to_all(&None, "hid:A").is_empty());
}

#[test]
fn fan_speed_choices() {
    assert!(speed_is(&fan_speed_for_choice("Off"), Some(0), None));
    assert!(speed_is(&fan_speed_for_choice("Constant PWM"), Some(128), None));
    assert!(speed_is(&fan_speed_for_choice("MB Sync"), None, Some("__mb_sync__")));
    assert!(speed_is(&fan_speed_for_choice("curve-1"), None, Some("curve-1")));
}

#[test]
fn fan_slot_speed_creates_group() {
    let mut cfg: Option<Option<FanConfig>> = Some(None);
    assert!(fan_set_slot_speed(&mut cfg, "dev1", 2, "MB Sync"));
    let fc = cfg.as_ref().unwrap().as_ref().unwrap();
    assert_eq!(fc.update_interval_ms, 1000);
    assert_eq!(fc.speeds.len(), 1);
    assert_eq!(fc.speeds[0].device_id.as_deref(), Some("dev1"));
    assert!(speed_is(&fc.speeds[0].speeds[2], None, Some("__mb_sync__")));
    assert!(speed_is(&fc.speeds[0].speeds[0], Some(0), None));
    // A slot out of range still creates the device's group.
    assert!(fan_set_slot_speed(&mut cfg, "dev2", 4, "Off"));
    assert_eq!(cfg.as_ref().unwrap().as_ref().unwrap().speeds.len(), 2);
    let mut none: Option<Option<FanConfig>> = None;
    assert!(!fan_set_slot_speed(&mut none, "dev1", 0, "Off"));
    assert!(none.is_none());
}

#[test]
fn fan_slot_pwm_needs_existing_group() {
    let group = FanGroup {
        device_id: Some("dev1".to_string()),
        speeds: [FanSpeed::Constant(0), FanSpeed::Constant(0), FanSpeed::Constant(0), FanSpeed::Constant(0)],
    };
    let mut cfg = Some(Some(FanConfig { speeds: vec![group], update_interval_ms: 500 }));
    assert!(fan_set_slot_pwm(&mut cfg, "dev1", 1, 77));
    assert!(speed_is(&cfg.as_ref().unwrap().as_ref().unwrap().speeds[0].speeds[1], Some(77), None));
    assert!(!fan_set_slot_pwm(&mut cfg, "dev1", 4, 77));
    assert!(!fan_set_slot_pwm(&mut cfg, "dev9", 0, 77));
    let mut no_fans: Option<Option<FanConfig>> = Some(None);
    assert!(!fan_set_slot_pwm(&mut no_fans, "dev1", 0, 1));
    assert!(no_fans.as_ref().unwrap().is_none());
}

#[test]
fn lcd_media_choices() {
    assert_eq!(media_type_for_choice("Image"), Some(MediaType::Image));
    assert_eq!(media_type_for_choice("GIF"), Some(MediaType::Gif));
    assert_eq!(media_type_for_choice("Solid Color"), Some(MediaType::Color));
    assert_eq!(media_type_for_choice("Sensor Gauge"), Some(MediaType::Sensor));
    assert_eq!(media_type_for_choice("Video"), Some(MediaType::Video));
    assert_eq!(media_type_for_choice("gif"), None);
}

#[test]
fn lcd_field_edits() {
    assert!(matches!(lcd_field_edit("serial", "ABC"), LcdFieldEdit::Serial(s) if s == "ABC"));
    assert!(matches!(lcd_field_edit("media_type", "Video"), LcdFieldEdit::Media(Some(MediaType::Video))));
    assert!(matches!(lcd_field_edit("media_type", "Nope"), LcdFieldEdit::Media(None)));
    assert!(matches!(lcd_field_edit("path", "/a.png"), LcdFieldEdit::Path(s) if s == "/a.png"));
    assert!(matches!(lcd_field_edit("orientation", "90"), LcdFieldEdit::Orientation(s) if s == "90"));
    assert!(matches!(lcd_field_edit("sensor_label", "GPU"), LcdFieldEdit::SensorLabel(s) if s == "GPU"));
    assert!(matches!(lcd_field_edit("sensor_unit", "%"), LcdFieldEdit::SensorUnit(s) if s == "%"));
    assert!(matches!(lcd_field_edit("sensor_command", "echo 1"), LcdFieldEdit::SensorCommand(s) if s == "echo 1"));
    assert!(matches!(lcd_field_edit("sensor_font_path", "/f.ttf"), LcdFieldEdit::SensorFontPath(s) if s == "/f.ttf"));
    assert!(matches!(lcd_field_edit("fps", "30"), LcdFieldEdit::Ignored));
}
