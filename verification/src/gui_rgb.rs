//! RGB configuration editing done by the desktop GUI: parsing effect
//! names, finding or creating the configuration of a device and of one of
//! its zones, and applying one edit to a zone's effect.

use vstd::prelude::*;
use crate::text::{chars_to_string, copy_string, str_chars, str_is, starts_with, chars_eq, find, first_occurrence, push_all};

verus! {

/// Lighting mode of an RGB zone.
#[derive(Debug, Clone, Copy, PartialEq, Eq, Structural)]
pub enum RgbMode {
    Off,
    Direct,
    Static,
    Rainbow,
    RainbowMorph,
    Breathing,
    Runway,
    Meteor,
    ColorCycle,
    Staggered,
    Tide,
    Mixing,
    Voice,
    Door,
    Render,
    Ripple,
    Reflect,
    TailChasing,
    Paint,
    PingPong,
    Stack,
    CoverCycle,
    Wave,
    Racing,
    Lottery,
    Intertwine,
    MeteorShower,
    Collide,
    ElectricCurrent,
    Kaleidoscope,
    BigBang,
    Vortex,
    Pump,
    ColorsMorph,
}

/// Direction of an animated effect.
#[derive(Debug, Clone, Copy, PartialEq, Eq, Structural)]
pub enum RgbDirection {
    Clockwise,
    CounterClockwise,
    Up,
    Down,
    Spread,
    Gather,
}

/// Which LEDs of a fan an effect covers.
#[derive(Debug, Clone, Copy, PartialEq, Eq, Structural)]
pub enum RgbScope {
    All,
    Top,
    Bottom,
    Inner,
    Outer,
}

/// The name of each mode, as the GUI shows it.
pub open spec fn rgb_mode_name(m: RgbMode) -> Seq<char> {
    match m {
        RgbMode::Off => "Off"@,
        RgbMode::Direct => "Direct"@,
        RgbMode::Static => "Static"@,
        RgbMode::Rainbow => "Rainbow"@,
        RgbMode::RainbowMorph => "RainbowMorph"@,
        RgbMode::Breathing => "Breathing"@,
        RgbMode::Runway => "Runway"@,
        RgbMode::Meteor => "Meteor"@,
        RgbMode::ColorCycle => "ColorCycle"@,
        RgbMode::Staggered => "Staggered"@,
        RgbMode::Tide => "Tide"@,
        RgbMode::Mixing => "Mixing"@,
        RgbMode::Voice => "Voice"@,
        RgbMode::Door => "Door"@,
        RgbMode::Render => "Render"@,
        RgbMode::Ripple => "Ripple"@,
        RgbMode::Reflect => "Reflect"@,
        RgbMode::TailChasing => "TailChasing"@,
        RgbMode::Paint => "Paint"@,
        RgbMode::PingPong => "PingPong"@,
        RgbMode::Stack => "Stack"@,
        RgbMode::CoverCycle => "CoverCycle"@,
        RgbMode::Wave => "Wave"@,
        RgbMode::Racing => "Racing"@,
        RgbMode::Lottery => "Lottery"@,
        RgbMode::Intertwine => "Intertwine"@,
        RgbMode::MeteorShower => "MeteorShower"@,
        RgbMode::Collide => "Collide"@,
        RgbMode::ElectricCurrent => "ElectricCurrent"@,
        RgbMode::Kaleidoscope => "Kaleidoscope"@,
        RgbMode::BigBang => "BigBang"@,
        RgbMode::Vortex => "Vortex"@,
        RgbMode::Pump => "Pump"@,
        RgbMode::ColorsMorph => "ColorsMorph"@,
    }
}

/// All modes, in declaration order.
pub open spec fn all_modes() -> Seq<RgbMode> {
    seq![
        RgbMode::Off, RgbMode::Direct, RgbMode::Static, RgbMode::Rainbow, RgbMode::RainbowMorph,
        RgbMode::Breathing, RgbMode::Runway, RgbMode::Meteor, RgbMode::ColorCycle,
        RgbMode::Staggered, RgbMode::Tide, RgbMode::Mixing, RgbMode::Voice, RgbMode::Door,
        RgbMode::Render, RgbMode::Ripple, RgbMode::Reflect, RgbMode::TailChasing, RgbMode::Paint,
        RgbMode::PingPong, RgbMode::Stack, RgbMode::CoverCycle, RgbMode::Wave, RgbMode::Racing,
        RgbMode::Lottery, RgbMode::Intertwine, RgbMode::MeteorShower, RgbMode::Collide,
        RgbMode::ElectricCurrent, RgbMode::Kaleidoscope, RgbMode::BigBang, RgbMode::Vortex,
        RgbMode::Pump, RgbMode::ColorsMorph,
    ]
}

/// The first mode at or after position `i` of `all_modes` named `s`.
pub open spec fn mode_named_from(s: Seq<char>, i: int) -> Option<RgbMode>
    decreases all_modes().len() - i,
{
    if i < 0 || i >= all_modes().len() {
        None
    } else if rgb_mode_name(all_modes()[i]) == s {
        Some(all_modes()[i])
    } else {
        mode_named_from(s, i + 1)
    }
}

/// The mode named `s`, or `Off` when no mode has that name.
pub open spec fn parse_mode_spec(s: Seq<char>) -> RgbMode {
    match mode_named_from(s, 0) {
        Some(m) => m,
        None => RgbMode::Off,
    }
}

/// The mode with the given name (its variant name), `Off` for any other text.
pub fn parse_rgb_mode(s: &str) -> (r: RgbMode)
    ensures
        r == parse_mode_spec(s@),
{
    let modes: [RgbMode; 34] = [
        RgbMode::Off, RgbMode::Direct, RgbMode::Static, RgbMode::Rainbow, RgbMode::RainbowMorph,
        RgbMode::Breathing, RgbMode::Runway, RgbMode::Meteor, RgbMode::ColorCycle,
        RgbMode::Staggered, RgbMode::Tide, RgbMode::Mixing, RgbMode::Voice, RgbMode::Door,
        RgbMode::Render, RgbMode::Ripple, RgbMode::Reflect, RgbMode::TailChasing, RgbMode::Paint,
        RgbMode::PingPong, RgbMode::Stack, RgbMode::CoverCycle, RgbMode::Wave, RgbMode::Racing,
        RgbMode::Lottery, RgbMode::Intertwine, RgbMode::MeteorShower, RgbMode::Collide,
        RgbMode::ElectricCurrent, RgbMode::Kaleidoscope, RgbMode::BigBang, RgbMode::Vortex,
        RgbMode::Pump, RgbMode::ColorsMorph,
    ];
    assert(modes@ =~= all_modes());
    let mut i: usize = 0;
    while i < 34
        invariant
            i <= 34,
            modes@ == all_modes(),
            mode_named_from(s@, 0) == mode_named_from(s@, i as int),
        decreases 34 - i,
    {
        if str_is(s, modes[i].name()) {
            return modes[i];
        }
        i = i + 1;
    }
    RgbMode::Off
}

impl RgbMode {
    /// The name of this mode (its variant name).
    pub fn name(&self) -> (r: &'static str)
        ensures
            r@ == rgb_mode_name(*self),
    {
        match self {
            RgbMode::Off => "Off",
            RgbMode::Direct => "Direct",
            RgbMode::Static => "Static",
            RgbMode::Rainbow => "Rainbow",
            RgbMode::RainbowMorph => "RainbowMorph",
            RgbMode::Breathing => "Breathing",
            RgbMode::Runway => "Runway",
            RgbMode::Meteor => "Meteor",
            RgbMode::ColorCycle => "ColorCycle",
            RgbMode::Staggered => "Staggered",
            RgbMode::Tide => "Tide",
            RgbMode::Mixing => "Mixing",
            RgbMode::Voice => "Voice",
            RgbMode::Door => "Door",
            RgbMode::Render => "Render",
            RgbMode::Ripple => "Ripple",
            RgbMode::Reflect => "Reflect",
            RgbMode::TailChasing => "TailChasing",
            RgbMode::Paint => "Paint",
            RgbMode::PingPong => "PingPong",
            RgbMode::Stack => "Stack",
            RgbMode::CoverCycle => "CoverCycle",
            RgbMode::Wave => "Wave",
            RgbMode::Racing => "Racing",
            RgbMode::Lottery => "Lottery",
            RgbMode::Intertwine => "Intertwine",
            RgbMode::MeteorShower => "MeteorShower",
            RgbMode::Collide => "Collide",
            RgbMode::ElectricCurrent => "ElectricCurrent",
            RgbMode::Kaleidoscope => "Kaleidoscope",
            RgbMode::BigBang => "BigBang",
            RgbMode::Vortex => "Vortex",
            RgbMode::Pump => "Pump",
            RgbMode::ColorsMorph => "ColorsMorph",
        }
    }
}

/// The direction named `s`; `Clockwise` for any other text.
pub open spec fn parse_direction_spec(s: Seq<char>) -> RgbDirection {
    if s == "Clockwise"@ {
        RgbDirection::Clockwise
    } else if s == "CounterClockwise"@ {
        RgbDirection::CounterClockwise
    } else if s == "Up"@ {
        RgbDirection::Up
    } else if s == "Down"@ {
        RgbDirection::Down
    } else if s == "Spread"@ {
        RgbDirection::Spread
    } else if s == "Gather"@ {
        RgbDirection::Gather
    } else {
        RgbDirection::Clockwise
    }
}

/// The direction with the given name, `Clockwise` for any other text.
pub fn parse_rgb_direction(s: &str) -> (r: RgbDirection)
    ensures
        r == parse_direction_spec(s@),
{
    if str_is(s, "Clockwise") {
        RgbDirection::Clockwise
    } else if str_is(s, "CounterClockwise") {
        RgbDirection::CounterClockwise
    } else if str_is(s, "Up") {
        RgbDirection::Up
    } else if str_is(s, "Down") {
        RgbDirection::Down
    } else if str_is(s, "Spread") {
        RgbDirection::Spread
    } else if str_is(s, "Gather") {
        RgbDirection::Gather
    } else {
        RgbDirection::Clockwise
    }
}

/// The scope named `s`; `All` for any other text.
pub open spec fn parse_scope_spec(s: Seq<char>) -> RgbScope {
    if s == "All"@ {
        RgbScope::All
    } else if s == "Top"@ {
        RgbScope::Top
    } else if s == "Bottom"@ {
        RgbScope::Bottom
    } else if s == "Inner"@ {
        RgbScope::Inner
    } else if s == "Outer"@ {
        RgbScope::Outer
    } else {
        RgbScope::All
    }
}

/// The scope with the given name, `All` for any other text.
pub fn parse_rgb_scope(s: &str) -> (r: RgbScope)
    ensures
        r == parse_scope_spec(s@),
{
    if str_is(s, "All") {
        RgbScope::All
    } else if str_is(s, "Top") {
        RgbScope::Top
    } else if str_is(s, "Bottom") {
        RgbScope::Bottom
    } else if str_is(s, "Inner") {
        RgbScope::Inner
    } else if str_is(s, "Outer") {
        RgbScope::Outer
    } else {
        RgbScope::All
    }
}

/// One RGB effect.
#[derive(Debug)]
pub struct RgbEffect {
    pub mode: RgbMode,
    pub colors: Vec<[u8; 3]>,
    pub speed: u8,
    pub brightness: u8,
    pub direction: RgbDirection,
    pub scope: RgbScope,
}

/// The value of an `RgbEffect`.
pub struct RgbEffectView {
    pub mode: RgbMode,
    pub colors: Seq<[u8; 3]>,
    pub speed: u8,
    pub brightness: u8,
    pub direction: RgbDirection,
    pub scope: RgbScope,
}

impl View for RgbEffect {
    type V = RgbEffectView;

    open spec fn view(&self) -> RgbEffectView {
        RgbEffectView {
            mode: self.mode,
            colors: self.colors@,
            speed: self.speed,
            brightness: self.brightness,
            direction: self.direction,
            scope: self.scope,
        }
    }
}

/// Effect configuration of one zone of a device.
#[derive(Debug)]
pub struct RgbZoneConfig {
    pub zone_index: u8,
    pub effect: RgbEffect,
    pub swap_lr: bool,
    pub swap_tb: bool,
}

/// The value of an `RgbZoneConfig`.
pub struct RgbZoneConfigView {
    pub zone_index: u8,
    pub effect: RgbEffectView,
    pub swap_lr: bool,
    pub swap_tb: bool,
}

impl View for RgbZoneConfig {
    type V = RgbZoneConfigView;

    open spec fn view(&self) -> RgbZoneConfigView {
        RgbZoneConfigView {
            zone_index: self.zone_index,
            effect: self.effect@,
            swap_lr: self.swap_lr,
            swap_tb: self.swap_tb,
        }
    }
}

/// RGB configuration of one device.
#[derive(Debug)]
pub struct RgbDeviceConfig {
    pub device_id: String,
    pub mb_rgb_sync: bool,
    pub zones: Vec<RgbZoneConfig>,
}

/// The value of an `RgbDeviceConfig`.
pub struct RgbDeviceConfigView {
    pub device_id: Seq<char>,
    pub mb_rgb_sync: bool,
    pub zones: Seq<RgbZoneConfigView>,
}

/// The values of a list of zone configurations.
pub open spec fn zones_view(z: Seq<RgbZoneConfig>) -> Seq<RgbZoneConfigView> {
    z.map_values(|x: RgbZoneConfig| x@)
}

impl View for RgbDeviceConfig {
    type V = RgbDeviceConfigView;

    open spec fn view(&self) -> RgbDeviceConfigView {
        RgbDeviceConfigView {
            device_id: self.device_id@,
            mb_rgb_sync: self.mb_rgb_sync,
            zones: zones_view(self.zones@),
        }
    }
}

/// RGB part of the application configuration.
#[derive(Debug)]
pub struct RgbAppConfig {
    pub devices: Vec<RgbDeviceConfig>,
    pub openrgb_server: bool,
}

/// The value of an `RgbAppConfig`.
pub struct RgbAppConfigView {
    pub devices: Seq<RgbDeviceConfigView>,
    pub openrgb_server: bool,
}

/// The values of a list of device configurations.
pub open spec fn devices_view(d: Seq<RgbDeviceConfig>) -> Seq<RgbDeviceConfigView> {
    d.map_values(|x: RgbDeviceConfig| x@)
}

impl View for RgbAppConfig {
    type V = RgbAppConfigView;

    open spec fn view(&self) -> RgbAppConfigView {
        RgbAppConfigView { devices: devices_view(self.devices@), openrgb_server: self.openrgb_server }
    }
}

impl RgbAppConfig {
    /// An empty RGB configuration: no devices, OpenRGB server off.
    pub fn empty() -> (r: Self)
        ensures
            r@.devices.len() == 0,
            !r@.openrgb_server,
    {
        RgbAppConfig { devices: Vec::new(), openrgb_server: false }
    }
}

/// White, the color used to fill new color slots.
pub open spec fn white() -> [u8; 3] {
    [255u8, 255u8, 255u8]
}

/// The effect a new zone starts with: static white, speed 2, brightness 4,
/// clockwise, on all LEDs.
pub open spec fn default_effect_spec() -> RgbEffectView {
    RgbEffectView {
        mode: RgbMode::Static,
        colors: seq![white()],
        speed: 2,
        brightness: 4,
        direction: RgbDirection::Clockwise,
        scope: RgbScope::All,
    }
}

/// The effect a new zone starts with.
pub fn default_effect() -> (r: RgbEffect)
    ensures
        r@ == default_effect_spec(),
{
    let mut colors: Vec<[u8; 3]> = Vec::new();
    colors.push([255, 255, 255]);
    let r = RgbEffect {
        mode: RgbMode::Static,
        colors,
        speed: 2,
        brightness: 4,
        direction: RgbDirection::Clockwise,
        scope: RgbScope::All,
    };
    assert(r@.colors =~= seq![white()]);
    r
}

/// One change made to a zone's effect from the GUI.
#[derive(Debug, Clone, Copy)]
pub enum EffectEdit {
    Mode(RgbMode),
    Speed(u8),
    Brightness(u8),
    Direction(RgbDirection),
    Scope(RgbScope),
    /// Set color slot `index`, first filling missing slots with white.
    Color { index: usize, rgb: [u8; 3] },
}

/// `colors` with slot `index` set to `rgb`, missing slots filled with white.
pub open spec fn set_color_spec(colors: Seq<[u8; 3]>, index: int, rgb: [u8; 3]) -> Seq<[u8; 3]> {
    let padded = if colors.len() <= index {
        colors + Seq::new((index + 1 - colors.len()) as nat, |i: int| white())
    } else {
        colors
    };
    padded.update(index, rgb)
}

/// The effect after one edit.
pub open spec fn apply_edit_spec(e: RgbEffectView, edit: EffectEdit) -> RgbEffectView {
    match edit {
        EffectEdit::Mode(m) => RgbEffectView { mode: m, ..e },
        EffectEdit::Speed(v) => RgbEffectView { speed: v, ..e },
        EffectEdit::Brightness(v) => RgbEffectView { brightness: v, ..e },
        EffectEdit::Direction(d) => RgbEffectView { direction: d, ..e },
        EffectEdit::Scope(s) => RgbEffectView { scope: s, ..e },
        EffectEdit::Color { index, rgb } => RgbEffectView {
            colors: set_color_spec(e.colors, index as int, rgb),
            ..e
        },
    }
}

/// Whether an edit can be applied (a color slot index below `usize::MAX`).
pub open spec fn edit_ok(edit: EffectEdit) -> bool {
    match edit {
        EffectEdit::Color { index, .. } => index < usize::MAX,
        _ => true,
    }
}

/// Applies one edit to an effect.
pub fn apply_effect_edit(e: &mut RgbEffect, edit: EffectEdit)
    requires
        edit_ok(edit),
    ensures
        final(e)@ == apply_edit_spec(old(e)@, edit),
{
    match edit {
        EffectEdit::Mode(m) => {
            e.mode = m;
        },
        EffectEdit::Speed(v) => {
            e.speed = v;
        },
        EffectEdit::Brightness(v) => {
            e.brightness = v;
        },
        EffectEdit::Direction(d) => {
            e.direction = d;
        },
        EffectEdit::Scope(s) => {
            e.scope = s;
        },
        EffectEdit::Color { index, rgb } => {
            let ghost c0 = e.colors@;
            while e.colors.len() <= index
                invariant
                    index < usize::MAX,
                    c0.len() <= index + 1 ==> e.colors@ =~= c0 + Seq::new(
                        (e.colors@.len() - c0.len()) as nat,
                        |i: int| white(),
                    ),
                    c0.len() <= e.colors@.len(),
                    e.colors@.len() <= index + 1 || e.colors@ == c0,
                    e.mode == old(e).mode,
                    e.speed == old(e).speed,
                    e.brightness == old(e).brightness,
                    e.direction == old(e).direction,
                    e.scope == old(e).scope,
                    c0 == old(e).colors@,
                decreases index + 1 - e.colors@.len(),
            {
                e.colors.push([255, 255, 255]);
            }
            e.colors.set(index, rgb);
            assert(e.colors@ =~= set_color_spec(c0, index as int, rgb));
        },
    }
}

/// Position of the first device at or after `i` with id `id`.
pub open spec fn device_pos_from(devs: Seq<RgbDeviceConfigView>, id: Seq<char>, i: int) -> Option<int>
    decreases devs.len() - i,
{
    if i < 0 || i >= devs.len() {
        None
    } else if devs[i].device_id == id {
        Some(i)
    } else {
        device_pos_from(devs, id, i + 1)
    }
}

/// Position of the first device with id `id`.
pub open spec fn device_pos(devs: Seq<RgbDeviceConfigView>, id: Seq<char>) -> Option<int> {
    device_pos_from(devs, id, 0)
}

/// A new device configuration: no motherboard sync, no zones.
pub open spec fn new_device_view(id: Seq<char>) -> RgbDeviceConfigView {
    RgbDeviceConfigView { device_id: id, mb_rgb_sync: false, zones: seq![] }
}

/// The devices with one for `id` appended when there is none yet.
pub open spec fn with_device_spec(devs: Seq<RgbDeviceConfigView>, id: Seq<char>) -> Seq<RgbDeviceConfigView> {
    if device_pos(devs, id) is Some {
        devs
    } else {
        devs.push(new_device_view(id))
    }
}

/// Position of the first zone at or after `i` with index `zone`.
pub open spec fn zone_pos_from(zones: Seq<RgbZoneConfigView>, zone: u8, i: int) -> Option<int>
    decreases zones.len() - i,
{
    if i < 0 || i >= zones.len() {
        None
    } else if zones[i].zone_index == zone {
        Some(i)
    } else {
        zone_pos_from(zones, zone, i + 1)
    }
}

/// Position of the first zone with index `zone`.
pub open spec fn zone_pos(zones: Seq<RgbZoneConfigView>, zone: u8) -> Option<int> {
    zone_pos_from(zones, zone, 0)
}

/// A new zone configuration with the default effect and no swaps.
pub open spec fn new_zone_view(zone: u8) -> RgbZoneConfigView {
    RgbZoneConfigView { zone_index: zone, effect: default_effect_spec(), swap_lr: false, swap_tb: false }
}

/// The zones with one for `zone` appended when there is none yet.
pub open spec fn with_zone_spec(zones: Seq<RgbZoneConfigView>, zone: u8) -> Seq<RgbZoneConfigView> {
    if zone_pos(zones, zone) is Some {
        zones
    } else {
        zones.push(new_zone_view(zone))
    }
}

proof fn lemma_device_pos_found(devs: Seq<RgbDeviceConfigView>, id: Seq<char>, i: int)
    requires
        device_pos_from(devs, id, i) is Some,
    ensures
        0 <= device_pos_from(devs, id, i).unwrap() < devs.len(),
        devs[device_pos_from(devs, id, i).unwrap()].device_id == id,
    decreases devs.len() - i,
{
    if i < 0 || i >= devs.len() {
    } else if devs[i].device_id == id {
    } else {
        lemma_device_pos_found(devs, id, i + 1);
    }
}

proof fn lemma_device_pos_push(devs: Seq<RgbDeviceConfigView>, id: Seq<char>, i: int)
    requires
        0 <= i <= devs.len(),
        device_pos_from(devs, id, i) is None,
    ensures
        device_pos_from(devs.push(new_device_view(id)), id, i) == Some(devs.len() as int),
    decreases devs.len() - i,
{
    if i < devs.len() {
        lemma_device_pos_push(devs, id, i + 1);
    }
}

proof fn lemma_zone_pos_found(zones: Seq<RgbZoneConfigView>, zone: u8, i: int)
    requires
        zone_pos_from(zones, zone, i) is Some,
    ensures
        0 <= zone_pos_from(zones, zone, i).unwrap() < zones.len(),
        zones[zone_pos_from(zones, zone, i).unwrap()].zone_index == zone,
    decreases zones.len() - i,
{
    if i < 0 || i >= zones.len() {
    } else if zones[i].zone_index == zone {
    } else {
        lemma_zone_pos_found(zones, zone, i + 1);
    }
}

proof fn lemma_zone_pos_push(zones: Seq<RgbZoneConfigView>, zone: u8, i: int)
    requires
        0 <= i <= zones.len(),
        zone_pos_from(zones, zone, i) is None,
    ensures
        zone_pos_from(zones.push(new_zone_view(zone)), zone, i) == Some(zones.len() as int),
    decreases zones.len() - i,
{
    if i < zones.len() {
        lemma_zone_pos_push(zones, zone, i + 1);
    }
}

/// Finds the configuration of device `dev_id`, creating an empty one when
/// there is none; returns its position.
pub fn get_or_create_device_config(rgb: &mut RgbAppConfig, dev_id: &str) -> (r: usize)
    ensures
        final(rgb)@.devices == with_device_spec(old(rgb)@.devices, dev_id@),
        final(rgb)@.openrgb_server == old(rgb)@.openrgb_server,
        device_pos(final(rgb)@.devices, dev_id@) == Some(r as int),
        r < final(rgb)@.devices.len(),
{
    let key = str_chars(dev_id);
    let mut i: usize = 0;
    while i < rgb.devices.len()
        invariant
            i <= rgb@.devices.len(),
            rgb@ == old(rgb)@,
            rgb.devices@.len() == rgb@.devices.len(),
            key@ == dev_id@,
            device_pos(rgb@.devices, dev_id@) == device_pos_from(rgb@.devices, dev_id@, i as int),
        decreases rgb@.devices.len() - i,
    {
        let id = str_chars(rgb.devices[i].device_id.as_str());
        if chars_eq(&id, &key) {
            proof {
                lemma_device_pos_found(rgb@.devices, dev_id@, 0);
            }
            return i;
        }
        i = i + 1;
    }
    let ghost before = rgb@.devices;
    let n = rgb.devices.len();
    let fresh = RgbDeviceConfig { device_id: chars_to_string(&key), mb_rgb_sync: false, zones: Vec::new() };
    assert(zones_view(fresh.zones@) =~= Seq::<RgbZoneConfigView>::empty());
    assert(fresh@ == new_device_view(dev_id@));
    rgb.devices.push(fresh);
    proof {
        assert(rgb@.devices =~= before.push(new_device_view(dev_id@)));
        lemma_device_pos_push(before, dev_id@, 0);
    }
    n
}

/// Finds the configuration of zone `zone` of a device, creating one with
/// the default effect when there is none; returns its position.
pub fn get_or_create_zone_config(dev: &mut RgbDeviceConfig, zone: u8) -> (r: usize)
    ensures
        final(dev)@.zones == with_zone_spec(old(dev)@.zones, zone),
        final(dev)@.device_id == old(dev)@.device_id,
        final(dev)@.mb_rgb_sync == old(dev)@.mb_rgb_sync,
        zone_pos(final(dev)@.zones, zone) == Some(r as int),
        r < final(dev)@.zones.len(),
{
    let mut i: usize = 0;
    while i < dev.zones.len()
        invariant
            i <= dev@.zones.len(),
            dev@ == old(dev)@,
            dev.zones@.len() == dev@.zones.len(),
            zone_pos(dev@.zones, zone) == zone_pos_from(dev@.zones, zone, i as int),
        decreases dev@.zones.len() - i,
    {
        if dev.zones[i].zone_index == zone {
            proof {
                lemma_zone_pos_found(dev@.zones, zone, 0);
            }
            return i;
        }
        i = i + 1;
    }
    let ghost before = dev@.zones;
    let n = dev.zones.len();
    dev.zones.push(RgbZoneConfig { zone_index: zone, effect: default_effect(), swap_lr: false, swap_tb: false });
    proof {
        assert(dev@.zones =~= before.push(new_zone_view(zone)));
        lemma_zone_pos_push(before, zone, 0);
    }
    n
}

/// The configuration and the zone's new effect after applying `edit` to
/// zone `zone` of device `id`, creating the device and zone entries when
/// missing.
pub open spec fn zone_edit_spec(cfg: RgbAppConfigView, id: Seq<char>, zone: u8, edit: EffectEdit) -> (RgbAppConfigView, RgbEffectView) {
    let devs1 = with_device_spec(cfg.devices, id);
    let di = device_pos(devs1, id).unwrap();
    let dev = devs1[di];
    let zones1 = with_zone_spec(dev.zones, zone);
    let zi = zone_pos(zones1, zone).unwrap();
    let z = zones1[zi];
    let e2 = apply_edit_spec(z.effect, edit);
    let zones2 = zones1.update(zi, RgbZoneConfigView { effect: e2, ..z });
    let devs2 = devs1.update(di, RgbDeviceConfigView { zones: zones2, ..dev });
    (RgbAppConfigView { devices: devs2, ..cfg }, e2)
}

/// A copy of an effect.
pub fn copy_effect(e: &RgbEffect) -> (r: RgbEffect)
    ensures
        r@ == e@,
{
    let mut colors: Vec<[u8; 3]> = Vec::new();
    let mut i: usize = 0;
    while i < e.colors.len()
        invariant
            i <= e.colors@.len(),
            colors@ == e.colors@.subrange(0, i as int),
        decreases e.colors@.len() - i,
    {
        colors.push(e.colors[i]);
        i = i + 1;
        assert(colors@ =~= e.colors@.subrange(0, i as int));
    }
    assert(colors@ =~= e.colors@);
    RgbEffect {
        mode: e.mode,
        colors,
        speed: e.speed,
        brightness: e.brightness,
        direction: e.direction,
        scope: e.scope,
    }
}

/// Applies `edit` to zone `zone` of device `dev_id`, creating the entries
/// when missing, and returns a copy of the zone's new effect.
pub fn edit_zone_effect(rgb: &mut RgbAppConfig, dev_id: &str, zone: u8, edit: EffectEdit) -> (r: RgbEffect)
    requires
        edit_ok(edit),
    ensures
        (final(rgb)@, r@) == zone_edit_spec(old(rgb)@, dev_id@, zone, edit),
{
    let di = get_or_create_device_config(rgb, dev_id);
    let ghost devs1 = rgb@.devices;
    let ghost raw1 = rgb.devices@;
    let mut dev = rgb.devices.remove(di);
    assert(dev@ == devs1[di as int]);
    let zi = get_or_create_zone_config(&mut dev, zone);
    let ghost zones1 = dev@.zones;
    let ghost zraw = dev.zones@;
    let mut z = dev.zones.remove(zi);
    assert(z@ == zones1[zi as int]);
    apply_effect_edit(&mut z.effect, edit);
    let copy = copy_effect(&z.effect);
    dev.zones.insert(zi, z);
    assert(dev@.zones =~= zones1.update(zi as int, RgbZoneConfigView { effect: z@.effect, ..zones1[zi as int] }));
    rgb.devices.insert(di, dev);
    assert(rgb@.devices =~= devs1.update(di as int, RgbDeviceConfigView { zones: dev@.zones, ..devs1[di as int] }));
    copy
}

/// A request to the daemon made by an RGB control of the GUI.
#[derive(Debug)]
pub enum RgbRequest {
    SetRgbEffect { device_id: String, zone: u8, effect: RgbEffect },
    SetMbRgbSync { device_id: String, enabled: bool },
    SetFanDirection { device_id: String, zone: u8, swap_lr: bool, swap_tb: bool },
}

/// The value of an `RgbRequest`.
pub enum RgbRequestView {
    SetRgbEffect { device_id: Seq<char>, zone: u8, effect: RgbEffectView },
    SetMbRgbSync { device_id: Seq<char>, enabled: bool },
    SetFanDirection { device_id: Seq<char>, zone: u8, swap_lr: bool, swap_tb: bool },
}

impl View for RgbRequest {
    type V = RgbRequestView;

    open spec fn view(&self) -> RgbRequestView {
        match self {
            RgbRequest::SetRgbEffect { device_id, zone, effect } => RgbRequestView::SetRgbEffect {
                device_id: device_id@,
                zone: *zone,
                effect: effect@,
            },
            RgbRequest::SetMbRgbSync { device_id, enabled } => RgbRequestView::SetMbRgbSync {
                device_id: device_id@,
                enabled: *enabled,
            },
            RgbRequest::SetFanDirection { device_id, zone, swap_lr, swap_tb } => RgbRequestView::SetFanDirection {
                device_id: device_id@,
                zone: *zone,
                swap_lr: *swap_lr,
                swap_tb: *swap_tb,
            },
        }
    }
}

/// The view of the GUI's RGB configuration slot: `None` while no
/// configuration is loaded, else the loaded configuration's RGB part.
pub open spec fn slot_view(slot: Option<Option<RgbAppConfig>>) -> Option<Option<RgbAppConfigView>> {
    match slot {
        None => None,
        Some(None) => Some(None),
        Some(Some(c)) => Some(Some(c@)),
    }
}

/// The RGB configuration a loaded configuration without one starts from.
pub open spec fn empty_config_view() -> RgbAppConfigView {
    RgbAppConfigView { devices: seq![], openrgb_server: false }
}

/// The RGB configuration of a loaded slot, created empty when missing.
pub open spec fn base_config(inner: Option<RgbAppConfigView>) -> RgbAppConfigView {
    match inner {
        Some(c) => c,
        None => empty_config_view(),
    }
}

fn take_or_empty(slot: Option<RgbAppConfig>) -> (r: RgbAppConfig)
    ensures
        r@ == base_config(match slot { Some(c) => Some(c@), None => None }),
{
    match slot {
        Some(c) => c,
        None => {
            let e = RgbAppConfig::empty();
            assert(e@.devices =~= Seq::<RgbDeviceConfigView>::empty());
            e
        },
    }
}

/// Gets or updates an RGB zone's effect in the GUI's configuration and
/// returns the updated effect; without a loaded configuration the edit is
/// applied to the default effect and nothing is stored.
pub fn with_zone_effect(cfg: &mut Option<Option<RgbAppConfig>>, dev_id: &str, zone: u8, edit: EffectEdit) -> (r: RgbEffect)
    requires
        edit_ok(edit),
    ensures
        match slot_view(*old(cfg)) {
            None => slot_view(*final(cfg)) is None && r@ == apply_edit_spec(default_effect_spec(), edit),
            Some(inner) => {
                let (c2, e2) = zone_edit_spec(base_config(inner), dev_id@, zone, edit);
                slot_view(*final(cfg)) == Some(Some(c2)) && r@ == e2
            },
        },
{
    match cfg.take() {
        None => {
            let mut e = default_effect();
            apply_effect_edit(&mut e, edit);
            e
        },
        Some(inner) => {
            let mut rgb = take_or_empty(inner);
            let e = edit_zone_effect(&mut rgb, dev_id, zone, edit);
            *cfg = Some(Some(rgb));
            e
        },
    }
}

/// The request sent when a zone's effect is edited: the zone's new effect.
pub fn rgb_effect_request(cfg: &mut Option<Option<RgbAppConfig>>, dev_id: &str, zone: u8, edit: EffectEdit) -> (r: RgbRequest)
    requires
        edit_ok(edit),
    ensures
        match slot_view(*old(cfg)) {
            None => slot_view(*final(cfg)) is None && r@ == RgbRequestView::SetRgbEffect {
                device_id: dev_id@,
                zone,
                effect: apply_edit_spec(default_effect_spec(), edit),
            },
            Some(inner) => {
                let (c2, e2) = zone_edit_spec(base_config(inner), dev_id@, zone, edit);
                slot_view(*final(cfg)) == Some(Some(c2)) && r@ == RgbRequestView::SetRgbEffect {
                    device_id: dev_id@,
                    zone,
                    effect: e2,
                }
            },
        },
{
    let effect = with_zone_effect(cfg, dev_id, zone, edit);
    RgbRequest::SetRgbEffect { device_id: chars_to_string(&str_chars(dev_id)), zone, effect }
}

/// The controller part of a device id: the text before the first `:port`.
pub open spec fn base_id_spec(id: Seq<char>) -> Seq<char> {
    match first_occurrence(id, ":port"@) {
        Some(i) => id.take(i),
        None => id,
    }
}

/// A device configuration after turning motherboard sync to `enabled` for
/// the controller whose id is `base`: changed when its id starts with `base`.
pub open spec fn synced(d: RgbDeviceConfigView, base: Seq<char>, enabled: bool) -> RgbDeviceConfigView {
    if base.is_prefix_of(d.device_id) {
        RgbDeviceConfigView { mb_rgb_sync: enabled, ..d }
    } else {
        d
    }
}

/// The device configurations after turning motherboard sync to `enabled`
/// for the controller of `id`: every device whose id starts with the
/// controller's id is updated, and `id` gets an entry if it had none.
pub open spec fn mb_sync_spec(devs: Seq<RgbDeviceConfigView>, id: Seq<char>, enabled: bool) -> Seq<RgbDeviceConfigView> {
    let d1 = devs.map_values(|d: RgbDeviceConfigView| synced(d, base_id_spec(id), enabled));
    if device_pos(d1, id) is Some {
        d1
    } else {
        d1.push(RgbDeviceConfigView { device_id: id, mb_rgb_sync: enabled, zones: seq![] })
    }
}

fn base_id(dev_id: &str) -> (r: Vec<char>)
    ensures
        r@ == base_id_spec(dev_id@),
{
    let v = str_chars(dev_id);
    match find(&v, &str_chars(":port")) {
        Some(i) => {
            let mut out: Vec<char> = Vec::new();
            push_all(&mut out, &v.as_slice()[0..i]);
            assert(out@ =~= v@.take(i as int));
            out
        },
        None => v,
    }
}

fn set_mb_sync(rgb: &mut RgbAppConfig, dev_id: &str, enabled: bool)
    ensures
        final(rgb)@.devices == mb_sync_spec(old(rgb)@.devices, dev_id@, enabled),
        final(rgb)@.openrgb_server == old(rgb)@.openrgb_server,
{
    let base = base_id(dev_id);
    let ghost d0 = old(rgb)@.devices;
    let ghost d1 = d0.map_values(|d: RgbDeviceConfigView| synced(d, base_id_spec(dev_id@), enabled));
    let mut i: usize = 0;
    while i < rgb.devices.len()
        invariant
            i <= rgb@.devices.len(),
            rgb@.devices.len() == d0.len(),
            rgb.devices@.len() == d0.len(),
            rgb@.openrgb_server == old(rgb)@.openrgb_server,
            d0 == old(rgb)@.devices,
            base@ == base_id_spec(dev_id@),
            forall|k: int| 0 <= k < i ==> #[trigger] rgb@.devices[k] == synced(d0[k], base@, enabled),
            forall|k: int| i <= k < d0.len() ==> #[trigger] rgb@.devices[k] == d0[k],
        decreases d0.len() - i,
    {
        let id = str_chars(rgb.devices[i].device_id.as_str());
        let ghost cur = rgb@.devices[i as int];
        assert(cur == d0[i as int]);
        assert(id@ == cur.device_id);
        if starts_with(&id, &base) {
            let ghost before = rgb@.devices;
            let mut d = rgb.devices.remove(i);
            d.mb_rgb_sync = enabled;
            rgb.devices.insert(i, d);
            assert(rgb@.devices =~= before.update(i as int, d@));
        }
        assert(rgb@.devices[i as int] == synced(d0[i as int], base@, enabled));
        i = i + 1;
    }
    assert(rgb@.devices =~= d1);
    let key = str_chars(dev_id);
    let mut j: usize = 0;
    while j < rgb.devices.len()
        invariant
            j <= rgb@.devices.len(),
            rgb@.devices == d1,
            d1 == old(rgb)@.devices.map_values(|d: RgbDeviceConfigView| synced(d, base_id_spec(dev_id@), enabled)),
            rgb.devices@.len() == d1.len(),
            rgb@.openrgb_server == old(rgb)@.openrgb_server,
            key@ == dev_id@,
            device_pos(d1, dev_id@) == device_pos_from(d1, dev_id@, j as int),
        decreases d1.len() - j,
    {
        let id = str_chars(rgb.devices[j].device_id.as_str());
        if chars_eq(&id, &key) {
            assert(device_pos_from(d1, dev_id@, j as int) == Some(j as int));
            return;
        }
        j = j + 1;
    }
    let fresh = RgbDeviceConfig { device_id: chars_to_string(&key), mb_rgb_sync: enabled, zones: Vec::new() };
    assert(zones_view(fresh.zones@) =~= Seq::<RgbZoneConfigView>::empty());
    rgb.devices.push(fresh);
    assert(rgb@.devices =~= d1.push(RgbDeviceConfigView { device_id: dev_id@, mb_rgb_sync: enabled, zones: seq![] }));
}

/// Turns motherboard RGB sync on or off for a device's whole controller
/// (all sibling port devices), adding the device when it has no entry yet;
/// without a loaded configuration only the request is made.
pub fn rgb_toggle_mb_sync(cfg: &mut Option<Option<RgbAppConfig>>, dev_id: &str, enabled: bool) -> (r: RgbRequest)
    ensures
        r@ == (RgbRequestView::SetMbRgbSync { device_id: dev_id@, enabled }),
        match slot_view(*old(cfg)) {
            None => slot_view(*final(cfg)) is None,
            Some(inner) => slot_view(*final(cfg)) == Some(Some((RgbAppConfigView {
                devices: mb_sync_spec(base_config(inner).devices, dev_id@, enabled),
                ..base_config(inner)
            }))),
        },
{
    match cfg.take() {
        None => {},
        Some(inner) => {
            let mut rgb = take_or_empty(inner);
            set_mb_sync(&mut rgb, dev_id, enabled);
            *cfg = Some(Some(rgb));
        },
    }
    RgbRequest::SetMbRgbSync { device_id: chars_to_string(&str_chars(dev_id)), enabled }
}

/// Which swap flag of a zone to toggle.
#[derive(Debug, Clone, Copy, PartialEq, Eq, Structural)]
pub enum SwapAxis {
    LeftRight,
    TopBottom,
}

/// Configuration after toggling one swap flag of zone `zone` of device
/// `id` (creating missing entries), and the resulting flags.
pub open spec fn swap_spec(cfg: RgbAppConfigView, id: Seq<char>, zone: u8, axis: SwapAxis) -> (RgbAppConfigView, bool, bool) {
    let devs1 = with_device_spec(cfg.devices, id);
    let di = device_pos(devs1, id).unwrap();
    let dev = devs1[di];
    let zones1 = with_zone_spec(dev.zones, zone);
    let zi = zone_pos(zones1, zone).unwrap();
    let z = zones1[zi];
    let z2 = match axis {
        SwapAxis::LeftRight => RgbZoneConfigView { swap_lr: !z.swap_lr, ..z },
        SwapAxis::TopBottom => RgbZoneConfigView { swap_tb: !z.swap_tb, ..z },
    };
    let devs2 = devs1.update(di, RgbDeviceConfigView { zones: zones1.update(zi, z2), ..dev });
    (RgbAppConfigView { devices: devs2, ..cfg }, z2.swap_lr, z2.swap_tb)
}

/// Toggles a fan's left/right or top/bottom LED swap and makes the
/// request carrying both flags; nothing happens without a loaded configuration.
pub fn rgb_toggle_swap(cfg: &mut Option<Option<RgbAppConfig>>, dev_id: &str, zone: u8, axis: SwapAxis) -> (r: Option<RgbRequest>)
    ensures
        match slot_view(*old(cfg)) {
            None => slot_view(*final(cfg)) is None && r is None,
            Some(inner) => {
                let (c2, lr, tb) = swap_spec(base_config(inner), dev_id@, zone, axis);
                &&& slot_view(*final(cfg)) == Some(Some(c2))
                &&& r is Some
                &&& r.unwrap()@ == (RgbRequestView::SetFanDirection {
                    device_id: dev_id@,
                    zone,
                    swap_lr: lr,
                    swap_tb: tb,
                })
            },
        },
{
    match cfg.take() {
        None => None,
        Some(inner) => {
            let mut rgb = take_or_empty(inner);
            let di = get_or_create_device_config(&mut rgb, dev_id);
            let ghost devs1 = rgb@.devices;
            let mut dev = rgb.devices.remove(di);
            assert(dev@ == devs1[di as int]);
            let zi = get_or_create_zone_config(&mut dev, zone);
            let ghost zones1 = dev@.zones;
            let mut z = dev.zones.remove(zi);
            assert(z@ == zones1[zi as int]);
            match axis {
                SwapAxis::LeftRight => {
                    z.swap_lr = !z.swap_lr;
                },
                SwapAxis::TopBottom => {
                    z.swap_tb = !z.swap_tb;
                },
            }
            let lr = z.swap_lr;
            let tb = z.swap_tb;
            let ghost z2 = z@;
            dev.zones.insert(zi, z);
            assert(dev@.zones =~= zones1.update(zi as int, z2));
            rgb.devices.insert(di, dev);
            assert(rgb@.devices =~= devs1.update(di as int, RgbDeviceConfigView { zones: dev@.zones, ..devs1[di as int] }));
            *cfg = Some(Some(rgb));
            Some(RgbRequest::SetFanDirection { device_id: chars_to_string(&str_chars(dev_id)), zone, swap_lr: lr, swap_tb: tb })
        },
    }
}

/// Turns the OpenRGB server on or off; returns whether a configuration is
/// loaded (and so was changed and must be saved).
pub fn set_openrgb_server(cfg: &mut Option<Option<RgbAppConfig>>, enabled: bool) -> (r: bool)
    ensures
        r == (slot_view(*old(cfg)) is Some),
        match slot_view(*old(cfg)) {
            None => slot_view(*final(cfg)) is None,
            Some(inner) => slot_view(*final(cfg)) == Some(Some((RgbAppConfigView {
                openrgb_server: enabled,
                ..base_config(inner)
            }))),
        },
{
    match cfg.take() {
        None => false,
        Some(inner) => {
            let mut rgb = take_or_empty(inner);
            rgb.openrgb_server = enabled;
            *cfg = Some(Some(rgb));
            true
        },
    }
}

/// The requests that set every zone of `dev` to the effect of its first
/// zone, in zone order.
fn zone_effect_requests(dev: &RgbDeviceConfig, dev_id: &str) -> (r: Vec<RgbRequest>)
    ensures
        r@.len() == dev@.zones.len(),
        forall|k: int|
            0 <= k < dev@.zones.len() ==> (#[trigger] r@[k])@ == (RgbRequestView::SetRgbEffect {
                device_id: dev_id@,
                zone: dev@.zones[k].zone_index,
                effect: dev@.zones[0].effect,
            }),
{
    let mut out: Vec<RgbRequest> = Vec::new();
    if dev.zones.len() == 0 {
        return out;
    }
    let mut k: usize = 0;
    while k < dev.zones.len()
        invariant
            k <= dev@.zones.len(),
            dev.zones@.len() == dev@.zones.len(),
            dev@.zones.len() > 0,
            out@.len() == k,
            forall|q: int|
                0 <= q < k ==> (#[trigger] out@[q])@ == (RgbRequestView::SetRgbEffect {
                    device_id: dev_id@,
                    zone: dev@.zones[q].zone_index,
                    effect: dev@.zones[0].effect,
                }),
        decreases dev@.zones.len() - k,
    {
        let effect = copy_effect(&dev.zones[0].effect);
        out.push(RgbRequest::SetRgbEffect {
            device_id: chars_to_string(&str_chars(dev_id)),
            zone: dev.zones[k].zone_index,
            effect,
        });
        k = k + 1;
    }
    out
}

/// The requests that apply the effect of a device's first zone to all of
/// its zones (one per zone, in order); none when no configuration is
/// loaded, the device has no entry or no zones.
pub fn rgb_apply_to_all(cfg: &Option<Option<RgbAppConfig>>, dev_id: &str) -> (r: Vec<RgbRequest>)
    ensures
        match slot_view(*cfg) {
            Some(Some(c)) => match device_pos(c.devices, dev_id@) {
                Some(di) => {
                    let zones = c.devices[di].zones;
                    &&& r@.len() == zones.len()
                    &&& forall|k: int|
                        0 <= k < zones.len() ==> (#[trigger] r@[k])@ == (RgbRequestView::SetRgbEffect {
                            device_id: dev_id@,
                            zone: zones[k].zone_index,
                            effect: zones[0].effect,
                        })
                },
                None => r@.len() == 0,
            },
            _ => r@.len() == 0,
        },
{
    let rgb = match cfg {
        Some(Some(c)) => c,
        _ => {
            return Vec::new();
        },
    };
    assert(slot_view(*cfg) == Some(Some(rgb@)));
    let key = str_chars(dev_id);
    let mut i: usize = 0;
    while i < rgb.devices.len()
        invariant
            i <= rgb@.devices.len(),
            rgb.devices@.len() == rgb@.devices.len(),
            key@ == dev_id@,
            slot_view(*cfg) == Some(Some(rgb@)),
            device_pos(rgb@.devices, dev_id@) == device_pos_from(rgb@.devices, dev_id@, i as int),
        decreases rgb@.devices.len() - i,
    {
        let id = str_chars(rgb.devices[i].device_id.as_str());
        if chars_eq(&id, &key) {
            assert(device_pos_from(rgb@.devices, dev_id@, i as int) == Some(i as int));
            let r = zone_effect_requests(&rgb.devices[i], dev_id);
            assert(rgb@.devices[i as int] == rgb.devices@[i as int]@);
            return r;
        }
        i = i + 1;
    }
    Vec::new()
}

proof fn lemma_device_pos_push_any(devs: Seq<RgbDeviceConfigView>, id: Seq<char>, v: RgbDeviceConfigView, i: int)
    requires
        0 <= i <= devs.len(),
        device_pos_from(devs, id, i) is None,
        v.device_id == id,
    ensures
        device_pos_from(devs.push(v), id, i) == Some(devs.len() as int),
    decreases devs.len() - i,
{
    if i < devs.len() {
        lemma_device_pos_push_any(devs, id, v, i + 1);
    }
}

proof fn lemma_device_pos_update(devs: Seq<RgbDeviceConfigView>, id: Seq<char>, i: int, v: RgbDeviceConfigView, j: int)
    requires
        0 <= i < devs.len(),
        v.device_id == devs[i].device_id,
    ensures
        device_pos_from(devs.update(i, v), id, j) == device_pos_from(devs, id, j),
    decreases devs.len() - j,
{
    if 0 <= j < devs.len() {
        lemma_device_pos_update(devs, id, i, v, j + 1);
    }
}

proof fn lemma_zone_pos_update(zones: Seq<RgbZoneConfigView>, zone: u8, i: int, v: RgbZoneConfigView, j: int)
    requires
        0 <= i < zones.len(),
        v.zone_index == zones[i].zone_index,
    ensures
        zone_pos_from(zones.update(i, v), zone, j) == zone_pos_from(zones, zone, j),
    decreases zones.len() - j,
{
    if 0 <= j < zones.len() {
        lemma_zone_pos_update(zones, zone, i, v, j + 1);
    }
}

proof fn lemma_with_device(devs: Seq<RgbDeviceConfigView>, id: Seq<char>)
    ensures
        device_pos(with_device_spec(devs, id), id) is Some,
        0 <= device_pos(with_device_spec(devs, id), id).unwrap() < with_device_spec(devs, id).len(),
        with_device_spec(devs, id)[device_pos(with_device_spec(devs, id), id).unwrap()].device_id == id,
{
    if device_pos(devs, id) is None {
        lemma_device_pos_push(devs, id, 0);
    }
    lemma_device_pos_found(with_device_spec(devs, id), id, 0);
}

proof fn lemma_with_zone(zones: Seq<RgbZoneConfigView>, zone: u8)
    ensures
        zone_pos(with_zone_spec(zones, zone), zone) is Some,
        0 <= zone_pos(with_zone_spec(zones, zone), zone).unwrap() < with_zone_spec(zones, zone).len(),
        with_zone_spec(zones, zone)[zone_pos(with_zone_spec(zones, zone), zone).unwrap()].zone_index == zone,
{
    if zone_pos(zones, zone) is None {
        lemma_zone_pos_push(zones, zone, 0);
    }
    lemma_zone_pos_found(with_zone_spec(zones, zone), zone, 0);
}

/// Finding-or-creating a device or zone entry twice is the same as doing
/// it once: the second call finds what the first one made.
pub proof fn law_get_or_create_idempotent(devs: Seq<RgbDeviceConfigView>, id: Seq<char>, zones: Seq<RgbZoneConfigView>, zone: u8)
    ensures
        with_device_spec(with_device_spec(devs, id), id) == with_device_spec(devs, id),
        with_zone_spec(with_zone_spec(zones, zone), zone) == with_zone_spec(zones, zone),
{
    lemma_with_device(devs, id);
    lemma_with_zone(zones, zone);
}

/// The configuration with an entry for zone `zone` of device `id`,
/// created with defaults where missing.
pub open spec fn ensure_zone_spec(cfg: RgbAppConfigView, id: Seq<char>, zone: u8) -> RgbAppConfigView {
    let devs1 = with_device_spec(cfg.devices, id);
    let di = device_pos(devs1, id).unwrap();
    let dev = devs1[di];
    RgbAppConfigView {
        devices: devs1.update(di, RgbDeviceConfigView { zones: with_zone_spec(dev.zones, zone), ..dev }),
        ..cfg
    }
}

/// The configuration of zone `zone` of device `id`, if it has one.
pub open spec fn zone_config_of(cfg: RgbAppConfigView, id: Seq<char>, zone: u8) -> Option<RgbZoneConfigView> {
    match device_pos(cfg.devices, id) {
        Some(di) => match zone_pos(cfg.devices[di].zones, zone) {
            Some(zi) => Some(cfg.devices[di].zones[zi]),
            None => None,
        },
        None => None,
    }
}

/// After a zone's effect is edited, reading the zone's configuration back
/// gives the edited effect that the edit returned.
pub proof fn law_zone_edit_read_back(cfg: RgbAppConfigView, id: Seq<char>, zone: u8, edit: EffectEdit)
    ensures
        zone_config_of(zone_edit_spec(cfg, id, zone, edit).0, id, zone) is Some,
        zone_config_of(zone_edit_spec(cfg, id, zone, edit).0, id, zone).unwrap().effect == zone_edit_spec(
            cfg,
            id,
            zone,
            edit,
        ).1,
{
    let devs1 = with_device_spec(cfg.devices, id);
    lemma_with_device(cfg.devices, id);
    let di = device_pos(devs1, id).unwrap();
    let dev = devs1[di];
    let zones1 = with_zone_spec(dev.zones, zone);
    lemma_with_zone(dev.zones, zone);
    let zi = zone_pos(zones1, zone).unwrap();
    let z = zones1[zi];
    let e2 = apply_edit_spec(z.effect, edit);
    let zv = RgbZoneConfigView { effect: e2, ..z };
    let zones2 = zones1.update(zi, zv);
    let dv = RgbDeviceConfigView { zones: zones2, ..dev };
    lemma_device_pos_update(devs1, id, di, dv, 0);
    lemma_zone_pos_update(zones1, zone, zi, zv, 0);
}

/// Toggling the same swap flag of a zone twice leaves the zone as it was
/// (with its device and zone entries created), and the second request
/// carries the flags the zone had before the first toggle.
pub proof fn law_swap_twice(cfg: RgbAppConfigView, id: Seq<char>, zone: u8, axis: SwapAxis)
    ensures
        swap_spec(swap_spec(cfg, id, zone, axis).0, id, zone, axis).0 == ensure_zone_spec(cfg, id, zone),
        zone_config_of(ensure_zone_spec(cfg, id, zone), id, zone) is Some,
        swap_spec(swap_spec(cfg, id, zone, axis).0, id, zone, axis).1 == zone_config_of(
            ensure_zone_spec(cfg, id, zone),
            id,
            zone,
        ).unwrap().swap_lr,
        swap_spec(swap_spec(cfg, id, zone, axis).0, id, zone, axis).2 == zone_config_of(
            ensure_zone_spec(cfg, id, zone),
            id,
            zone,
        ).unwrap().swap_tb,
{
    let devs1 = with_device_spec(cfg.devices, id);
    lemma_with_device(cfg.devices, id);
    let di = device_pos(devs1, id).unwrap();
    let dev = devs1[di];
    let zones1 = with_zone_spec(dev.zones, zone);
    lemma_with_zone(dev.zones, zone);
    let zi = zone_pos(zones1, zone).unwrap();
    let z = zones1[zi];
    let z2 = match axis {
        SwapAxis::LeftRight => RgbZoneConfigView { swap_lr: !z.swap_lr, ..z },
        SwapAxis::TopBottom => RgbZoneConfigView { swap_tb: !z.swap_tb, ..z },
    };
    let d2 = RgbDeviceConfigView { zones: zones1.update(zi, z2), ..dev };
    let devs2 = devs1.update(di, d2);
    let c1 = swap_spec(cfg, id, zone, axis).0;
    assert(c1.devices == devs2);
    lemma_device_pos_update(devs1, id, di, d2, 0);
    assert(with_device_spec(devs2, id) == devs2);
    assert(device_pos(devs2, id) == Some(di));
    lemma_zone_pos_update(zones1, zone, zi, z2, 0);
    assert(with_zone_spec(zones1.update(zi, z2), zone) == zones1.update(zi, z2));
    let z3 = match axis {
        SwapAxis::LeftRight => RgbZoneConfigView { swap_lr: !z2.swap_lr, ..z2 },
        SwapAxis::TopBottom => RgbZoneConfigView { swap_tb: !z2.swap_tb, ..z2 },
    };
    assert(z3 == z);
    assert(zones1.update(zi, z2).update(zi, z3) =~= zones1);
    let d1 = RgbDeviceConfigView { zones: zones1, ..dev };
    assert(devs2.update(di, RgbDeviceConfigView { zones: zones1, ..d2 }) =~= devs1.update(di, d1));
    let e = ensure_zone_spec(cfg, id, zone);
    lemma_device_pos_update(devs1, id, di, d1, 0);
    assert(device_pos(e.devices, id) == Some(di));
    assert(e.devices[di].zones == zones1);
}

/// The device configurations after turning motherboard sync on or off:
/// every device of the controller has the new setting, and the device
/// itself has an entry.
pub proof fn law_mb_sync_marks_controller(devs: Seq<RgbDeviceConfigView>, id: Seq<char>, enabled: bool)
    ensures
        forall|k: int|
            0 <= k < mb_sync_spec(devs, id, enabled).len() && base_id_spec(id).is_prefix_of(
                #[trigger] mb_sync_spec(devs, id, enabled)[k].device_id,
            ) ==> mb_sync_spec(devs, id, enabled)[k].mb_rgb_sync == enabled,
        device_pos(mb_sync_spec(devs, id, enabled), id) is Some,
        forall|k: int|
            0 <= k < devs.len() ==> #[trigger] mb_sync_spec(devs, id, enabled)[k].device_id == devs[k].device_id,
{
    let d1 = devs.map_values(|d: RgbDeviceConfigView| synced(d, base_id_spec(id), enabled));
    assert(base_id_spec(id).is_prefix_of(id)) by {
        match first_occurrence(id, ":port"@) {
            Some(i) => {
                crate::text::lemma_first_occurrence_bounds(id, ":port"@);
            },
            None => {},
        }
    }
    if device_pos(d1, id) is None {
        let nd = RgbDeviceConfigView { device_id: id, mb_rgb_sync: enabled, zones: seq![] };
        lemma_device_pos_push_any(d1, id, nd, 0);
    }
}

/// The first three characters and the length of a name: enough to tell
/// the effect names apart.
pub open spec fn name_signature(s: Seq<char>) -> (nat, char, char, char) {
    (s.len(), s[0], s[1], s[2])
}

/// Parsing the name of an effect mode gives that mode back.
pub proof fn law_mode_name_roundtrip(m: RgbMode)
    ensures
        parse_mode_spec(rgb_mode_name(m)) == m,
{
    reveal_strlit("Off");
    reveal_strlit("Direct");
    reveal_strlit("Static");
    reveal_strlit("Rainbow");
    reveal_strlit("RainbowMorph");
    reveal_strlit("Breathing");
    reveal_strlit("Runway");
    reveal_strlit("Meteor");
    reveal_strlit("ColorCycle");
    reveal_strlit("Staggered");
    reveal_strlit("Tide");
    reveal_strlit("Mixing");
    reveal_strlit("Voice");
    reveal_strlit("Door");
    reveal_strlit("Render");
    reveal_strlit("Ripple");
    reveal_strlit("Reflect");
    reveal_strlit("TailChasing");
    reveal_strlit("Paint");
    reveal_strlit("PingPong");
    reveal_strlit("Stack");
    reveal_strlit("CoverCycle");
    reveal_strlit("Wave");
    reveal_strlit("Racing");
    reveal_strlit("Lottery");
    reveal_strlit("Intertwine");
    reveal_strlit("MeteorShower");
    reveal_strlit("Collide");
    reveal_strlit("ElectricCurrent");
    reveal_strlit("Kaleidoscope");
    reveal_strlit("BigBang");
    reveal_strlit("Vortex");
    reveal_strlit("Pump");
    reveal_strlit("ColorsMorph");
    assert(name_signature("Off"@) == (3nat, 'O', 'f', 'f'));
    assert(name_signature("Direct"@) == (6nat, 'D', 'i', 'r'));
    assert(name_signature("Static"@) == (6nat, 'S', 't', 'a'));
    assert(name_signature("Rainbow"@) == (7nat, 'R', 'a', 'i'));
    assert(name_signature("RainbowMorph"@) == (12nat, 'R', 'a', 'i'));
    assert(name_signature("Breathing"@) == (9nat, 'B', 'r', 'e'));
    assert(name_signature("Runway"@) == (6nat, 'R', 'u', 'n'));
    assert(name_signature("Meteor"@) == (6nat, 'M', 'e', 't'));
    assert(name_signature("ColorCycle"@) == (10nat, 'C', 'o', 'l'));
    assert(name_signature("Staggered"@) == (9nat, 'S', 't', 'a'));
    assert(name_signature("Tide"@) == (4nat, 'T', 'i', 'd'));
    assert(name_signature("Mixing"@) == (6nat, 'M', 'i', 'x'));
    assert(name_signature("Voice"@) == (5nat, 'V', 'o', 'i'));
    assert(name_signature("Door"@) == (4nat, 'D', 'o', 'o'));
    assert(name_signature("Render"@) == (6nat, 'R', 'e', 'n'));
    assert(name_signature("Ripple"@) == (6nat, 'R', 'i', 'p'));
    assert(name_signature("Reflect"@) == (7nat, 'R', 'e', 'f'));
    assert(name_signature("TailChasing"@) == (11nat, 'T', 'a', 'i'));
    assert(name_signature("Paint"@) == (5nat, 'P', 'a', 'i'));
    assert(name_signature("PingPong"@) == (8nat, 'P', 'i', 'n'));
    assert(name_signature("Stack"@) == (5nat, 'S', 't', 'a'));
    assert(name_signature("CoverCycle"@) == (10nat, 'C', 'o', 'v'));
    assert(name_signature("Wave"@) == (4nat, 'W', 'a', 'v'));
    assert(name_signature("Racing"@) == (6nat, 'R', 'a', 'c'));
    assert(name_signature("Lottery"@) == (7nat, 'L', 'o', 't'));
    assert(name_signature("Intertwine"@) == (10nat, 'I', 'n', 't'));
    assert(name_signature("MeteorShower"@) == (12nat, 'M', 'e', 't'));
    assert(name_signature("Collide"@) == (7nat, 'C', 'o', 'l'));
    assert(name_signature("ElectricCurrent"@) == (15nat, 'E', 'l', 'e'));
    assert(name_signature("Kaleidoscope"@) == (12nat, 'K', 'a', 'l'));
    assert(name_signature("BigBang"@) == (7nat, 'B', 'i', 'g'));
    assert(name_signature("Vortex"@) == (6nat, 'V', 'o', 'r'));
    assert(name_signature("Pump"@) == (4nat, 'P', 'u', 'm'));
    assert(name_signature("ColorsMorph"@) == (11nat, 'C', 'o', 'l'));
    reveal_with_fuel(mode_named_from, 35);
}

} // verus!
