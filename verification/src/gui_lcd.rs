//! LCD settings editing of the GUI: the LCD entries of the configuration,
//! adding and removing them, and the change an edit of a text field makes.

use vstd::prelude::*;
use crate::sensors::{SensorSourceConfig, SensorSourceConfigView};
use crate::text::{chars_to_string, str_chars, str_is};

verus! {

/// What an LCD shows.
#[derive(Debug, Clone, Copy, PartialEq, Eq, Structural)]
pub enum MediaType {
    Image,
    Video,
    Gif,
    Color,
    Sensor,
}

/// The media type a choice of the media menu names, if any: `Image`,
/// `Video`, `GIF`, `Solid Color` or `Sensor Gauge`.
pub open spec fn media_choice(val: Seq<char>) -> Option<MediaType> {
    if val == "Image"@ {
        Some(MediaType::Image)
    } else if val == "Video"@ {
        Some(MediaType::Video)
    } else if val == "GIF"@ {
        Some(MediaType::Gif)
    } else if val == "Solid Color"@ {
        Some(MediaType::Color)
    } else if val == "Sensor Gauge"@ {
        Some(MediaType::Sensor)
    } else {
        None
    }
}

/// The media type a choice of the media menu names, if any.
pub fn media_type_for_choice(val: &str) -> (r: Option<MediaType>)
    ensures
        r == media_choice(val@),
{
    if str_is(val, "Image") {
        Some(MediaType::Image)
    } else if str_is(val, "Video") {
        Some(MediaType::Video)
    } else if str_is(val, "GIF") {
        Some(MediaType::Gif)
    } else if str_is(val, "Solid Color") {
        Some(MediaType::Color)
    } else if str_is(val, "Sensor Gauge") {
        Some(MediaType::Sensor)
    } else {
        None
    }
}

/// The change an edit of a text field of an LCD entry makes. The sensor
/// fields create the entry's sensor gauge with its defaults when it has
/// none; the media type stays as it was when the choice names none.
#[derive(Debug)]
pub enum LcdFieldEdit {
    Serial(String),
    Media(Option<MediaType>),
    Path(String),
    Orientation(String),
    SensorLabel(String),
    SensorUnit(String),
    SensorCommand(String),
    SensorFontPath(String),
    Ignored,
}

/// The value of an `LcdFieldEdit`: the field it sets and the text or media
/// type it sets it from.
pub enum LcdFieldEditView {
    Serial(Seq<char>),
    Media(Option<MediaType>),
    Path(Seq<char>),
    Orientation(Seq<char>),
    SensorLabel(Seq<char>),
    SensorUnit(Seq<char>),
    SensorCommand(Seq<char>),
    SensorFontPath(Seq<char>),
    Ignored,
}

impl View for LcdFieldEdit {
    type V = LcdFieldEditView;

    open spec fn view(&self) -> LcdFieldEditView {
        match self {
            LcdFieldEdit::Serial(v) => LcdFieldEditView::Serial(v@),
            LcdFieldEdit::Media(m) => LcdFieldEditView::Media(*m),
            LcdFieldEdit::Path(v) => LcdFieldEditView::Path(v@),
            LcdFieldEdit::Orientation(v) => LcdFieldEditView::Orientation(v@),
            LcdFieldEdit::SensorLabel(v) => LcdFieldEditView::SensorLabel(v@),
            LcdFieldEdit::SensorUnit(v) => LcdFieldEditView::SensorUnit(v@),
            LcdFieldEdit::SensorCommand(v) => LcdFieldEditView::SensorCommand(v@),
            LcdFieldEdit::SensorFontPath(v) => LcdFieldEditView::SensorFontPath(v@),
            LcdFieldEdit::Ignored => LcdFieldEditView::Ignored,
        }
    }
}

/// The change that setting field `field` of an LCD entry to `val` makes.
pub open spec fn lcd_edit_spec(field: Seq<char>, val: Seq<char>) -> LcdFieldEditView {
    if field == "serial"@ {
        LcdFieldEditView::Serial(val)
    } else if field == "media_type"@ {
        LcdFieldEditView::Media(media_choice(val))
    } else if field == "path"@ {
        LcdFieldEditView::Path(val)
    } else if field == "orientation"@ {
        LcdFieldEditView::Orientation(val)
    } else if field == "sensor_label"@ {
        LcdFieldEditView::SensorLabel(val)
    } else if field == "sensor_unit"@ {
        LcdFieldEditView::SensorUnit(val)
    } else if field == "sensor_command"@ {
        LcdFieldEditView::SensorCommand(val)
    } else if field == "sensor_font_path"@ {
        LcdFieldEditView::SensorFontPath(val)
    } else {
        LcdFieldEditView::Ignored
    }
}

/// The change that setting field `field` of an LCD entry to `val` makes.
pub fn lcd_field_edit(field: &str, val: &str) -> (r: LcdFieldEdit)
    ensures
        r@ == lcd_edit_spec(field@, val@),
{
    let text = chars_to_string(&str_chars(val));
    if str_is(field, "serial") {
        LcdFieldEdit::Serial(text)
    } else if str_is(field, "media_type") {
        LcdFieldEdit::Media(media_type_for_choice(val))
    } else if str_is(field, "path") {
        LcdFieldEdit::Path(text)
    } else if str_is(field, "orientation") {
        LcdFieldEdit::Orientation(text)
    } else if str_is(field, "sensor_label") {
        LcdFieldEdit::SensorLabel(text)
    } else if str_is(field, "sensor_unit") {
        LcdFieldEdit::SensorUnit(text)
    } else if str_is(field, "sensor_command") {
        LcdFieldEdit::SensorCommand(text)
    } else if str_is(field, "sensor_font_path") {
        LcdFieldEdit::SensorFontPath(text)
    } else {
        LcdFieldEdit::Ignored
    }
}

/// The text of an optional string.
pub open spec fn opt_text(o: Option<String>) -> Option<Seq<char>> {
    match o {
        Some(t) => Some(t@),
        None => None,
    }
}

/// The sensor gauge an LCD shows. Colours are RGB triples; angles, radii,
/// thicknesses and font sizes are held as the bit patterns of IEEE-754
/// singles.
#[derive(Debug)]
pub struct SensorDescriptor {
    pub label: String,
    pub unit: String,
    pub source: SensorSourceConfig,
    pub text_color: [u8; 3],
    pub background_color: [u8; 3],
    pub gauge_background_color: [u8; 3],
    pub update_interval_ms: u64,
    pub gauge_start_angle_bits: u32,
    pub gauge_sweep_angle_bits: u32,
    pub gauge_outer_radius_bits: u32,
    pub gauge_thickness_bits: u32,
    pub bar_corner_radius_bits: u32,
    pub value_font_size_bits: u32,
    pub unit_font_size_bits: u32,
    pub label_font_size_bits: u32,
    pub font_path: Option<String>,
    pub decimal_places: u8,
    pub value_offset: i32,
    pub unit_offset: i32,
    pub label_offset: i32,
}

/// The value of a `SensorDescriptor`.
pub struct SensorDescriptorView {
    pub label: Seq<char>,
    pub unit: Seq<char>,
    pub source: SensorSourceConfigView,
    pub text_color: [u8; 3],
    pub background_color: [u8; 3],
    pub gauge_background_color: [u8; 3],
    pub update_interval_ms: u64,
    pub gauge_start_angle_bits: u32,
    pub gauge_sweep_angle_bits: u32,
    pub gauge_outer_radius_bits: u32,
    pub gauge_thickness_bits: u32,
    pub bar_corner_radius_bits: u32,
    pub value_font_size_bits: u32,
    pub unit_font_size_bits: u32,
    pub label_font_size_bits: u32,
    pub font_path: Option<Seq<char>>,
    pub decimal_places: u8,
    pub value_offset: i32,
    pub unit_offset: i32,
    pub label_offset: i32,
}

impl View for SensorDescriptor {
    type V = SensorDescriptorView;

    open spec fn view(&self) -> SensorDescriptorView {
        SensorDescriptorView {
            label: self.label@,
            unit: self.unit@,
            source: self.source@,
            text_color: self.text_color,
            background_color: self.background_color,
            gauge_background_color: self.gauge_background_color,
            update_interval_ms: self.update_interval_ms,
            gauge_start_angle_bits: self.gauge_start_angle_bits,
            gauge_sweep_angle_bits: self.gauge_sweep_angle_bits,
            gauge_outer_radius_bits: self.gauge_outer_radius_bits,
            gauge_thickness_bits: self.gauge_thickness_bits,
            bar_corner_radius_bits: self.bar_corner_radius_bits,
            value_font_size_bits: self.value_font_size_bits,
            unit_font_size_bits: self.unit_font_size_bits,
            label_font_size_bits: self.label_font_size_bits,
            font_path: opt_text(self.font_path),
            decimal_places: self.decimal_places,
            value_offset: self.value_offset,
            unit_offset: self.unit_offset,
            label_offset: self.label_offset,
        }
    }
}

/// Bit pattern of the single 5.0.
pub const F32_5: u32 = 0x40A0_0000;
/// Bit pattern of the single 30.0.
pub const F32_30: u32 = 0x41F0_0000;
/// Bit pattern of the single 40.0.
pub const F32_40: u32 = 0x4220_0000;
/// Bit pattern of the single 120.0.
pub const F32_120: u32 = 0x42F0_0000;
/// Bit pattern of the single 135.0.
pub const F32_135: u32 = 0x4307_0000;
/// Bit pattern of the single 200.0.
pub const F32_200: u32 = 0x4348_0000;
/// Bit pattern of the single 270.0.
pub const F32_270: u32 = 0x4387_0000;

/// The sensor gauge an LCD gets when a sensor field is first edited: a
/// "CPU" reading in "°C" from an empty command, white on black over a dark
/// grey gauge, updated every second, a 270° sweep from 135°, an outer
/// radius of 200 and a thickness of 30, corner radius 5, font sizes 120,
/// 40 and 30, the default font, no decimals and no offsets.
pub open spec fn default_sensor_spec() -> SensorDescriptorView {
    SensorDescriptorView {
        label: "CPU"@,
        unit: "°C"@,
        source: SensorSourceConfigView::Command { cmd: seq![] },
        text_color: [255, 255, 255],
        background_color: [0, 0, 0],
        gauge_background_color: [40, 40, 40],
        update_interval_ms: 1000,
        gauge_start_angle_bits: F32_135,
        gauge_sweep_angle_bits: F32_270,
        gauge_outer_radius_bits: F32_200,
        gauge_thickness_bits: F32_30,
        bar_corner_radius_bits: F32_5,
        value_font_size_bits: F32_120,
        unit_font_size_bits: F32_40,
        label_font_size_bits: F32_30,
        font_path: None,
        decimal_places: 0,
        value_offset: 0,
        unit_offset: 0,
        label_offset: 0,
    }
}

/// The sensor gauge an LCD gets when a sensor field is first edited.
pub fn default_sensor() -> (r: SensorDescriptor)
    ensures
        r@ == default_sensor_spec(),
{
    let label = chars_to_string(&str_chars("CPU"));
    let unit = chars_to_string(&str_chars("°C"));
    let cmd = String::new();
    let r = SensorDescriptor {
        label,
        unit,
        source: SensorSourceConfig::Command { cmd },
        text_color: [255, 255, 255],
        background_color: [0, 0, 0],
        gauge_background_color: [40, 40, 40],
        update_interval_ms: 1000,
        gauge_start_angle_bits: F32_135,
        gauge_sweep_angle_bits: F32_270,
        gauge_outer_radius_bits: F32_200,
        gauge_thickness_bits: F32_30,
        bar_corner_radius_bits: F32_5,
        value_font_size_bits: F32_120,
        unit_font_size_bits: F32_40,
        label_font_size_bits: F32_30,
        font_path: None,
        decimal_places: 0,
        value_offset: 0,
        unit_offset: 0,
        label_offset: 0,
    };
    assert(r@.source == default_sensor_spec().source);
    assert(r@.text_color =~= default_sensor_spec().text_color);
    assert(r@.background_color =~= default_sensor_spec().background_color);
    assert(r@.gauge_background_color =~= default_sensor_spec().gauge_background_color);
    r
}

/// One LCD of the configuration: which device (by index or serial), what it
/// shows and from where, its frame rate and orientation (bit patterns of
/// IEEE-754 singles), and its sensor gauge.
#[derive(Debug)]
pub struct LcdConfig {
    pub index: Option<usize>,
    pub serial: Option<String>,
    pub media_type: MediaType,
    pub path: Option<String>,
    pub fps_bits: Option<u32>,
    pub orientation_bits: u32,
    pub sensor: Option<SensorDescriptor>,
}

/// The value of an `LcdConfig`.
pub struct LcdConfigView {
    pub index: Option<usize>,
    pub serial: Option<Seq<char>>,
    pub media_type: MediaType,
    pub path: Option<Seq<char>>,
    pub fps_bits: Option<u32>,
    pub orientation_bits: u32,
    pub sensor: Option<SensorDescriptorView>,
}

impl View for LcdConfig {
    type V = LcdConfigView;

    open spec fn view(&self) -> LcdConfigView {
        LcdConfigView {
            index: self.index,
            serial: opt_text(self.serial),
            media_type: self.media_type,
            path: opt_text(self.path),
            fps_bits: self.fps_bits,
            orientation_bits: self.orientation_bits,
            sensor: match self.sensor {
                Some(d) => Some(d@),
                None => None,
            },
        }
    }
}

/// The values of a list of LCD entries.
pub open spec fn lcds_view(l: Seq<LcdConfig>) -> Seq<LcdConfigView> {
    l.map_values(|x: LcdConfig| x@)
}

/// An LCD entry added by the GUI: no device chosen, an image with no file,
/// 30 frames per second, upright, no sensor gauge.
pub open spec fn new_lcd_spec() -> LcdConfigView {
    LcdConfigView {
        index: None,
        serial: None,
        media_type: MediaType::Image,
        path: None,
        fps_bits: Some(F32_30),
        orientation_bits: 0,
        sensor: None,
    }
}

/// Appends a new LCD entry.
pub fn add_lcd(lcds: &mut Vec<LcdConfig>)
    ensures
        lcds_view(final(lcds)@) == lcds_view(old(lcds)@).push(new_lcd_spec()),
{
    let ghost before = lcds@;
    lcds.push(
        LcdConfig {
            index: None,
            serial: None,
            media_type: MediaType::Image,
            path: None,
            fps_bits: Some(F32_30),
            orientation_bits: 0,
            sensor: None,
        },
    );
    assert(lcds_view(lcds@) =~= lcds_view(before).push(new_lcd_spec()));
}

/// Removes the LCD entry at `idx`; an index past the end changes nothing.
/// Returns whether an entry was removed.
pub fn remove_lcd(lcds: &mut Vec<LcdConfig>, idx: usize) -> (r: bool)
    ensures
        r == (idx < old(lcds)@.len()),
        idx < old(lcds)@.len() ==> lcds_view(final(lcds)@) == lcds_view(old(lcds)@).remove(idx as int),
        idx >= old(lcds)@.len() ==> lcds_view(final(lcds)@) == lcds_view(old(lcds)@),
{
    if idx < lcds.len() {
        let ghost before = lcds@;
        let _removed = lcds.remove(idx);
        assert(lcds_view(lcds@) =~= lcds_view(before).remove(idx as int));
        true
    } else {
        false
    }
}

/// The sensor gauge of an entry, created with its defaults when missing.
pub open spec fn sensor_or_default(s: Option<SensorDescriptorView>) -> SensorDescriptorView {
    match s {
        Some(d) => d,
        None => default_sensor_spec(),
    }
}

/// An LCD entry after edit `edit`; `orientation_bits` is the orientation
/// that an orientation edit sets.
pub open spec fn apply_lcd_edit_spec(lcd: LcdConfigView, edit: LcdFieldEditView, orientation_bits: u32) -> LcdConfigView {
    match edit {
        LcdFieldEditView::Serial(v) => LcdConfigView { serial: Some(v), ..lcd },
        LcdFieldEditView::Media(m) => match m {
            Some(t) => LcdConfigView { media_type: t, ..lcd },
            None => lcd,
        },
        LcdFieldEditView::Path(v) => LcdConfigView { path: Some(v), ..lcd },
        LcdFieldEditView::Orientation(_) => LcdConfigView { orientation_bits, ..lcd },
        LcdFieldEditView::SensorLabel(v) => LcdConfigView {
            sensor: Some(SensorDescriptorView { label: v, ..sensor_or_default(lcd.sensor) }),
            ..lcd
        },
        LcdFieldEditView::SensorUnit(v) => LcdConfigView {
            sensor: Some(SensorDescriptorView { unit: v, ..sensor_or_default(lcd.sensor) }),
            ..lcd
        },
        LcdFieldEditView::SensorCommand(v) => LcdConfigView {
            sensor: Some(
                SensorDescriptorView {
                    source: SensorSourceConfigView::Command { cmd: v },
                    ..sensor_or_default(lcd.sensor)
                },
            ),
            ..lcd
        },
        LcdFieldEditView::SensorFontPath(v) => LcdConfigView {
            sensor: Some(SensorDescriptorView { font_path: Some(v), ..sensor_or_default(lcd.sensor) }),
            ..lcd
        },
        LcdFieldEditView::Ignored => lcd,
    }
}

fn take_sensor(lcd: &mut LcdConfig) -> (r: SensorDescriptor)
    ensures
        r@ == sensor_or_default(old(lcd)@.sensor),
        final(lcd)@ == (LcdConfigView { sensor: None, ..old(lcd)@ }),
{
    match lcd.sensor.take() {
        Some(d) => d,
        None => default_sensor(),
    }
}

/// Applies edit `edit` to an LCD entry; `orientation_bits` is the
/// orientation that an orientation edit sets (the edit's text read as a
/// number, or 0.0 when it is none).
pub fn apply_lcd_field_edit(lcd: &mut LcdConfig, edit: LcdFieldEdit, orientation_bits: u32)
    ensures
        final(lcd)@ == apply_lcd_edit_spec(old(lcd)@, edit@, orientation_bits),
{
    match edit {
        LcdFieldEdit::Serial(v) => {
            lcd.serial = Some(v);
        },
        LcdFieldEdit::Media(m) => {
            if let Some(t) = m {
                lcd.media_type = t;
            }
        },
        LcdFieldEdit::Path(v) => {
            lcd.path = Some(v);
        },
        LcdFieldEdit::Orientation(_) => {
            lcd.orientation_bits = orientation_bits;
        },
        LcdFieldEdit::SensorLabel(v) => {
            let mut d = take_sensor(lcd);
            d.label = v;
            lcd.sensor = Some(d);
        },
        LcdFieldEdit::SensorUnit(v) => {
            let mut d = take_sensor(lcd);
            d.unit = v;
            lcd.sensor = Some(d);
        },
        LcdFieldEdit::SensorCommand(v) => {
            let mut d = take_sensor(lcd);
            d.source = SensorSourceConfig::Command { cmd: v };
            lcd.sensor = Some(d);
        },
        LcdFieldEdit::SensorFontPath(v) => {
            let mut d = take_sensor(lcd);
            d.font_path = Some(v);
            lcd.sensor = Some(d);
        },
        LcdFieldEdit::Ignored => {},
    }
}

/// Sets field `field` of the LCD entry at `idx` to `val`, as the GUI's
/// field editor does; an index past the end changes nothing. Returns
/// whether an entry was edited. `orientation_bits` is the orientation that
/// the `orientation` field sets.
pub fn update_lcd_field(lcds: &mut Vec<LcdConfig>, idx: usize, field: &str, val: &str, orientation_bits: u32) -> (r: bool)
    ensures
        r == (idx < old(lcds)@.len()),
        r ==> lcds_view(final(lcds)@) == lcds_view(old(lcds)@).update(
            idx as int,
            apply_lcd_edit_spec(lcds_view(old(lcds)@)[idx as int], lcd_edit_spec(field@, val@), orientation_bits),
        ),
        !r ==> lcds_view(final(lcds)@) == lcds_view(old(lcds)@),
{
    if idx < lcds.len() {
        let ghost before = lcds@;
        let mut lcd = lcds.remove(idx);
        let edit = lcd_field_edit(field, val);
        apply_lcd_field_edit(&mut lcd, edit, orientation_bits);
        lcds.insert(idx, lcd);
        assert(lcds_view(lcds@) =~= lcds_view(before).update(
            idx as int,
            apply_lcd_edit_spec(lcds_view(before)[idx as int], lcd_edit_spec(field@, val@), orientation_bits),
        ));
        true
    } else {
        false
    }
}

/// Editing one field of an LCD's sensor gauge changes that field only:
/// an existing gauge keeps every other field, and an entry without a gauge
/// gets the default gauge with that field set. The rest of the entry is
/// kept.
pub proof fn law_sensor_edit_changes_one_field(lcd: LcdConfigView, v: Seq<char>, orientation_bits: u32)
    ensures
        match lcd.sensor {
            Some(d) => {
                &&& apply_lcd_edit_spec(lcd, LcdFieldEditView::SensorLabel(v), orientation_bits)
                    == (LcdConfigView { sensor: Some(SensorDescriptorView { label: v, ..d }), ..lcd })
                &&& apply_lcd_edit_spec(lcd, LcdFieldEditView::SensorUnit(v), orientation_bits)
                    == (LcdConfigView { sensor: Some(SensorDescriptorView { unit: v, ..d }), ..lcd })
                &&& apply_lcd_edit_spec(lcd, LcdFieldEditView::SensorCommand(v), orientation_bits)
                    == (LcdConfigView {
                    sensor: Some(SensorDescriptorView { source: SensorSourceConfigView::Command { cmd: v }, ..d }),
                    ..lcd
                })
                &&& apply_lcd_edit_spec(lcd, LcdFieldEditView::SensorFontPath(v), orientation_bits)
                    == (LcdConfigView { sensor: Some(SensorDescriptorView { font_path: Some(v), ..d }), ..lcd })
            },
            None => {
                &&& apply_lcd_edit_spec(lcd, LcdFieldEditView::SensorLabel(v), orientation_bits)
                    == (LcdConfigView {
                    sensor: Some(SensorDescriptorView { label: v, ..default_sensor_spec() }),
                    ..lcd
                })
                &&& apply_lcd_edit_spec(lcd, LcdFieldEditView::SensorUnit(v), orientation_bits)
                    == (LcdConfigView {
                    sensor: Some(SensorDescriptorView { unit: v, ..default_sensor_spec() }),
                    ..lcd
                })
                &&& apply_lcd_edit_spec(lcd, LcdFieldEditView::SensorCommand(v), orientation_bits)
                    == (LcdConfigView {
                    sensor: Some(
                        SensorDescriptorView {
                            source: SensorSourceConfigView::Command { cmd: v },
                            ..default_sensor_spec()
                        },
                    ),
                    ..lcd
                })
                &&& apply_lcd_edit_spec(lcd, LcdFieldEditView::SensorFontPath(v), orientation_bits)
                    == (LcdConfigView {
                    sensor: Some(SensorDescriptorView { font_path: Some(v), ..default_sensor_spec() }),
                    ..lcd
                })
            },
        },
{
}

/// Editing a field outside the sensor gauge changes that field only: the
/// serial and path are set to the text, the orientation to the given
/// value, the media type to the one chosen (kept when the choice names
/// none), and an unknown field changes nothing.
pub proof fn law_entry_edit_changes_one_field(
    lcd: LcdConfigView,
    v: Seq<char>,
    m: Option<MediaType>,
    orientation_bits: u32,
)
    ensures
        apply_lcd_edit_spec(lcd, LcdFieldEditView::Serial(v), orientation_bits) == (LcdConfigView {
            serial: Some(v),
            ..lcd
        }),
        apply_lcd_edit_spec(lcd, LcdFieldEditView::Path(v), orientation_bits) == (LcdConfigView {
            path: Some(v),
            ..lcd
        }),
        apply_lcd_edit_spec(lcd, LcdFieldEditView::Orientation(v), orientation_bits) == (LcdConfigView {
            orientation_bits,
            ..lcd
        }),
        apply_lcd_edit_spec(lcd, LcdFieldEditView::Media(m), orientation_bits) == (LcdConfigView {
            media_type: match m {
                Some(t) => t,
                None => lcd.media_type,
            },
            ..lcd
        }),
        apply_lcd_edit_spec(lcd, LcdFieldEditView::Ignored, orientation_bits) == lcd,
{
}

} // verus!
