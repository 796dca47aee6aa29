//! Custom LCD template widgets: which fonts a widget draws with, which
//! loaded font a font reference resolves to, and which sensor it reads.

use vstd::prelude::*;
use crate::sensors::SensorSourceConfig;
use crate::text::{chars_eq, str_chars};

verus! {

/// A font a widget names: a font file, or the default font when `None`.
#[derive(Debug)]
pub struct FontRef {
    pub path: Option<String>,
}

/// The kind of a template widget, with the fonts and sensor source that
/// each kind carries.
#[derive(Debug)]
pub enum WidgetKind {
    Label { font: FontRef },
    ValueText { font: FontRef, source: SensorSourceConfig },
    ClockDigital { font: FontRef },
    ClockAnalog { numbers_font: FontRef },
    Sparkline { axis_label_font: FontRef, source: SensorSourceConfig },
    RadialGauge { source: SensorSourceConfig },
    VerticalBar { source: SensorSourceConfig },
    HorizontalBar { source: SensorSourceConfig },
    Speedometer { source: SensorSourceConfig },
    /// A widget that draws no text and reads no sensor, such as an image.
    Other,
}

/// The fonts a widget of kind `kind` draws with, in order.
pub open spec fn font_refs_spec(kind: WidgetKind) -> Seq<FontRef> {
    match kind {
        WidgetKind::Label { font } => seq![font],
        WidgetKind::ValueText { font, .. } => seq![font],
        WidgetKind::ClockDigital { font } => seq![font],
        WidgetKind::ClockAnalog { numbers_font } => seq![numbers_font],
        WidgetKind::Sparkline { axis_label_font, .. } => seq![axis_label_font],
        _ => seq![],
    }
}

/// The fonts a widget of kind `kind` draws with, so they can be loaded
/// before drawing.
pub fn widget_font_refs(kind: &WidgetKind) -> (r: Vec<&FontRef>)
    ensures
        r@.map_values(|f: &FontRef| *f) == font_refs_spec(*kind),
{
    let r: Vec<&FontRef> = match kind {
        WidgetKind::Label { font } => vec![font],
        WidgetKind::ValueText { font, .. } => vec![font],
        WidgetKind::ClockDigital { font } => vec![font],
        WidgetKind::ClockAnalog { numbers_font } => vec![numbers_font],
        WidgetKind::Sparkline { axis_label_font, .. } => vec![axis_label_font],
        _ => Vec::new(),
    };
    assert(r@.map_values(|f: &FontRef| *f) =~= font_refs_spec(*kind));
    r
}

/// The sensor a widget of kind `kind` reads, if it reads one.
pub open spec fn sensor_source_spec(kind: WidgetKind) -> Option<SensorSourceConfig> {
    match kind {
        WidgetKind::ValueText { source, .. } => Some(source),
        WidgetKind::RadialGauge { source } => Some(source),
        WidgetKind::VerticalBar { source } => Some(source),
        WidgetKind::HorizontalBar { source } => Some(source),
        WidgetKind::Speedometer { source } => Some(source),
        WidgetKind::Sparkline { source, .. } => Some(source),
        _ => None,
    }
}

/// The sensor a widget of kind `kind` reads, if it reads one.
pub fn widget_sensor_source(kind: &WidgetKind) -> (r: Option<&SensorSourceConfig>)
    ensures
        match r {
            Some(s) => sensor_source_spec(*kind) == Some(*s),
            None => sensor_source_spec(*kind) is None,
        },
{
    match kind {
        WidgetKind::ValueText { source, .. } => Some(source),
        WidgetKind::RadialGauge { source } => Some(source),
        WidgetKind::VerticalBar { source } => Some(source),
        WidgetKind::HorizontalBar { source } => Some(source),
        WidgetKind::Speedometer { source } => Some(source),
        WidgetKind::Sparkline { source, .. } => Some(source),
        _ => None,
    }
}

/// Position of the first loaded font at or after `i` whose file is `path`.
pub open spec fn loaded_font_from<F>(fonts: Seq<(String, F)>, path: Seq<char>, i: int) -> Option<int>
    decreases fonts.len() - i,
{
    if i < 0 || i >= fonts.len() {
        None
    } else if fonts[i].0@ == path {
        Some(i)
    } else {
        loaded_font_from(fonts, path, i + 1)
    }
}

/// Which loaded font a font reference resolves to: the font loaded from
/// its file when it names one that was loaded, else none (the default).
pub open spec fn resolved_font<F>(font_ref: FontRef, fonts: Seq<(String, F)>) -> Option<int> {
    match font_ref.path {
        Some(p) => loaded_font_from(fonts, p@, 0),
        None => None,
    }
}

/// The font to draw with for `font_ref`: the font loaded from its file
/// (`fonts` pairs each loaded file's path with its font), else `default`.
pub fn resolve_font<'a, F>(font_ref: &FontRef, fonts: &'a [(String, F)], default: &'a F) -> (r: &'a F)
    ensures
        match resolved_font(*font_ref, fonts@) {
            Some(i) => 0 <= i < fonts@.len() && *r == fonts@[i].1,
            None => *r == *default,
        },
{
    match &font_ref.path {
        Some(p) => {
            let want = str_chars(p.as_str());
            let mut i: usize = 0;
            while i < fonts.len()
                invariant
                    i <= fonts@.len(),
                    want@ == p@,
                    font_ref.path == Some(*p),
                    loaded_font_from(fonts@, p@, 0) == loaded_font_from(fonts@, p@, i as int),
                decreases fonts@.len() - i,
            {
                let have = str_chars(fonts[i].0.as_str());
                if chars_eq(&have, &want) {
                    assert(loaded_font_from(fonts@, p@, i as int) == Some(i as int));
                    return &fonts[i].1;
                }
                i = i + 1;
            }
            default
        },
        None => default,
    }
}

} // verus!
