//! Sensor model, default sensor selection and sensor naming.

use vstd::prelude::*;
use crate::text::{
    chars_to_string, contains_seq, copy_string, ends_with_seq, first_occurrence, lowercase,
    push_all, push_str, str_chars, str_contains, str_ends_with, str_is, str_starts_with,
    to_lowercase, find, ends_with, starts_with,
};

verus! {

/// Unit of a sensor reading.
#[allow(non_camel_case_types)]
#[derive(Debug, Clone, Copy, PartialEq, Eq, Structural)]
pub enum Unit {
    C,
    PERCENT,
    SIZE,
    RPM,
    V,
    FREQ,
    WO,
    MBps,
}

/// Metric read from an NVIDIA GPU.
#[derive(Debug, Clone, Copy, PartialEq, Eq, Structural)]
pub enum NvidiaMetric {
    Temp,
    Usage,
}

/// Direction of a network rate.
#[derive(Debug, Clone, Copy, PartialEq, Eq, Structural)]
pub enum NetDirection {
    Rx,
    Tx,
}

/// Direction of a disk rate.
#[derive(Debug, Clone, Copy, PartialEq, Eq, Structural)]
pub enum DiskDirection {
    Read,
    Write,
}

/// Where a sensor reading comes from.
#[derive(Debug)]
pub enum SensorSource {
    Hwmon { name: String, label: String, device_path: String },
    NvidiaGpu { gpu_index: u32, metric: NvidiaMetric },
    AmdGpuUsage { card_index: u32 },
    Command { cmd: String },
    WirelessCoolant { device_id: String },
    CpuUsage,
    MemUsage,
    MemUsed,
    MemFree,
    NetworkRate { iface: String, direction: NetDirection },
    DiskRate { device: String, direction: DiskDirection },
}

/// The value of a `SensorSource`, with text fields as character sequences.
#[allow(inconsistent_fields)]
pub enum SensorSourceView {
    Hwmon { name: Seq<char>, label: Seq<char>, device_path: Seq<char> },
    NvidiaGpu { gpu_index: u32, metric: NvidiaMetric },
    AmdGpuUsage { card_index: u32 },
    Command { cmd: Seq<char> },
    WirelessCoolant { device_id: Seq<char> },
    CpuUsage,
    MemUsage,
    MemUsed,
    MemFree,
    NetworkRate { iface: Seq<char>, direction: NetDirection },
    DiskRate { device: Seq<char>, direction: DiskDirection },
}

impl View for SensorSource {
    type V = SensorSourceView;

    open spec fn view(&self) -> SensorSourceView {
        match self {
            SensorSource::Hwmon { name, label, device_path } => SensorSourceView::Hwmon {
                name: name@,
                label: label@,
                device_path: device_path@,
            },
            SensorSource::NvidiaGpu { gpu_index, metric } => SensorSourceView::NvidiaGpu {
                gpu_index: *gpu_index,
                metric: *metric,
            },
            SensorSource::AmdGpuUsage { card_index } => SensorSourceView::AmdGpuUsage {
                card_index: *card_index,
            },
            SensorSource::Command { cmd } => SensorSourceView::Command { cmd: cmd@ },
            SensorSource::WirelessCoolant { device_id } => SensorSourceView::WirelessCoolant {
                device_id: device_id@,
            },
            SensorSource::CpuUsage => SensorSourceView::CpuUsage,
            SensorSource::MemUsage => SensorSourceView::MemUsage,
            SensorSource::MemUsed => SensorSourceView::MemUsed,
            SensorSource::MemFree => SensorSourceView::MemFree,
            SensorSource::NetworkRate { iface, direction } => SensorSourceView::NetworkRate {
                iface: iface@,
                direction: *direction,
            },
            SensorSource::DiskRate { device, direction } => SensorSourceView::DiskRate {
                device: device@,
                direction: *direction,
            },
        }
    }
}

impl SensorSource {
    /// A copy of this source.
    pub fn copy_source(&self) -> (r: Self)
        ensures
            r@ == self@,
    {
        match self {
            SensorSource::Hwmon { name, label, device_path } => SensorSource::Hwmon {
                name: copy_string(name),
                label: copy_string(label),
                device_path: copy_string(device_path),
            },
            SensorSource::NvidiaGpu { gpu_index, metric } => SensorSource::NvidiaGpu {
                gpu_index: *gpu_index,
                metric: *metric,
            },
            SensorSource::AmdGpuUsage { card_index } => SensorSource::AmdGpuUsage {
                card_index: *card_index,
            },
            SensorSource::Command { cmd } => SensorSource::Command { cmd: copy_string(cmd) },
            SensorSource::WirelessCoolant { device_id } => SensorSource::WirelessCoolant {
                device_id: copy_string(device_id),
            },
            SensorSource::CpuUsage => SensorSource::CpuUsage,
            SensorSource::MemUsage => SensorSource::MemUsage,
            SensorSource::MemUsed => SensorSource::MemUsed,
            SensorSource::MemFree => SensorSource::MemFree,
            SensorSource::NetworkRate { iface, direction } => SensorSource::NetworkRate {
                iface: copy_string(iface),
                direction: *direction,
            },
            SensorSource::DiskRate { device, direction } => SensorSource::DiskRate {
                device: copy_string(device),
                direction: *direction,
            },
        }
    }
}

/// Device and sensor part of a sensor's display name.
#[derive(Debug)]
pub struct SensorName {
    pub device_name: String,
    pub sensor_name: String,
}

/// One sensor exposed by the machine.
#[derive(Debug)]
pub struct SensorInfo {
    pub source: SensorSource,
    pub sensor_name: Option<SensorName>,
    pub display_name: Option<String>,
    /// Raw readings are divided by this to get `unit`.
    pub divider: usize,
    pub unit: Unit,
}

/// Where a widget or LCD takes its reading from, as configured.
#[derive(Debug)]
pub enum SensorSourceConfig {
    Hwmon { name: String, label: String, device_path: String },
    NvidiaGpu { gpu_index: u32, metric: NvidiaMetric },
    AmdGpuUsage { card_index: u32 },
    Command { cmd: String },
    WirelessCoolant { device_id: String },
    CpuUsage,
    MemUsage,
    MemUsed,
    MemFree,
    NetworkRx { iface: String },
    NetworkTx { iface: String },
    DiskRead { device: String },
    DiskWrite { device: String },
    /// A constant reading, held as the IEEE-754 bits of its `f32` value.
    Constant { value_bits: u32 },
}

/// The value of a `SensorSourceConfig`, with text fields as character sequences.
#[allow(inconsistent_fields)]
pub enum SensorSourceConfigView {
    Hwmon { name: Seq<char>, label: Seq<char>, device_path: Seq<char> },
    NvidiaGpu { gpu_index: u32, metric: NvidiaMetric },
    AmdGpuUsage { card_index: u32 },
    Command { cmd: Seq<char> },
    WirelessCoolant { device_id: Seq<char> },
    CpuUsage,
    MemUsage,
    MemUsed,
    MemFree,
    NetworkRx { iface: Seq<char> },
    NetworkTx { iface: Seq<char> },
    DiskRead { device: Seq<char> },
    DiskWrite { device: Seq<char> },
    Constant { value_bits: u32 },
}

impl View for SensorSourceConfig {
    type V = SensorSourceConfigView;

    open spec fn view(&self) -> SensorSourceConfigView {
        match self {
            SensorSourceConfig::Hwmon { name, label, device_path } => SensorSourceConfigView::Hwmon {
                name: name@,
                label: label@,
                device_path: device_path@,
            },
            SensorSourceConfig::NvidiaGpu { gpu_index, metric } => SensorSourceConfigView::NvidiaGpu {
                gpu_index: *gpu_index,
                metric: *metric,
            },
            SensorSourceConfig::AmdGpuUsage { card_index } => SensorSourceConfigView::AmdGpuUsage {
                card_index: *card_index,
            },
            SensorSourceConfig::Command { cmd } => SensorSourceConfigView::Command { cmd: cmd@ },
            SensorSourceConfig::WirelessCoolant { device_id } => SensorSourceConfigView::WirelessCoolant {
                device_id: device_id@,
            },
            SensorSourceConfig::CpuUsage => SensorSourceConfigView::CpuUsage,
            SensorSourceConfig::MemUsage => SensorSourceConfigView::MemUsage,
            SensorSourceConfig::MemUsed => SensorSourceConfigView::MemUsed,
            SensorSourceConfig::MemFree => SensorSourceConfigView::MemFree,
            SensorSourceConfig::NetworkRx { iface } => SensorSourceConfigView::NetworkRx { iface: iface@ },
            SensorSourceConfig::NetworkTx { iface } => SensorSourceConfigView::NetworkTx { iface: iface@ },
            SensorSourceConfig::DiskRead { device } => SensorSourceConfigView::DiskRead { device: device@ },
            SensorSourceConfig::DiskWrite { device } => SensorSourceConfigView::DiskWrite { device: device@ },
            SensorSourceConfig::Constant { value_bits } => SensorSourceConfigView::Constant {
                value_bits: *value_bits,
            },
        }
    }
}

/// Kind of reading a widget asks for, resolved to a concrete sensor per machine.
#[derive(Debug, Clone, Copy, PartialEq, Eq, Structural)]
pub enum SensorCategory {
    CpuUsage,
    MemUsage,
    MemUsed,
    MemFree,
    CpuTemp,
    GpuTemp,
    GpuUsage,
    NetworkRx,
    NetworkTx,
    DiskRead,
    DiskWrite,
}

/// The configuration naming a given source.
pub open spec fn config_of(s: SensorSourceView) -> SensorSourceConfigView {
    match s {
        SensorSourceView::Hwmon { name, label, device_path } => SensorSourceConfigView::Hwmon {
            name,
            label,
            device_path,
        },
        SensorSourceView::NvidiaGpu { gpu_index, metric } => SensorSourceConfigView::NvidiaGpu {
            gpu_index,
            metric,
        },
        SensorSourceView::AmdGpuUsage { card_index } => SensorSourceConfigView::AmdGpuUsage {
            card_index,
        },
        SensorSourceView::Command { cmd } => SensorSourceConfigView::Command { cmd },
        SensorSourceView::WirelessCoolant { device_id } => SensorSourceConfigView::WirelessCoolant {
            device_id,
        },
        SensorSourceView::CpuUsage => SensorSourceConfigView::CpuUsage,
        SensorSourceView::MemUsage => SensorSourceConfigView::MemUsage,
        SensorSourceView::MemUsed => SensorSourceConfigView::MemUsed,
        SensorSourceView::MemFree => SensorSourceConfigView::MemFree,
        SensorSourceView::NetworkRate { iface, direction } => match direction {
            NetDirection::Rx => SensorSourceConfigView::NetworkRx { iface },
            NetDirection::Tx => SensorSourceConfigView::NetworkTx { iface },
        },
        SensorSourceView::DiskRate { device, direction } => match direction {
            DiskDirection::Read => SensorSourceConfigView::DiskRead { device },
            DiskDirection::Write => SensorSourceConfigView::DiskWrite { device },
        },
    }
}

/// The configuration that names `source`.
pub fn source_to_config(source: SensorSource) -> (r: SensorSourceConfig)
    ensures
        r@ == config_of(source@),
{
    match source {
        SensorSource::Hwmon { name, label, device_path } => SensorSourceConfig::Hwmon {
            name,
            label,
            device_path,
        },
        SensorSource::NvidiaGpu { gpu_index, metric } => SensorSourceConfig::NvidiaGpu {
            gpu_index,
            metric,
        },
        SensorSource::AmdGpuUsage { card_index } => SensorSourceConfig::AmdGpuUsage { card_index },
        SensorSource::Command { cmd } => SensorSourceConfig::Command { cmd },
        SensorSource::WirelessCoolant { device_id } => SensorSourceConfig::WirelessCoolant {
            device_id,
        },
        SensorSource::CpuUsage => SensorSourceConfig::CpuUsage,
        SensorSource::MemUsage => SensorSourceConfig::MemUsage,
        SensorSource::MemUsed => SensorSourceConfig::MemUsed,
        SensorSource::MemFree => SensorSourceConfig::MemFree,
        SensorSource::NetworkRate { iface, direction } => match direction {
            NetDirection::Rx => SensorSourceConfig::NetworkRx { iface },
            NetDirection::Tx => SensorSourceConfig::NetworkTx { iface },
        },
        SensorSource::DiskRate { device, direction } => match direction {
            DiskDirection::Read => SensorSourceConfig::DiskRead { device },
            DiskDirection::Write => SensorSourceConfig::DiskWrite { device },
        },
    }
}

/// Whether a lowercased label names a CPU control temperature.
pub open spec fn marks_cpu_control(lower_label: Seq<char>) -> bool {
    contains_seq(lower_label, "tctl"@) || contains_seq(lower_label, "package id 0"@)
}

/// Whether a lowercased label names an edge temperature.
pub open spec fn marks_gpu_edge(lower_label: Seq<char>) -> bool {
    contains_seq(lower_label, "edge"@)
}

/// Whether a lowercased hwmon label marks the CPU control temperature
/// (k10temp's `Tctl`, coretemp's `Package id 0`).
pub fn label_marks_cpu_control(lower_label: &str) -> (r: bool)
    ensures
        r == marks_cpu_control(lower_label@),
{
    str_contains(lower_label, "tctl") || str_contains(lower_label, "package id 0")
}

/// Whether a lowercased hwmon label marks a GPU edge temperature.
pub fn label_marks_gpu_edge(lower_label: &str) -> (r: bool)
    ensures
        r == marks_gpu_edge(lower_label@),
{
    str_contains(lower_label, "edge")
}

/// Whether `s` is a temperature from one of the hwmon drivers `a` or `b`.
pub open spec fn is_hwmon_temp_of(s: SensorInfo, a: Seq<char>, b: Seq<char>) -> bool {
    s.unit == Unit::C && match s.source@ {
        SensorSourceView::Hwmon { name, .. } => name == a || name == b,
        _ => false,
    }
}

/// A CPU temperature sensor (k10temp or coretemp, in degrees Celsius).
pub open spec fn is_cpu_temp(s: SensorInfo) -> bool {
    is_hwmon_temp_of(s, "k10temp"@, "coretemp"@)
}

/// A GPU temperature sensor (amdgpu or radeon, in degrees Celsius).
pub open spec fn is_gpu_temp(s: SensorInfo) -> bool {
    is_hwmon_temp_of(s, "amdgpu"@, "radeon"@)
}

/// The lowercased hwmon label of `s` (empty for other sources).
pub open spec fn lower_label_of(s: SensorInfo) -> Seq<char> {
    match s.source@ {
        SensorSourceView::Hwmon { label, .. } => lowercase(label),
        _ => seq![],
    }
}

/// Whether `s` is an NVIDIA GPU sensor of metric `m`.
pub open spec fn is_nvidia(s: SensorInfo, m: NvidiaMetric) -> bool {
    match s.source@ {
        SensorSourceView::NvidiaGpu { metric, .. } => metric == m,
        _ => false,
    }
}

/// Whether `s` is a GPU usage sensor (NVIDIA usage or AMD busy percent).
pub open spec fn is_gpu_usage(s: SensorInfo) -> bool {
    is_nvidia(s, NvidiaMetric::Usage) || s.source@ is AmdGpuUsage
}

/// The kinds of sensors the default pickers look for.
pub enum SensorKind {
    CpuControl,
    CpuTemp,
    NvidiaTemp,
    GpuEdge,
    GpuTemp,
    GpuUsage,
}

/// Whether sensor `s` is of kind `k`.
pub open spec fn is_kind(s: SensorInfo, k: SensorKind) -> bool {
    match k {
        SensorKind::CpuControl => is_cpu_temp(s) && marks_cpu_control(lower_label_of(s)),
        SensorKind::CpuTemp => is_cpu_temp(s),
        SensorKind::NvidiaTemp => is_nvidia(s, NvidiaMetric::Temp),
        SensorKind::GpuEdge => is_gpu_temp(s) && marks_gpu_edge(lower_label_of(s)),
        SensorKind::GpuTemp => is_gpu_temp(s),
        SensorKind::GpuUsage => is_gpu_usage(s),
    }
}

/// The first index at or after `i` whose sensor is of kind `k`.
pub open spec fn first_sensor_from(sensors: Seq<SensorInfo>, k: SensorKind, i: int) -> Option<int>
    decreases sensors.len() - i,
{
    if i < 0 || i >= sensors.len() {
        None
    } else if is_kind(sensors[i], k) {
        Some(i)
    } else {
        first_sensor_from(sensors, k, i + 1)
    }
}

/// The first index whose sensor is of kind `k`.
pub open spec fn first_sensor(sensors: Seq<SensorInfo>, k: SensorKind) -> Option<int> {
    first_sensor_from(sensors, k, 0)
}

/// The first of two choices that exists.
pub open spec fn or_else(a: Option<int>, b: Option<int>) -> Option<int> {
    if a is Some { a } else { b }
}

/// Index of the default CPU temperature: the first CPU temperature whose
/// label marks the control temperature, else the first CPU temperature.
pub open spec fn cpu_temp_pick(sensors: Seq<SensorInfo>) -> Option<int> {
    or_else(first_sensor(sensors, SensorKind::CpuControl), first_sensor(sensors, SensorKind::CpuTemp))
}

/// Index of the default GPU temperature: the first NVIDIA temperature,
/// else the first amdgpu/radeon temperature labelled `edge`, else the
/// first amdgpu/radeon temperature.
pub open spec fn gpu_temp_pick(sensors: Seq<SensorInfo>) -> Option<int> {
    or_else(
        first_sensor(sensors, SensorKind::NvidiaTemp),
        or_else(first_sensor(sensors, SensorKind::GpuEdge), first_sensor(sensors, SensorKind::GpuTemp)),
    )
}

/// The source of the sensor picked by `pick`, as an optional view.
pub open spec fn picked_source(sensors: Seq<SensorInfo>, pick: Option<int>) -> Option<SensorSourceView> {
    match pick {
        Some(i) => Some(sensors[i].source@),
        None => None,
    }
}

/// The view of an optional source.
pub open spec fn opt_source_view(s: Option<SensorSource>) -> Option<SensorSourceView> {
    match s {
        Some(x) => Some(x@),
        None => None,
    }
}

fn hwmon_of(s: &SensorInfo, a: &str, b: &str) -> (r: bool)
    ensures
        r == is_hwmon_temp_of(*s, a@, b@),
{
    if s.unit != Unit::C {
        return false;
    }
    match &s.source {
        SensorSource::Hwmon { name, .. } => str_is(name.as_str(), a) || str_is(name.as_str(), b),
        _ => false,
    }
}

fn is_cpu_temp_exec(s: &SensorInfo) -> (r: bool)
    ensures
        r == is_cpu_temp(*s),
{
    hwmon_of(s, "k10temp", "coretemp")
}

fn is_gpu_temp_exec(s: &SensorInfo) -> (r: bool)
    ensures
        r == is_gpu_temp(*s),
{
    hwmon_of(s, "amdgpu", "radeon")
}

fn cpu_control_exec(s: &SensorInfo) -> (r: bool)
    ensures
        r == is_kind(*s, SensorKind::CpuControl),
{
    if !is_cpu_temp_exec(s) {
        return false;
    }
    match &s.source {
        SensorSource::Hwmon { label, .. } => {
            let l = to_lowercase(label.as_str());
            label_marks_cpu_control(l.as_str())
        },
        _ => false,
    }
}

fn gpu_edge_exec(s: &SensorInfo) -> (r: bool)
    ensures
        r == is_kind(*s, SensorKind::GpuEdge),
{
    if !is_gpu_temp_exec(s) {
        return false;
    }
    match &s.source {
        SensorSource::Hwmon { label, .. } => {
            let l = to_lowercase(label.as_str());
            label_marks_gpu_edge(l.as_str())
        },
        _ => false,
    }
}

fn nvidia_exec(s: &SensorInfo, m: NvidiaMetric) -> (r: bool)
    ensures
        r == is_nvidia(*s, m),
{
    match &s.source {
        SensorSource::NvidiaGpu { metric, .. } => *metric == m,
        _ => false,
    }
}

/// Picks the most likely "CPU control temp" sensor — k10temp's `Tctl` /
/// coretemp's `Package id 0` first, then any other CPU temp sensor as a
/// fallback. Returns `None` if no CPU temp is exposed.
pub fn find_default_cpu_temp(sensors: &[SensorInfo]) -> (r: Option<SensorSource>)
    ensures
        opt_source_view(r) == picked_source(sensors@, cpu_temp_pick(sensors@)),
{
    let mut i: usize = 0;
    while i < sensors.len()
        invariant
            i <= sensors@.len(),
            first_sensor(sensors@, SensorKind::CpuControl) == first_sensor_from(sensors@, SensorKind::CpuControl, i as int),
        decreases sensors@.len() - i,
    {
        if cpu_control_exec(&sensors[i]) {
            return Some(sensors[i].source.copy_source());
        }
        i = i + 1;
    }
    let mut j: usize = 0;
    while j < sensors.len()
        invariant
            j <= sensors@.len(),
            first_sensor(sensors@, SensorKind::CpuControl) is None,
            first_sensor(sensors@, SensorKind::CpuTemp) == first_sensor_from(sensors@, SensorKind::CpuTemp, j as int),
        decreases sensors@.len() - j,
    {
        if is_cpu_temp_exec(&sensors[j]) {
            return Some(sensors[j].source.copy_source());
        }
        j = j + 1;
    }
    None
}

/// Picks the most likely "GPU edge temp" sensor — NVIDIA first (if present),
/// then amdgpu's `edge` label, then any GPU-ish hwmon temp.
pub fn find_default_gpu_temp(sensors: &[SensorInfo]) -> (r: Option<SensorSource>)
    ensures
        opt_source_view(r) == picked_source(sensors@, gpu_temp_pick(sensors@)),
{
    let mut k: usize = 0;
    while k < sensors.len()
        invariant
            k <= sensors@.len(),
            first_sensor(sensors@, SensorKind::NvidiaTemp) == first_sensor_from(sensors@, SensorKind::NvidiaTemp, k as int),
        decreases sensors@.len() - k,
    {
        if nvidia_exec(&sensors[k], NvidiaMetric::Temp) {
            return Some(sensors[k].source.copy_source());
        }
        k = k + 1;
    }
    let mut i: usize = 0;
    while i < sensors.len()
        invariant
            i <= sensors@.len(),
            first_sensor(sensors@, SensorKind::NvidiaTemp) is None,
            first_sensor(sensors@, SensorKind::GpuEdge) == first_sensor_from(sensors@, SensorKind::GpuEdge, i as int),
        decreases sensors@.len() - i,
    {
        if gpu_edge_exec(&sensors[i]) {
            return Some(sensors[i].source.copy_source());
        }
        i = i + 1;
    }
    let mut j: usize = 0;
    while j < sensors.len()
        invariant
            j <= sensors@.len(),
            first_sensor(sensors@, SensorKind::NvidiaTemp) is None,
            first_sensor(sensors@, SensorKind::GpuEdge) is None,
            first_sensor(sensors@, SensorKind::GpuTemp) == first_sensor_from(sensors@, SensorKind::GpuTemp, j as int),
        decreases sensors@.len() - j,
    {
        if is_gpu_temp_exec(&sensors[j]) {
            return Some(sensors[j].source.copy_source());
        }
        j = j + 1;
    }
    None
}

/// The view of an optional configuration.
pub open spec fn opt_config_view(c: Option<SensorSourceConfig>) -> Option<SensorSourceConfigView> {
    match c {
        Some(x) => Some(x@),
        None => None,
    }
}

/// The configuration of the source picked by `pick`.
pub open spec fn picked_config(sensors: Seq<SensorInfo>, pick: Option<int>) -> Option<SensorSourceConfigView> {
    match pick {
        Some(i) => Some(config_of(sensors[i].source@)),
        None => None,
    }
}

/// The source chosen for a category on a machine with the given sensors,
/// default-route interface and root disk.
pub open spec fn pick_spec(
    category: SensorCategory,
    sensors: Seq<SensorInfo>,
    iface: Option<Seq<char>>,
    disk: Option<Seq<char>>,
) -> Option<SensorSourceConfigView> {
    match category {
        SensorCategory::CpuUsage => Some(SensorSourceConfigView::CpuUsage),
        SensorCategory::MemUsage => Some(SensorSourceConfigView::MemUsage),
        SensorCategory::MemUsed => Some(SensorSourceConfigView::MemUsed),
        SensorCategory::MemFree => Some(SensorSourceConfigView::MemFree),
        SensorCategory::CpuTemp => picked_config(sensors, cpu_temp_pick(sensors)),
        SensorCategory::GpuTemp => picked_config(sensors, gpu_temp_pick(sensors)),
        SensorCategory::GpuUsage => picked_config(sensors, first_sensor(sensors, SensorKind::GpuUsage)),
        SensorCategory::NetworkRx => match iface {
            Some(i) => Some(SensorSourceConfigView::NetworkRx { iface: i }),
            None => None,
        },
        SensorCategory::NetworkTx => match iface {
            Some(i) => Some(SensorSourceConfigView::NetworkTx { iface: i }),
            None => None,
        },
        SensorCategory::DiskRead => match disk {
            Some(d) => Some(SensorSourceConfigView::DiskRead { device: d }),
            None => None,
        },
        SensorCategory::DiskWrite => match disk {
            Some(d) => Some(SensorSourceConfigView::DiskWrite { device: d }),
            None => None,
        },
    }
}

/// The view of an optional string.
pub open spec fn opt_string_view(s: Option<String>) -> Option<Seq<char>> {
    match s {
        Some(x) => Some(x@),
        None => None,
    }
}

fn gpu_usage_exec(s: &SensorInfo) -> (r: bool)
    ensures
        r == is_kind(*s, SensorKind::GpuUsage),
{
    match &s.source {
        SensorSource::NvidiaGpu { metric, .. } => *metric == NvidiaMetric::Usage,
        SensorSource::AmdGpuUsage { .. } => true,
        _ => false,
    }
}

fn map_to_config(s: Option<SensorSource>) -> (r: Option<SensorSourceConfig>)
    ensures
        opt_config_view(r) == match opt_source_view(s) {
            Some(v) => Some(config_of(v)),
            None => None::<SensorSourceConfigView>,
        },
{
    match s {
        Some(x) => Some(source_to_config(x)),
        None => None,
    }
}

/// Resolves a sensor category to a concrete source on this machine:
/// usage and memory categories map to themselves, temperatures and GPU
/// usage to the default sensor found among `sensors`, network rates to the
/// default-route interface and disk rates to the root disk (each `None`
/// when the machine does not expose one), so the caller can leave the
/// widget's existing source intact.
pub fn pick_source_for_category(
    category: SensorCategory,
    sensors: &[SensorInfo],
    default_route_iface: Option<String>,
    root_disk_device: Option<String>,
) -> (r: Option<SensorSourceConfig>)
    ensures
        opt_config_view(r) == pick_spec(
            category,
            sensors@,
            opt_string_view(default_route_iface),
            opt_string_view(root_disk_device),
        ),
{
    match category {
        SensorCategory::CpuUsage => Some(SensorSourceConfig::CpuUsage),
        SensorCategory::MemUsage => Some(SensorSourceConfig::MemUsage),
        SensorCategory::MemUsed => Some(SensorSourceConfig::MemUsed),
        SensorCategory::MemFree => Some(SensorSourceConfig::MemFree),
        SensorCategory::CpuTemp => map_to_config(find_default_cpu_temp(sensors)),
        SensorCategory::GpuTemp => map_to_config(find_default_gpu_temp(sensors)),
        SensorCategory::GpuUsage => {
            let mut i: usize = 0;
            while i < sensors.len()
                invariant
                    category == SensorCategory::GpuUsage,
                    i <= sensors@.len(),
                    first_sensor(sensors@, SensorKind::GpuUsage) == first_sensor_from(
                        sensors@,
                        SensorKind::GpuUsage,
                        i as int,
                    ),
                decreases sensors@.len() - i,
            {
                if gpu_usage_exec(&sensors[i]) {
                    return Some(source_to_config(sensors[i].source.copy_source()));
                }
                i = i + 1;
            }
            None
        },
        SensorCategory::NetworkRx => match default_route_iface {
            Some(iface) => Some(SensorSourceConfig::NetworkRx { iface }),
            None => None,
        },
        SensorCategory::NetworkTx => match default_route_iface {
            Some(iface) => Some(SensorSourceConfig::NetworkTx { iface }),
            None => None,
        },
        SensorCategory::DiskRead => match root_disk_device {
            Some(device) => Some(SensorSourceConfig::DiskRead { device }),
            None => None,
        },
        SensorCategory::DiskWrite => match root_disk_device {
            Some(device) => Some(SensorSourceConfig::DiskWrite { device }),
            None => None,
        },
    }
}

/// Category of an hwmon source from its driver name and lowercased label:
/// k10temp/coretemp are CPU temperatures; amdgpu/radeon labels mentioning
/// `edge` or `temp` are GPU temperatures.
pub open spec fn hwmon_category_spec(name: Seq<char>, lower_label: Seq<char>) -> Option<SensorCategory> {
    if name == "k10temp"@ || name == "coretemp"@ {
        Some(SensorCategory::CpuTemp)
    } else if (name == "amdgpu"@ || name == "radeon"@) && (contains_seq(lower_label, "edge"@)
        || contains_seq(lower_label, "temp"@)) {
        Some(SensorCategory::GpuTemp)
    } else {
        None
    }
}

/// The category of a configured source.
pub open spec fn infer_spec(c: SensorSourceConfigView) -> Option<SensorCategory> {
    match c {
        SensorSourceConfigView::CpuUsage => Some(SensorCategory::CpuUsage),
        SensorSourceConfigView::MemUsage => Some(SensorCategory::MemUsage),
        SensorSourceConfigView::MemUsed => Some(SensorCategory::MemUsed),
        SensorSourceConfigView::MemFree => Some(SensorCategory::MemFree),
        SensorSourceConfigView::NvidiaGpu { metric, .. } => match metric {
            NvidiaMetric::Temp => Some(SensorCategory::GpuTemp),
            NvidiaMetric::Usage => Some(SensorCategory::GpuUsage),
        },
        SensorSourceConfigView::AmdGpuUsage { .. } => Some(SensorCategory::GpuUsage),
        SensorSourceConfigView::Hwmon { name, label, .. } => hwmon_category_spec(name, lowercase(label)),
        SensorSourceConfigView::NetworkRx { .. } => Some(SensorCategory::NetworkRx),
        SensorSourceConfigView::NetworkTx { .. } => Some(SensorCategory::NetworkTx),
        SensorSourceConfigView::DiskRead { .. } => Some(SensorCategory::DiskRead),
        SensorSourceConfigView::DiskWrite { .. } => Some(SensorCategory::DiskWrite),
        SensorSourceConfigView::Command { .. } => None,
        SensorSourceConfigView::Constant { .. } => None,
        SensorSourceConfigView::WirelessCoolant { .. } => None,
    }
}

/// The category of an hwmon source, from its driver name and its label
/// already lowercased.
pub fn hwmon_category(name: &str, lower_label: &str) -> (r: Option<SensorCategory>)
    ensures
        r == hwmon_category_spec(name@, lower_label@),
{
    if str_is(name, "k10temp") || str_is(name, "coretemp") {
        return Some(SensorCategory::CpuTemp);
    }
    if (str_is(name, "amdgpu") || str_is(name, "radeon")) && (str_contains(lower_label, "edge")
        || str_contains(lower_label, "temp")) {
        return Some(SensorCategory::GpuTemp);
    }
    None
}

/// The category a configured source belongs to, if any (commands,
/// constants and wireless coolant readings have none).
pub fn infer_sensor_category(source: &SensorSourceConfig) -> (r: Option<SensorCategory>)
    ensures
        r == infer_spec(source@),
{
    match source {
        SensorSourceConfig::CpuUsage => Some(SensorCategory::CpuUsage),
        SensorSourceConfig::MemUsage => Some(SensorCategory::MemUsage),
        SensorSourceConfig::MemUsed => Some(SensorCategory::MemUsed),
        SensorSourceConfig::MemFree => Some(SensorCategory::MemFree),
        SensorSourceConfig::NvidiaGpu { metric, .. } => match metric {
            NvidiaMetric::Temp => Some(SensorCategory::GpuTemp),
            NvidiaMetric::Usage => Some(SensorCategory::GpuUsage),
        },
        SensorSourceConfig::AmdGpuUsage { .. } => Some(SensorCategory::GpuUsage),
        SensorSourceConfig::Hwmon { name, label, .. } => {
            let l = to_lowercase(label.as_str());
            hwmon_category(name.as_str(), l.as_str())
        },
        SensorSourceConfig::NetworkRx { .. } => Some(SensorCategory::NetworkRx),
        SensorSourceConfig::NetworkTx { .. } => Some(SensorCategory::NetworkTx),
        SensorSourceConfig::DiskRead { .. } => Some(SensorCategory::DiskRead),
        SensorSourceConfig::DiskWrite { .. } => Some(SensorCategory::DiskWrite),
        SensorSourceConfig::Command { .. } | SensorSourceConfig::Constant { .. }
        | SensorSourceConfig::WirelessCoolant { .. } => None,
    }
}

proof fn lemma_first_sensor_is_kind(sensors: Seq<SensorInfo>, k: SensorKind, i: int)
    requires
        first_sensor_from(sensors, k, i) is Some,
    ensures
        0 <= first_sensor_from(sensors, k, i).unwrap() < sensors.len(),
        is_kind(sensors[first_sensor_from(sensors, k, i).unwrap()], k),
    decreases sensors.len() - i,
{
    if i < 0 || i >= sensors.len() {
    } else if is_kind(sensors[i], k) {
    } else {
        lemma_first_sensor_is_kind(sensors, k, i + 1);
    }
}

/// Picking a source for a category and inferring the category of that
/// source gives the category back — except for a GPU temperature that was
/// only found as an amdgpu/radeon sensor whose label mentions neither
/// `edge` nor `temp` (in any case). A fallback sensor whose label mentions
/// `temp` is still inferred as a GPU temperature.
pub proof fn law_pick_then_infer(
    category: SensorCategory,
    sensors: Seq<SensorInfo>,
    iface: Option<Seq<char>>,
    disk: Option<Seq<char>>,
)
    requires
        pick_spec(category, sensors, iface, disk) is Some,
        category == SensorCategory::GpuTemp ==> (first_sensor(sensors, SensorKind::NvidiaTemp) is Some
            || first_sensor(sensors, SensorKind::GpuEdge) is Some || contains_seq(
            lower_label_of(sensors[first_sensor(sensors, SensorKind::GpuTemp).unwrap()]),
            "temp"@,
        )),
    ensures
        infer_spec(pick_spec(category, sensors, iface, disk).unwrap()) == Some(category),
{
    match category {
        SensorCategory::CpuTemp => {
            let k = if first_sensor(sensors, SensorKind::CpuControl) is Some {
                SensorKind::CpuControl
            } else {
                SensorKind::CpuTemp
            };
            lemma_first_sensor_is_kind(sensors, k, 0);
            let i = first_sensor(sensors, k).unwrap();
            assert(cpu_temp_pick(sensors) == Some(i));
            assert(is_cpu_temp(sensors[i]));
            let src = sensors[i].source@;
            assert(src is Hwmon);
            assert(infer_spec(config_of(src)) == hwmon_category_spec(src->Hwmon_name, lowercase(src->Hwmon_label)));
            assert(src->Hwmon_name == "k10temp"@ || src->Hwmon_name == "coretemp"@);
            assert(hwmon_category_spec(src->Hwmon_name, lowercase(src->Hwmon_label)) == Some(SensorCategory::CpuTemp));
            assert(pick_spec(category, sensors, iface, disk) == Some(config_of(sensors[i].source@)));
        },
        SensorCategory::GpuTemp => {
            if first_sensor(sensors, SensorKind::NvidiaTemp) is Some {
                lemma_first_sensor_is_kind(sensors, SensorKind::NvidiaTemp, 0);
            } else if first_sensor(sensors, SensorKind::GpuEdge) is None {
                lemma_first_sensor_is_kind(sensors, SensorKind::GpuTemp, 0);
                reveal_strlit("amdgpu");
                reveal_strlit("radeon");
                reveal_strlit("k10temp");
                reveal_strlit("coretemp");
                let i = first_sensor(sensors, SensorKind::GpuTemp).unwrap();
                let src = sensors[i].source@;
                assert(src is Hwmon);
                assert(src->Hwmon_name == "amdgpu"@ || src->Hwmon_name == "radeon"@);
                assert(src->Hwmon_name != "k10temp"@ && src->Hwmon_name != "coretemp"@);
            } else {
                lemma_first_sensor_is_kind(sensors, SensorKind::GpuEdge, 0);
                reveal_strlit("amdgpu");
                reveal_strlit("radeon");
                reveal_strlit("k10temp");
                reveal_strlit("coretemp");
                let i = first_sensor(sensors, SensorKind::GpuEdge).unwrap();
                let src = sensors[i].source@;
                assert(src is Hwmon);
                assert(src->Hwmon_name == "amdgpu"@ || src->Hwmon_name == "radeon"@);
                assert(src->Hwmon_name != "k10temp"@ && src->Hwmon_name != "coretemp"@);
            }
        },
        SensorCategory::GpuUsage => {
            lemma_first_sensor_is_kind(sensors, SensorKind::GpuUsage, 0);
        },
        _ => {},
    }
}

/// Whether two texts are equal.
fn same_text(a: &String, b: &String) -> (r: bool)
    ensures
        r == (a@ == b@),
{
    let x = str_chars(a.as_str());
    let y = str_chars(b.as_str());
    crate::text::chars_eq(&x, &y)
}

/// Whether two source configurations are the same.
pub fn config_eq(a: &SensorSourceConfig, b: &SensorSourceConfig) -> (r: bool)
    ensures
        r == (a@ == b@),
{
    match (a, b) {
        (
            SensorSourceConfig::Hwmon { name: n1, label: l1, device_path: p1 },
            SensorSourceConfig::Hwmon { name: n2, label: l2, device_path: p2 },
        ) => same_text(n1, n2) && same_text(l1, l2) && same_text(p1, p2),
        (
            SensorSourceConfig::NvidiaGpu { gpu_index: g1, metric: m1 },
            SensorSourceConfig::NvidiaGpu { gpu_index: g2, metric: m2 },
        ) => *g1 == *g2 && (match (m1, m2) {
            (NvidiaMetric::Temp, NvidiaMetric::Temp) => true,
            (NvidiaMetric::Usage, NvidiaMetric::Usage) => true,
            _ => false,
        }),
        (
            SensorSourceConfig::AmdGpuUsage { card_index: c1 },
            SensorSourceConfig::AmdGpuUsage { card_index: c2 },
        ) => *c1 == *c2,
        (SensorSourceConfig::Command { cmd: c1 }, SensorSourceConfig::Command { cmd: c2 }) => same_text(c1, c2),
        (
            SensorSourceConfig::WirelessCoolant { device_id: d1 },
            SensorSourceConfig::WirelessCoolant { device_id: d2 },
        ) => same_text(d1, d2),
        (SensorSourceConfig::CpuUsage, SensorSourceConfig::CpuUsage) => true,
        (SensorSourceConfig::MemUsage, SensorSourceConfig::MemUsage) => true,
        (SensorSourceConfig::MemUsed, SensorSourceConfig::MemUsed) => true,
        (SensorSourceConfig::MemFree, SensorSourceConfig::MemFree) => true,
        (SensorSourceConfig::NetworkRx { iface: i1 }, SensorSourceConfig::NetworkRx { iface: i2 }) => same_text(i1, i2),
        (SensorSourceConfig::NetworkTx { iface: i1 }, SensorSourceConfig::NetworkTx { iface: i2 }) => same_text(i1, i2),
        (SensorSourceConfig::DiskRead { device: d1 }, SensorSourceConfig::DiskRead { device: d2 }) => same_text(d1, d2),
        (SensorSourceConfig::DiskWrite { device: d1 }, SensorSourceConfig::DiskWrite { device: d2 }) => same_text(d1, d2),
        (
            SensorSourceConfig::Constant { value_bits: v1 },
            SensorSourceConfig::Constant { value_bits: v2 },
        ) => *v1 == *v2,
        _ => false,
    }
}

/// Position of the first sensor at or after `i` whose source is the one
/// configuration `c` names.
pub open spec fn sensor_for_config_from(sensors: Seq<SensorInfo>, c: SensorSourceConfigView, i: int) -> Option<int>
    decreases sensors.len() - i,
{
    if i < 0 || i >= sensors.len() {
        None
    } else if config_of(sensors[i].source@) == c {
        Some(i)
    } else {
        sensor_for_config_from(sensors, c, i + 1)
    }
}

/// The divider of the first sensor whose source configuration `c` names,
/// or 1 when no sensor has that source.
pub open spec fn divider_spec(sensors: Seq<SensorInfo>, c: SensorSourceConfigView) -> int {
    match sensor_for_config_from(sensors, c, 0) {
        Some(i) => sensors[i].divider as int,
        None => 1,
    }
}

/// The divider that turns raw readings of the configured source into its
/// unit: that of the first listed sensor with this source, else 1.
pub fn sensor_divider(source: &SensorSourceConfig, sensors: &[SensorInfo]) -> (r: usize)
    ensures
        r == divider_spec(sensors@, source@),
{
    let mut i: usize = 0;
    while i < sensors.len()
        invariant
            i <= sensors@.len(),
            sensor_for_config_from(sensors@, source@, 0) == sensor_for_config_from(sensors@, source@, i as int),
        decreases sensors@.len() - i,
    {
        let c = source_to_config(sensors[i].source.copy_source());
        if config_eq(&c, source) {
            assert(sensor_for_config_from(sensors@, source@, i as int) == Some(i as int));
            return sensors[i].divider;
        }
        i = i + 1;
    }
    1
}

} // verus!
