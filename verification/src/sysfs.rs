//! Reading of kernel text files (`/proc`, `/sys`) for sensor discovery:
//! the caller reads the files, these functions decide what they say.

use vstd::prelude::*;
use vstd::string::StrSliceExecFns;
use crate::sensors::{DiskDirection, NetDirection, SensorInfo, SensorSource, SensorSourceView, Unit};
use crate::text::{
    chars_eq, chars_to_string, dec, is_ws, lines_of, lines_spec, parse_unsigned,
    parse_unsigned_spec, push_all, push_dec, push_str, starts_with, str_chars, str_is,
    str_starts_with, trim_chars, trim_spec, words_of, words_spec, ends_with_seq, first_occurrence,
    lowercase, to_lowercase, ends_with, find, str_ends_with, copy_string, index_of_char_from,
    sort_strings, sort_texts, texts_view,
};

verus! {

/// The first word of the first line at or after `i` whose second word is
/// `00000000` (the default route's destination).
pub open spec fn route_iface_from(lines: Seq<Seq<char>>, i: int) -> Option<Seq<char>>
    decreases lines.len() - i,
{
    if i < 0 || i >= lines.len() {
        None
    } else {
        let w = words_spec(lines[i]);
        if w.len() >= 2 && w[1] == "00000000"@ {
            Some(w[0])
        } else {
            route_iface_from(lines, i + 1)
        }
    }
}

/// The interface of the default route in a `/proc/net/route` table (the
/// header line is skipped).
pub open spec fn default_route_iface_spec(route: Seq<char>) -> Option<Seq<char>> {
    route_iface_from(lines_spec(route), 1)
}

/// The view of an optional string.
pub open spec fn opt_view(s: Option<String>) -> Option<Seq<char>> {
    match s {
        Some(x) => Some(x@),
        None => None,
    }
}

/// The interface that carries the default route, from the text of
/// `/proc/net/route`.
pub fn default_route_iface_from(route: &str) -> (r: Option<String>)
    ensures
        opt_view(r) == default_route_iface_spec(route@),
{
    let text = str_chars(route);
    let lines = lines_of(&text);
    let zero = str_chars("00000000");
    let mut i: usize = 1;
    while i < lines.len()
        invariant
            1 <= i,
            i <= lines@.len() || lines@.len() == 0,
            zero@ == "00000000"@,
            lines@.len() == lines_spec(route@).len(),
            forall|k: int| 0 <= k < lines@.len() ==> (#[trigger] lines@[k])@ == lines_spec(route@)[k],
            default_route_iface_spec(route@) == route_iface_from(lines_spec(route@), i as int),
        decreases lines@.len() - i,
    {
        let words = words_of(&lines[i]);
        if words.len() >= 2 && chars_eq(&words[1], &zero) {
            return Some(chars_to_string(&words[0]));
        }
        i = i + 1;
    }
    None
}

/// The first word of the first line at or after `i` whose second word is `/`.
pub open spec fn root_mount_from(lines: Seq<Seq<char>>, i: int) -> Option<Seq<char>>
    decreases lines.len() - i,
{
    if i < 0 || i >= lines.len() {
        None
    } else {
        let w = words_spec(lines[i]);
        if w.len() >= 2 && w[1] == "/"@ {
            Some(w[0])
        } else {
            root_mount_from(lines, i + 1)
        }
    }
}

/// The partition name (device without `/dev/`) mounted at `/` according
/// to a `/proc/mounts` table; `None` when `/` is not listed or its device
/// is not under `/dev/`.
pub open spec fn root_partition_spec(mounts: Seq<char>) -> Option<Seq<char>> {
    match root_mount_from(lines_spec(mounts), 0) {
        Some(dev) => if "/dev/"@.is_prefix_of(dev) {
            Some(dev.skip("/dev/"@.len() as int))
        } else {
            None
        },
        None => None,
    }
}

/// The partition mounted at `/`, from the text of `/proc/mounts`.
pub fn root_partition_from_mounts(mounts: &str) -> (r: Option<String>)
    ensures
        opt_view(r) == root_partition_spec(mounts@),
{
    let text = str_chars(mounts);
    let lines = lines_of(&text);
    let slash = str_chars("/");
    let dev_prefix = str_chars("/dev/");
    let mut i: usize = 0;
    while i < lines.len()
        invariant
            i <= lines@.len(),
            slash@ == "/"@,
            dev_prefix@ == "/dev/"@,
            lines@.len() == lines_spec(mounts@).len(),
            forall|k: int| 0 <= k < lines@.len() ==> (#[trigger] lines@[k])@ == lines_spec(mounts@)[k],
            root_mount_from(lines_spec(mounts@), 0) == root_mount_from(lines_spec(mounts@), i as int),
        decreases lines@.len() - i,
    {
        let words = words_of(&lines[i]);
        if words.len() >= 2 && chars_eq(&words[1], &slash) {
            let dev = &words[0];
            if starts_with(dev, &dev_prefix) {
                let mut part: Vec<char> = Vec::new();
                push_all(&mut part, &dev.as_slice()[dev_prefix.len()..dev.len()]);
                return Some(chars_to_string(&part));
            }
            return None;
        }
        i = i + 1;
    }
    None
}

/// The whole-disk device of a partition: the name of the partition's parent
/// directory in sysfs, unless that parent is the `block` class directory
/// itself (the partition is a whole disk).
pub fn block_device_for(partition: &str, parent_name: &str) -> (r: String)
    ensures
        r@ == (if parent_name@ == "block"@ { partition@ } else { parent_name@ }),
{
    if str_is(parent_name, "block") {
        let v = str_chars(partition);
        chars_to_string(&v)
    } else {
        let v = str_chars(parent_name);
        chars_to_string(&v)
    }
}

/// Whether a path component looks like a PCI address (`0000:03:00.0`):
/// it holds a colon and a dot and is at least seven bytes long (UTF-8).
pub fn looks_like_pci_id(name: &str) -> (r: bool)
    ensures
        r == (name@.contains(':') && name@.contains('.') && name.len() >= 7),
{
    let v = str_chars(name);
    let mut colon = false;
    let mut dot = false;
    let mut i: usize = 0;
    while i < v.len()
        invariant
            i <= v@.len(),
            v@ == name@,
            colon == exists|j: int| 0 <= j < i && v@[j] == ':',
            dot == exists|j: int| 0 <= j < i && v@[j] == '.',
        decreases v@.len() - i,
    {
        if v[i] == ':' {
            colon = true;
        }
        if v[i] == '.' {
            dot = true;
        }
        i = i + 1;
    }
    assert(colon == name@.contains(':')) by {
        if colon {
            let j = choose|j: int| 0 <= j < i && v@[j] == ':';
            assert(name@[j] == ':');
        }
        if name@.contains(':') {
            let j = choose|j: int| 0 <= j < name@.len() && name@[j] == ':';
            assert(v@[j] == ':');
        }
    }
    assert(dot == name@.contains('.')) by {
        if dot {
            let j = choose|j: int| 0 <= j < i && v@[j] == '.';
            assert(name@[j] == '.');
        }
        if name@.contains('.') {
            let j = choose|j: int| 0 <= j < name@.len() && name@[j] == '.';
            assert(v@[j] == '.');
        }
    }
    colon && dot && name.len() >= 7
}

/// Whether a path component looks like a PCI address, on its characters.
pub open spec fn pci_like(n: Seq<char>) -> bool {
    n.contains(':') && n.contains('.') && (vstd::utf8::encode_utf8(n).len() as usize) >= 7
}

/// One ancestor of a canonical device path, from the device up: the path
/// and its last component (`None` for the root).
#[derive(Debug)]
pub struct PathAncestor {
    pub path: String,
    pub file_name: Option<String>,
}

/// The first PCI-like component name among the ancestors from `i` on,
/// looking no further up than `/sys/devices`.
pub open spec fn pci_from_ancestors(anc: Seq<PathAncestor>, i: int) -> Option<Seq<char>>
    decreases anc.len() - i,
{
    if i < 0 || i >= anc.len() {
        None
    } else {
        match anc[i].file_name {
            Some(n) if pci_like(n@) => Some(n@),
            _ => if anc[i].path@ == "/sys/devices"@ {
                None
            } else {
                pci_from_ancestors(anc, i + 1)
            },
        }
    }
}

/// The identifier of an hwmon chip's device: `None` (as text) when the
/// device link cannot be resolved, else the PCI address among the resolved
/// path's ancestors, else `platform:` and the chip's trimmed driver name
/// (`unknown` when unreadable).
pub open spec fn pci_id_spec(ancestors: Option<Seq<PathAncestor>>, name_file: Option<Seq<char>>) -> Seq<char> {
    match ancestors {
        None => "None"@,
        Some(a) => match pci_from_ancestors(a, 0) {
            Some(n) => n,
            None => "platform:"@ + trim_spec(
                match name_file {
                    Some(n) => n,
                    None => "unknown"@,
                },
            ),
        },
    }
}

/// The view of an optional slice of ancestors.
pub open spec fn opt_ancestors(a: Option<&[PathAncestor]>) -> Option<Seq<PathAncestor>> {
    match a {
        Some(x) => Some(x@),
        None => None,
    }
}

/// The identifier of an hwmon chip's device, from the ancestors of its
/// resolved device link (`None` when it does not resolve) and its `name`
/// file (`None` when unreadable).
pub fn get_pci_id_from_path(ancestors: Option<&[PathAncestor]>, name_file: Option<&str>) -> (r: String)
    ensures
        r@ == pci_id_spec(opt_ancestors(ancestors), opt_str_view(name_file)),
{
    let anc = match ancestors {
        None => {
            return chars_to_string(&str_chars("None"));
        },
        Some(a) => a,
    };
    assert(opt_ancestors(ancestors) == Some(anc@));
    let mut i: usize = 0;
    while i < anc.len()
        invariant
            i <= anc@.len(),
            opt_ancestors(ancestors) == Some(anc@),
            pci_from_ancestors(anc@, 0) == pci_from_ancestors(anc@, i as int),
        ensures
            pci_from_ancestors(anc@, 0) is None,
        decreases anc@.len() - i,
    {
        let a = &anc[i];
        assert(anc@[i as int] == *a);
        match &a.file_name {
            Some(n) => {
                let pci = looks_like_pci_id(n.as_str());
                assert(pci == pci_like(n@));
                if pci {
                    return chars_to_string(&str_chars(n.as_str()));
                }
            },
            None => {},
        }
        if str_is(a.path.as_str(), "/sys/devices") {
            assert(pci_from_ancestors(anc@, i as int) is None);
            break;
        }
        i = i + 1;
    }
    let mut out: Vec<char> = Vec::new();
    push_str(&mut out, "platform:");
    let raw = match name_file {
        Some(n) => str_chars(n),
        None => str_chars("unknown"),
    };
    let t = trim_chars(&raw);
    push_all(&mut out, &t);
    chars_to_string(&out)
}

/// The PCI address without its `0000:` domain, when it has one.
pub fn strip_pci_domain(pci_id: &str) -> (r: String)
    ensures
        r@ == (if "0000:"@.is_prefix_of(pci_id@) { pci_id@.skip("0000:"@.len() as int) } else { pci_id@ }),
{
    let v = str_chars(pci_id);
    let p = str_chars("0000:");
    if starts_with(&v, &p) {
        let mut out: Vec<char> = Vec::new();
        push_all(&mut out, &v.as_slice()[p.len()..v.len()]);
        chars_to_string(&out)
    } else {
        chars_to_string(&v)
    }
}

/// The number after `prefix` in a file name, read as a `u32`.
pub open spec fn numbered_name_spec(name: Seq<char>, prefix: Seq<char>) -> Option<nat> {
    if prefix.is_prefix_of(name) {
        parse_unsigned_spec(name.skip(prefix.len() as int), 10, u32::MAX as nat)
    } else {
        None
    }
}

/// The number that follows `prefix` in `name` (`hwmon3` → 3, `card0` → 0).
pub fn numbered_name(name: &str, prefix: &str) -> (r: Option<u32>)
    ensures
        match r {
            Some(v) => numbered_name_spec(name@, prefix@) == Some(v as nat),
            None => numbered_name_spec(name@, prefix@) is None,
        },
{
    let v = str_chars(name);
    let p = str_chars(prefix);
    if !starts_with(&v, &p) {
        return None;
    }
    match parse_unsigned(&v.as_slice()[p.len()..v.len()], 10, 0xFFFF_FFFF) {
        Some(x) => Some(x as u32),
        None => None,
    }
}

/// Ordering key of a hwmon directory: its number, or `u32::MAX` when the
/// name is not `hwmon<number>` (such entries sort last).
pub fn hwmon_sort_key(file_name: &str) -> (r: u32)
    ensures
        r as nat == match numbered_name_spec(file_name@, "hwmon"@) {
            Some(v) => v,
            None => u32::MAX as nat,
        },
{
    match numbered_name(file_name, "hwmon") {
        Some(n) => n,
        None => u32::MAX,
    }
}

/// The device path recorded for an hwmon sensor: the device link's name,
/// unless it is missing or a placeholder starting with `DEADBEEF`, in
/// which case the PCI id.
pub fn sensor_device_path(device_link: Option<&str>, pci_id: &str) -> (r: String)
    ensures
        r@ == match device_link {
            Some(d) => if "DEADBEEF"@.is_prefix_of(d@) { pci_id@ } else { d@ },
            None => pci_id@,
        },
{
    match device_link {
        Some(d) => {
            if str_starts_with(d, "DEADBEEF") {
                chars_to_string(&str_chars(pci_id))
            } else {
                chars_to_string(&str_chars(d))
            }
        },
        None => chars_to_string(&str_chars(pci_id)),
    }
}

/// Unit and divider of an hwmon reading, from its file prefix: `temp*` in
/// millidegrees Celsius, `fan*` in RPM, `in*` in volts, `freq*` in hertz
/// shown as MHz, anything else unscaled.
pub open spec fn unit_spec(prefix: Seq<char>) -> (Unit, usize) {
    if "temp"@.is_prefix_of(prefix) {
        (Unit::C, 1000)
    } else if "fan"@.is_prefix_of(prefix) {
        (Unit::RPM, 1)
    } else if "in"@.is_prefix_of(prefix) {
        (Unit::V, 1)
    } else if "freq"@.is_prefix_of(prefix) {
        (Unit::FREQ, 1_000_000)
    } else {
        (Unit::WO, 1)
    }
}

/// The unit and divider of an hwmon input file with the given prefix.
pub fn get_unit(prefix: &str) -> (r: (Unit, usize))
    ensures
        r == unit_spec(prefix@),
{
    if str_starts_with(prefix, "temp") {
        (Unit::C, 1000)
    } else if str_starts_with(prefix, "fan") {
        (Unit::RPM, 1)
    } else if str_starts_with(prefix, "in") {
        (Unit::V, 1)
    } else if str_starts_with(prefix, "freq") {
        (Unit::FREQ, 1000 * 1000)
    } else {
        (Unit::WO, 1)
    }
}

/// The friendly name of an hwmon reading from its file prefix and label and
/// their lowercase forms `lp` and `ll`.
pub open spec fn label_name_spec(prefix: Seq<char>, label: Seq<char>, lp: Seq<char>, ll: Seq<char>) -> Seq<char> {
    if ends_with_seq(ll, "ctl"@) || ends_with_seq(ll, "package id 0"@) {
        "Control Temp"@
    } else if ends_with_seq(ll, "junction"@) && "temp"@.is_prefix_of(lp) {
        "Hotspot Temp"@
    } else if ends_with_seq(ll, "edge"@) && "temp"@.is_prefix_of(lp) {
        "Edge Temp"@
    } else if ends_with_seq(ll, "mem"@) && "temp"@.is_prefix_of(lp) {
        "VRAM Temp"@
    } else if ends_with_seq(ll, "sclk"@) && "freq"@.is_prefix_of(lp) {
        "System Clock"@
    } else if ends_with_seq(ll, "mclk"@) && "freq"@.is_prefix_of(lp) {
        "Memory Clock"@
    } else if ends_with_seq(ll, "vddgfx"@) && "in"@.is_prefix_of(lp) {
        "GPU Voltage"@
    } else if first_occurrence(ll, "ccd"@) is Some {
        "Temp Die "@ + ll.skip(first_occurrence(ll, "ccd"@).unwrap() + 3)
    } else if first_occurrence(ll, "core "@) is Some {
        "Temp Core "@ + ll.skip(first_occurrence(ll, "core "@).unwrap() + 5)
    } else if first_occurrence(ll, "fan"@) is Some {
        "Fan "@ + ll.skip(first_occurrence(ll, "fan"@).unwrap() + 3)
    } else if first_occurrence(lp, "fan"@) is Some {
        "Fan "@ + lp.skip(first_occurrence(lp, "fan"@).unwrap() + 3)
    } else if label.len() == 0 {
        prefix
    } else {
        label
    }
}

fn text_after(out: &mut Vec<char>, head: &str, s: &[char], from: usize)
    requires
        from <= s@.len(),
    ensures
        final(out)@ == old(out)@ + head@ + s@.skip(from as int),
{
    push_str(out, head);
    push_all(out, &s[from..s.len()]);
    assert(s@.subrange(from as int, s@.len() as int) =~= s@.skip(from as int));
    assert(final(out)@ =~= old(out)@ + head@ + s@.skip(from as int));
}

/// The friendly name of an hwmon reading, given its prefix and label and
/// their lowercase forms.
pub fn label_name_for(prefix: &str, label: &str, lower_prefix: &str, lower_label: &str) -> (r: String)
    ensures
        r@ == label_name_spec(prefix@, label@, lower_prefix@, lower_label@),
{
    let ll = str_chars(lower_label);
    let lp = str_chars(lower_prefix);
    if str_ends_with(lower_label, "ctl") || str_ends_with(lower_label, "package id 0") {
        return chars_to_string(&str_chars("Control Temp"));
    }
    let temp = str_starts_with(lower_prefix, "temp");
    let freq = str_starts_with(lower_prefix, "freq");
    if str_ends_with(lower_label, "junction") && temp {
        return chars_to_string(&str_chars("Hotspot Temp"));
    }
    if str_ends_with(lower_label, "edge") && temp {
        return chars_to_string(&str_chars("Edge Temp"));
    }
    if str_ends_with(lower_label, "mem") && temp {
        return chars_to_string(&str_chars("VRAM Temp"));
    }
    if str_ends_with(lower_label, "sclk") && freq {
        return chars_to_string(&str_chars("System Clock"));
    }
    if str_ends_with(lower_label, "mclk") && freq {
        return chars_to_string(&str_chars("Memory Clock"));
    }
    if str_ends_with(lower_label, "vddgfx") && str_starts_with(lower_prefix, "in") {
        return chars_to_string(&str_chars("GPU Voltage"));
    }
    let mut out: Vec<char> = Vec::new();
    let lln = ll.len();
    let lpn = lp.len();
    assert(lln == ll@.len() && lpn == lp@.len());
    proof {
        reveal_strlit("ccd");
        reveal_strlit("core ");
        reveal_strlit("fan");
    }
    if let Some(idx) = find(&ll, &str_chars("ccd")) {
        text_after(&mut out, "Temp Die ", &ll, idx + 3);
        return chars_to_string(&out);
    }
    if let Some(idx) = find(&ll, &str_chars("core ")) {
        text_after(&mut out, "Temp Core ", &ll, idx + 5);
        return chars_to_string(&out);
    }
    if let Some(idx) = find(&ll, &str_chars("fan")) {
        text_after(&mut out, "Fan ", &ll, idx + 3);
        return chars_to_string(&out);
    }
    if let Some(idx) = find(&lp, &str_chars("fan")) {
        text_after(&mut out, "Fan ", &lp, idx + 3);
        return chars_to_string(&out);
    }
    if label.unicode_len() == 0 {
        chars_to_string(&str_chars(prefix))
    } else {
        chars_to_string(&str_chars(label))
    }
}

/// The friendly name of an hwmon reading: control, hotspot, edge and VRAM
/// temperatures, GPU clocks and voltage, CCD dies, cores and fans are
/// recognised from the lowercased label and prefix; otherwise the label,
/// or the prefix when the label is empty.
pub fn get_label_name(prefix: &str, label: &str) -> (r: String)
    ensures
        r@ == label_name_spec(prefix@, label@, lowercase(prefix@), lowercase(label@)),
{
    let lower_label = to_lowercase(label);
    let lower_prefix = to_lowercase(prefix);
    label_name_for(prefix, label, lower_prefix.as_str(), lower_label.as_str())
}

/// Marketing name of an AMD GPU, keyed by its PCI address (without domain).
#[derive(Debug)]
pub struct GpuName {
    pub pci_id: String,
    pub name: String,
}

/// The name recorded for PCI address `key`, from the first entry with that
/// address at or after `i`.
pub open spec fn gpu_name_from(names: Seq<GpuName>, key: Seq<char>, i: int) -> Option<Seq<char>>
    decreases names.len() - i,
{
    if i < 0 || i >= names.len() {
        None
    } else if names[i].pci_id@ == key {
        Some(names[i].name@)
    } else {
        gpu_name_from(names, key, i + 1)
    }
}

/// Whether `name` starts with one of the usual motherboard sensor chip drivers.
pub open spec fn is_motherboard_driver(name: Seq<char>) -> bool {
    "nct"@.is_prefix_of(name) || "it8"@.is_prefix_of(name) || "f71"@.is_prefix_of(name)
        || "gigabyte_wmi"@.is_prefix_of(name) || "w83"@.is_prefix_of(name)
}

/// Display name of an hwmon device and the updated memory-module and GPU
/// counters, given the contents of its `device/model` and `name` files
/// (`None` when unreadable).
pub open spec fn display_name_spec(
    model: Option<Seq<char>>,
    driver: Option<Seq<char>>,
    pci_id: Seq<char>,
    names: Seq<GpuName>,
    mem_idx: int,
    gfx_idx: int,
) -> (Option<Seq<char>>, int, int) {
    match model {
        Some(m) => (Some(trim_spec(m)), mem_idx, gfx_idx),
        None => match driver {
            None => (Some("Unknown Device"@), mem_idx, gfx_idx),
            Some(g) => {
                let n = trim_spec(g);
                if n == "nvme"@ {
                    (Some("NVMe Storage Device"@), mem_idx, gfx_idx)
                } else if n == "k10temp"@ || n == "coretemp"@ {
                    (Some("CPU"@), mem_idx, gfx_idx)
                } else if n == "amdgpu"@ {
                    match gpu_name_from(names, pci_id, 0) {
                        Some(x) => (Some(x), mem_idx, gfx_idx + 1),
                        None => (Some("AMD GPU "@ + dec(gfx_idx as nat)), mem_idx, gfx_idx + 1),
                    }
                } else if n == "nouveau"@ {
                    (Some("NVidia GPU"@), mem_idx, gfx_idx + 1)
                } else if is_motherboard_driver(n) {
                    (Some("Motherboard"@), mem_idx, gfx_idx)
                } else if "spd"@.is_prefix_of(n) {
                    (Some("DDR5 RAM Module "@ + dec((mem_idx + 1) as nat)), mem_idx + 1, gfx_idx)
                } else if "ee1004"@.is_prefix_of(n) {
                    (Some("DDR4 RAM Module "@ + dec((mem_idx + 1) as nat)), mem_idx + 1, gfx_idx)
                } else if "jc42"@.is_prefix_of(n) {
                    (Some("DDR3/ECC RAM Module "@ + dec((mem_idx + 1) as nat)), mem_idx + 1, gfx_idx)
                } else if n == "acpitz"@ {
                    (None, mem_idx, gfx_idx)
                } else {
                    (Some(n), mem_idx, gfx_idx)
                }
            },
        },
    }
}

/// An hwmon device without a model file is named by its (trimmed) driver:
/// the CPU temperature drivers `k10temp` (AMD) and `coretemp` (Intel) give
/// `CPU`, and neither counter moves.
pub proof fn law_cpu_drivers_named_cpu(driver: Seq<char>, pci_id: Seq<char>, names: Seq<GpuName>, mem_idx: int, gfx_idx: int)
    requires
        trim_spec(driver) == "k10temp"@ || trim_spec(driver) == "coretemp"@,
    ensures
        display_name_spec(None, Some(driver), pci_id, names, mem_idx, gfx_idx) == (Some("CPU"@), mem_idx, gfx_idx),
{
    reveal_strlit("k10temp");
    reveal_strlit("coretemp");
    reveal_strlit("nvme");
    assert("k10temp"@[0] != "nvme"@[0]);
    assert("coretemp"@[0] != "nvme"@[0]);
}

/// Without a model file: no readable driver name gives `Unknown Device`;
/// `nvme` names an NVMe storage device; `nouveau` an NVidia GPU and
/// `amdgpu` an AMD GPU (by its recorded name, else numbered by the GPU
/// counter), each counting one more GPU; `acpitz` thermal zones are
/// skipped; the memory counter stays. A model file names the device by its
/// trimmed text, whatever the driver, and moves no counter.
pub proof fn law_display_names_by_driver(
    model: Seq<char>,
    driver: Seq<char>,
    pci_id: Seq<char>,
    names: Seq<GpuName>,
    mem_idx: int,
    gfx_idx: int,
)
    ensures
        display_name_spec(Some(model), Some(driver), pci_id, names, mem_idx, gfx_idx) == (Some(trim_spec(model)), mem_idx, gfx_idx),
        display_name_spec(None, None, pci_id, names, mem_idx, gfx_idx) == (Some("Unknown Device"@), mem_idx, gfx_idx),
        trim_spec(driver) == "nvme"@ ==> display_name_spec(None, Some(driver), pci_id, names, mem_idx, gfx_idx)
            == (Some("NVMe Storage Device"@), mem_idx, gfx_idx),
        trim_spec(driver) == "nouveau"@ ==> display_name_spec(None, Some(driver), pci_id, names, mem_idx, gfx_idx)
            == (Some("NVidia GPU"@), mem_idx, gfx_idx + 1),
        trim_spec(driver) == "amdgpu"@ ==> {
            let r = display_name_spec(None, Some(driver), pci_id, names, mem_idx, gfx_idx);
            &&& r.1 == mem_idx
            &&& r.2 == gfx_idx + 1
            &&& r.0 == Some(
                match gpu_name_from(names, pci_id, 0) {
                    Some(x) => x,
                    None => "AMD GPU "@ + dec(gfx_idx as nat),
                },
            )
        },
        trim_spec(driver) == "acpitz"@ ==> display_name_spec(None, Some(driver), pci_id, names, mem_idx, gfx_idx)
            == (None::<Seq<char>>, mem_idx, gfx_idx),
{
    reveal_strlit("nvme");
    reveal_strlit("k10temp");
    reveal_strlit("coretemp");
    reveal_strlit("amdgpu");
    reveal_strlit("nouveau");
    reveal_strlit("acpitz");
    reveal_strlit("nct");
    reveal_strlit("it8");
    reveal_strlit("f71");
    reveal_strlit("gigabyte_wmi");
    reveal_strlit("w83");
    reveal_strlit("spd");
    reveal_strlit("ee1004");
    reveal_strlit("jc42");
    assert("nvme"@[0] != "k10temp"@[0] && "nvme"@[0] != "coretemp"@[0]);
    assert("nouveau"@[1] != "nvme"@[1] && "nouveau"@[0] != "k10temp"@[0] && "nouveau"@[0] != "coretemp"@[0]
        && "nouveau"@[0] != "amdgpu"@[0]);
    assert("amdgpu"@[0] != "nvme"@[0] && "amdgpu"@[0] != "k10temp"@[0] && "amdgpu"@[0] != "coretemp"@[0]);
    assert("acpitz"@[1] != "amdgpu"@[1]);
    assert("acpitz"@[0] != "nvme"@[0] && "acpitz"@[0] != "k10temp"@[0] && "acpitz"@[0] != "coretemp"@[0]
        && "acpitz"@[0] != "nouveau"@[0]);
    let n = trim_spec(driver);
    if n == "acpitz"@ {
        assert(n[0] != "nct"@[0]);
        assert(n[0] != "it8"@[0]);
        assert(n[0] != "f71"@[0]);
        assert(n[0] != "gigabyte_wmi"@[0]);
        assert(n[0] != "w83"@[0]);
        assert(n[0] != "spd"@[0]);
        assert(n[0] != "ee1004"@[0]);
        assert(n[0] != "jc42"@[0]);
    }
}

/// The view of an optional string slice.
pub open spec fn opt_str_view(s: Option<&str>) -> Option<Seq<char>> {
    match s {
        Some(x) => Some(x@),
        None => None,
    }
}

fn text_with_number(head: &str, n: u64) -> (r: String)
    ensures
        r@ == head@ + dec(n as nat),
{
    let mut out: Vec<char> = Vec::new();
    push_str(&mut out, head);
    push_dec(&mut out, n);
    chars_to_string(&out)
}

pub(crate) fn lookup_gpu_name(names: &[GpuName], key: &[char]) -> (r: Option<String>)
    ensures
        opt_view(r) == gpu_name_from(names@, key@, 0),
{
    let mut i: usize = 0;
    while i < names.len()
        invariant
            i <= names@.len(),
            gpu_name_from(names@, key@, 0) == gpu_name_from(names@, key@, i as int),
        decreases names@.len() - i,
    {
        let k = str_chars(names[i].pci_id.as_str());
        if chars_eq(&k, key) {
            return Some(copy_string(&names[i].name));
        }
        i = i + 1;
    }
    None
}

/// The display name of an hwmon device and the updated counters of memory
/// modules and GPUs seen so far: the model file when present; otherwise a
/// name chosen by driver (NVMe, CPU, AMD GPU by PCI address, NVidia GPU,
/// motherboard chips, numbered RAM modules; ACPI thermal zones are skipped
/// with `None`), the driver name itself, or `Unknown Device` when even the
/// driver name is unreadable.
pub fn get_display_name(
    model: Option<&str>,
    driver_name: Option<&str>,
    pci_id_stripped: &str,
    gpu_names: &[GpuName],
    mem_idx: usize,
    gfx_idx: usize,
) -> (r: (Option<String>, usize, usize))
    requires
        mem_idx < usize::MAX,
        gfx_idx < usize::MAX,
    ensures
        (opt_view(r.0), r.1 as int, r.2 as int) == display_name_spec(
            opt_str_view(model),
            opt_str_view(driver_name),
            pci_id_stripped@,
            gpu_names@,
            mem_idx as int,
            gfx_idx as int,
        ),
        model is None && driver_name is Some && (trim_spec(driver_name.unwrap()@) == "k10temp"@
            || trim_spec(driver_name.unwrap()@) == "coretemp"@) ==> (opt_view(r.0) == Some("CPU"@)
            && r.1 == mem_idx && r.2 == gfx_idx),
{
    proof {
        if model is None && driver_name is Some && (trim_spec(driver_name.unwrap()@) == "k10temp"@
            || trim_spec(driver_name.unwrap()@) == "coretemp"@) {
            law_cpu_drivers_named_cpu(driver_name.unwrap()@, pci_id_stripped@, gpu_names@, mem_idx as int, gfx_idx as int);
        }
    }
    if let Some(m) = model {
        let t = trim_chars(&str_chars(m));
        return (Some(chars_to_string(&t)), mem_idx, gfx_idx);
    }
    let g = match driver_name {
        Some(g) => g,
        None => {
            return (Some(chars_to_string(&str_chars("Unknown Device"))), mem_idx, gfx_idx);
        },
    };
    let nv = trim_chars(&str_chars(g));
    let n = chars_to_string(&nv);
    let name = n.as_str();
    if str_is(name, "nvme") {
        return (Some(chars_to_string(&str_chars("NVMe Storage Device"))), mem_idx, gfx_idx);
    }
    if str_is(name, "k10temp") || str_is(name, "coretemp") {
        return (Some(chars_to_string(&str_chars("CPU"))), mem_idx, gfx_idx);
    }
    if str_is(name, "amdgpu") {
        let key = str_chars(pci_id_stripped);
        match lookup_gpu_name(gpu_names, &key) {
            Some(x) => {
                return (Some(x), mem_idx, gfx_idx + 1);
            },
            None => {
                return (Some(text_with_number("AMD GPU ", gfx_idx as u64)), mem_idx, gfx_idx + 1);
            },
        }
    }
    if str_is(name, "nouveau") {
        return (Some(chars_to_string(&str_chars("NVidia GPU"))), mem_idx, gfx_idx + 1);
    }
    if str_starts_with(name, "nct") || str_starts_with(name, "it8") || str_starts_with(name, "f71")
        || str_starts_with(name, "gigabyte_wmi") || str_starts_with(name, "w83") {
        return (Some(chars_to_string(&str_chars("Motherboard"))), mem_idx, gfx_idx);
    }
    if str_starts_with(name, "spd") {
        return (Some(text_with_number("DDR5 RAM Module ", (mem_idx + 1) as u64)), mem_idx + 1, gfx_idx);
    }
    if str_starts_with(name, "ee1004") {
        return (Some(text_with_number("DDR4 RAM Module ", (mem_idx + 1) as u64)), mem_idx + 1, gfx_idx);
    }
    if str_starts_with(name, "jc42") {
        return (Some(text_with_number("DDR3/ECC RAM Module ", (mem_idx + 1) as u64)), mem_idx + 1, gfx_idx);
    }
    if str_is(name, "acpitz") {
        return (None, mem_idx, gfx_idx);
    }
    (Some(n), mem_idx, gfx_idx)
}

/// The interface named on one line of `/proc/net/dev`: the trimmed text
/// before the first colon, unless it is empty or the loopback `lo`.
pub open spec fn iface_of_line(l: Seq<char>) -> Option<Seq<char>> {
    match index_of_char_from(l, ':', 0) {
        None => None,
        Some(k) => {
            let n = trim_spec(l.take(k));
            if n == "lo"@ || n.len() == 0 {
                None
            } else {
                Some(n)
            }
        },
    }
}

/// The interfaces named by a list of lines, in order.
pub open spec fn ifaces_of_lines(lines: Seq<Seq<char>>) -> Seq<Seq<char>>
    decreases lines.len(),
{
    if lines.len() == 0 {
        seq![]
    } else {
        match iface_of_line(lines.last()) {
            Some(n) => ifaces_of_lines(lines.drop_last()).push(n),
            None => ifaces_of_lines(lines.drop_last()),
        }
    }
}

fn iface_of(l: &[char]) -> (r: Option<String>)
    ensures
        opt_view(r) == iface_of_line(l@),
{
    let mut k: usize = 0;
    while k < l.len() && l[k] != ':'
        invariant
            k <= l@.len(),
            index_of_char_from(l@, ':', 0) == index_of_char_from(l@, ':', k as int),
        decreases l@.len() - k,
    {
        k = k + 1;
    }
    if k == l.len() {
        return None;
    }
    let t = trim_chars(&l[0..k]);
    assert(l@.subrange(0, k as int) =~= l@.take(k as int));
    let lo = str_chars("lo");
    if chars_eq(&t, &lo) || t.len() == 0 {
        None
    } else {
        Some(chars_to_string(&t))
    }
}

/// The network interfaces listed in `/proc/net/dev`, except loopback,
/// sorted by name.
pub fn network_interfaces_from(dev: &str) -> (r: Vec<String>)
    ensures
        texts_view(r@) == sort_texts(ifaces_of_lines(lines_spec(dev@))),
{
    let text = str_chars(dev);
    let lines = lines_of(&text);
    let ghost ls = lines_spec(dev@);
    let mut names: Vec<String> = Vec::new();
    let mut i: usize = 0;
    assert(ls.take(0) =~= Seq::<Seq<char>>::empty());
    assert(texts_view(names@) =~= Seq::<Seq<char>>::empty());
    while i < lines.len()
        invariant
            i <= lines@.len(),
            ls == lines_spec(dev@),
            lines@.len() == ls.len(),
            forall|k: int| 0 <= k < lines@.len() ==> (#[trigger] lines@[k])@ == ls[k],
            texts_view(names@) == ifaces_of_lines(ls.take(i as int)),
        decreases lines@.len() - i,
    {
        assert(ls.take(i + 1).drop_last() =~= ls.take(i as int));
        assert(ls.take(i + 1).last() == lines@[i as int]@);
        let ghost before = names@;
        match iface_of(&lines[i]) {
            Some(n) => {
                names.push(n);
                assert(texts_view(names@) =~= texts_view(before).push(names@.last()@));
            },
            None => {},
        }
        i = i + 1;
    }
    assert(ls.take(lines@.len() as int) =~= ls);
    sort_strings(names)
}

/// Whether a block device is skipped for disk rates: loop, RAM, device
/// mapper, zram and optical devices.
pub open spec fn skipped_block_device(name: Seq<char>) -> bool {
    "loop"@.is_prefix_of(name) || "ram"@.is_prefix_of(name) || "dm-"@.is_prefix_of(name)
        || "zram"@.is_prefix_of(name) || "sr"@.is_prefix_of(name)
}

/// The block devices kept for disk rates, in order.
pub open spec fn kept_block_devices(names: Seq<Seq<char>>) -> Seq<Seq<char>>
    decreases names.len(),
{
    if names.len() == 0 {
        seq![]
    } else if skipped_block_device(names.last()) {
        kept_block_devices(names.drop_last())
    } else {
        kept_block_devices(names.drop_last()).push(names.last())
    }
}

/// The entries of `/sys/block` that are real disks, sorted by name.
pub fn disk_devices_from(names: Vec<String>) -> (r: Vec<String>)
    ensures
        texts_view(r@) == sort_texts(kept_block_devices(texts_view(names@))),
{
    let ghost orig = names@;
    let mut names = names;
    let mut kept: Vec<String> = Vec::new();
    let n = names.len();
    let mut i: usize = 0;
    assert(texts_view(orig.take(0)) =~= Seq::<Seq<char>>::empty());
    assert(texts_view(kept@) =~= Seq::<Seq<char>>::empty());
    while i < n
        invariant
            n == orig.len(),
            i <= n,
            names@ == orig.skip(i as int),
            texts_view(kept@) == kept_block_devices(texts_view(orig.take(i as int))),
        decreases n - i,
    {
        let x = names.remove(0);
        assert(x == orig[i as int]);
        assert(names@ =~= orig.skip(i + 1));
        assert(texts_view(orig.take(i + 1)).drop_last() =~= texts_view(orig.take(i as int)));
        assert(texts_view(orig.take(i + 1)).last() == x@);
        let skip = str_starts_with(x.as_str(), "loop") || str_starts_with(x.as_str(), "ram")
            || str_starts_with(x.as_str(), "dm-") || str_starts_with(x.as_str(), "zram")
            || str_starts_with(x.as_str(), "sr");
        if !skip {
            let ghost before = kept@;
            kept.push(x);
            assert(texts_view(kept@) =~= texts_view(before).push(kept@.last()@));
        }
        i = i + 1;
    }
    assert(orig.take(n as int) =~= orig);
    sort_strings(kept)
}

/// The view of an optional sensor-name string.
pub open spec fn display_view(s: Option<String>) -> Option<Seq<char>> {
    match s {
        Some(x) => Some(x@),
        None => None,
    }
}

/// Whether `e` is the rate sensor of `source` named `name`, in MB/s.
pub open spec fn is_rate_entry(e: SensorInfo, source: SensorSourceView, name: Seq<char>) -> bool {
    &&& e.source@ == source
    &&& e.sensor_name is None
    &&& display_view(e.display_name) == Some(name)
    &&& e.divider == 1_000_000
    &&& e.unit == Unit::MBps
}

fn three_part(a: &str, b: &str, c: &str) -> (r: String)
    ensures
        r@ == a@ + b@ + c@,
{
    let mut out: Vec<char> = Vec::new();
    push_str(&mut out, a);
    push_str(&mut out, b);
    push_str(&mut out, c);
    chars_to_string(&out)
}

/// Whether entries `2k` and `2k + 1` of `r` are the receive and transmit
/// rate sensors of interface `ifaces[k]`.
pub open spec fn net_pair_ok(r: Seq<SensorInfo>, ifaces: Seq<String>, k: int) -> bool {
    &&& is_rate_entry(
        r[2 * k],
        SensorSourceView::NetworkRate { iface: ifaces[k]@, direction: NetDirection::Rx },
        "Network "@ + ifaces[k]@ + ": Rx"@,
    )
    &&& is_rate_entry(
        r[2 * k + 1],
        SensorSourceView::NetworkRate { iface: ifaces[k]@, direction: NetDirection::Tx },
        "Network "@ + ifaces[k]@ + ": Tx"@,
    )
}

/// Whether entries `2k` and `2k + 1` of `r` are the read and write rate
/// sensors of disk `devices[k]`.
pub open spec fn disk_pair_ok(r: Seq<SensorInfo>, devices: Seq<String>, k: int) -> bool {
    &&& is_rate_entry(
        r[2 * k],
        SensorSourceView::DiskRate { device: devices[k]@, direction: DiskDirection::Read },
        "Disk "@ + devices[k]@ + ": Read"@,
    )
    &&& is_rate_entry(
        r[2 * k + 1],
        SensorSourceView::DiskRate { device: devices[k]@, direction: DiskDirection::Write },
        "Disk "@ + devices[k]@ + ": Write"@,
    )
}

/// Receive and transmit rate sensors for each interface, in order:
/// `Network <iface>: Rx` then `Network <iface>: Tx`, in MB/s.
pub fn network_sensor_entries(ifaces: &[String]) -> (r: Vec<SensorInfo>)
    requires
        ifaces@.len() * 2 <= usize::MAX,
    ensures
        r@.len() == 2 * ifaces@.len(),
        forall|k: int| 0 <= k < ifaces@.len() ==> #[trigger] net_pair_ok(r@, ifaces@, k),
{
    let mut r: Vec<SensorInfo> = Vec::new();
    let mut i: usize = 0;
    while i < ifaces.len()
        invariant
            i <= ifaces@.len(),
            r@.len() == 2 * i,
            forall|k: int| 0 <= k < i ==> #[trigger] net_pair_ok(r@, ifaces@, k),
        decreases ifaces@.len() - i,
    {
        let name = ifaces[i].as_str();
        let ghost before = r@;
        let rx = SensorInfo {
            source: SensorSource::NetworkRate { iface: copy_string(&ifaces[i]), direction: NetDirection::Rx },
            sensor_name: None,
            display_name: Some(three_part("Network ", name, ": Rx")),
            divider: 1_000_000,
            unit: Unit::MBps,
        };
        let tx = SensorInfo {
            source: SensorSource::NetworkRate { iface: copy_string(&ifaces[i]), direction: NetDirection::Tx },
            sensor_name: None,
            display_name: Some(three_part("Network ", name, ": Tx")),
            divider: 1_000_000,
            unit: Unit::MBps,
        };
        r.push(rx);
        r.push(tx);
        assert(r@ == before.push(rx).push(tx));
        assert forall|k: int| 0 <= k < i + 1 implies #[trigger] net_pair_ok(r@, ifaces@, k) by {
            if k < i {
                assert(net_pair_ok(before, ifaces@, k));
                assert(r@[2 * k] == before[2 * k]);
                assert(r@[2 * k + 1] == before[2 * k + 1]);
            }
        }
        i = i + 1;
    }
    r
}

/// Read and write rate sensors for each disk, in order:
/// `Disk <device>: Read` then `Disk <device>: Write`, in MB/s.
pub fn disk_sensor_entries(devices: &[String]) -> (r: Vec<SensorInfo>)
    requires
        devices@.len() * 2 <= usize::MAX,
    ensures
        r@.len() == 2 * devices@.len(),
        forall|k: int| 0 <= k < devices@.len() ==> #[trigger] disk_pair_ok(r@, devices@, k),
{
    let mut r: Vec<SensorInfo> = Vec::new();
    let mut i: usize = 0;
    while i < devices.len()
        invariant
            i <= devices@.len(),
            r@.len() == 2 * i,
            forall|k: int| 0 <= k < i ==> #[trigger] disk_pair_ok(r@, devices@, k),
        decreases devices@.len() - i,
    {
        let name = devices[i].as_str();
        let ghost before = r@;
        let rd = SensorInfo {
            source: SensorSource::DiskRate { device: copy_string(&devices[i]), direction: DiskDirection::Read },
            sensor_name: None,
            display_name: Some(three_part("Disk ", name, ": Read")),
            divider: 1_000_000,
            unit: Unit::MBps,
        };
        let wr = SensorInfo {
            source: SensorSource::DiskRate { device: copy_string(&devices[i]), direction: DiskDirection::Write },
            sensor_name: None,
            display_name: Some(three_part("Disk ", name, ": Write")),
            divider: 1_000_000,
            unit: Unit::MBps,
        };
        r.push(rd);
        r.push(wr);
        assert(r@ == before.push(rd).push(wr));
        assert forall|k: int| 0 <= k < i + 1 implies #[trigger] disk_pair_ok(r@, devices@, k) by {
            if k < i {
                assert(disk_pair_ok(before, devices@, k));
                assert(r@[2 * k] == before[2 * k]);
                assert(r@[2 * k + 1] == before[2 * k + 1]);
            }
        }
        i = i + 1;
    }
    r
}

} // verus!
