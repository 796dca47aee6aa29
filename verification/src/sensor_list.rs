//! The machine's sensor list: the fixed CPU and RAM sensors, one sensor per
//! hwmon input file, NVIDIA GPUs as `nvidia-smi` reports them, and the
//! PWM fan headers that can be driven; one device's sensors are listed in
//! the order of their display names.

use vstd::prelude::*;
use crate::sensors::{NvidiaMetric, SensorInfo, SensorName, SensorSource, SensorSourceView, Unit};
use crate::sysfs::{get_label_name, get_unit, label_name_spec, sensor_device_path, unit_spec};
use crate::text::{
    chars_lt, chars_to_string, dec, ends_with, lines_of, lines_spec, lowercase, parse_unsigned,
    parse_unsigned_spec, pieces_view, push_all, push_dec, push_str, remove_all, remove_all_of,
    split_by, split_str, str_chars, text_lt, trim_chars, trim_spec, sort_texts, texts_sorted,
    text_insertion_point_from, law_sort_texts,
};

verus! {

/// Whether `s` is a sensor without a device part, from `source`, named
/// `name`, with the given divider and unit.
pub open spec fn is_plain_sensor(s: SensorInfo, source: SensorSourceView, name: Seq<char>, divider: int, unit: Unit) -> bool {
    &&& s.source@ == source
    &&& s.sensor_name is None
    &&& s.display_name is Some
    &&& s.display_name.unwrap()@ == name
    &&& s.divider == divider
    &&& s.unit == unit
}

fn plain_sensor(source: SensorSource, name: &str, divider: usize, unit: Unit) -> (r: SensorInfo)
    ensures
        is_plain_sensor(r, source@, name@, divider as int, unit),
{
    SensorInfo { source, sensor_name: None, display_name: Some(chars_to_string(&str_chars(name))), divider, unit }
}

/// The sensors every machine has, first in the list: CPU usage (reported
/// in hundredths of a percent), RAM usage in percent, and RAM used and
/// free in bytes shown as MiB.
pub fn base_sensors() -> (r: Vec<SensorInfo>)
    ensures
        r@.len() == 4,
        is_plain_sensor(r@[0], SensorSourceView::CpuUsage, "CPU: Usage"@, 100, Unit::PERCENT),
        is_plain_sensor(r@[1], SensorSourceView::MemUsage, "RAM: Usage"@, 1, Unit::PERCENT),
        is_plain_sensor(r@[2], SensorSourceView::MemUsed, "RAM: Used"@, 1048576, Unit::SIZE),
        is_plain_sensor(r@[3], SensorSourceView::MemFree, "RAM: Free"@, 1048576, Unit::SIZE),
{
    let mut r: Vec<SensorInfo> = Vec::new();
    r.push(plain_sensor(SensorSource::CpuUsage, "CPU: Usage", 100, Unit::PERCENT));
    r.push(plain_sensor(SensorSource::MemUsage, "RAM: Usage", 1, Unit::PERCENT));
    r.push(plain_sensor(SensorSource::MemUsed, "RAM: Used", 1024 * 1024, Unit::SIZE));
    r.push(plain_sensor(SensorSource::MemFree, "RAM: Free", 1024 * 1024, Unit::SIZE));
    r
}

/// The prefix of an hwmon input file name (`temp1_input` → `temp1`), if
/// it is one.
pub open spec fn input_prefix(file_name: Seq<char>) -> Option<Seq<char>> {
    if crate::text::ends_with_seq(file_name, "_input"@) {
        Some(file_name.take(file_name.len() - 6))
    } else {
        None
    }
}

/// The sensor of hwmon input file `file_name` of chip `chip_name`, shown
/// under device name `device_name`: its reading named from the file
/// prefix and the trimmed label file (empty when missing), the unit and
/// divider the prefix gives, and the device path of `sensor_device_path`;
/// `None` for a file that is not an input.
pub fn hwmon_input_sensor(
    file_name: &str,
    label_file: Option<&str>,
    chip_name: &str,
    device_name: &str,
    device_link: Option<&str>,
    pci_id: &str,
) -> (r: Option<SensorInfo>)
    ensures
        match input_prefix(file_name@) {
            None => r is None,
            Some(prefix) => {
                let label = match label_file {
                    Some(l) => trim_spec(l@),
                    None => seq![],
                };
                &&& r is Some
                &&& r.unwrap().source@ == (SensorSourceView::Hwmon {
                    name: chip_name@,
                    label: prefix,
                    device_path: match device_link {
                        Some(d) => if "DEADBEEF"@.is_prefix_of(d@) { pci_id@ } else { d@ },
                        None => pci_id@,
                    },
                })
                &&& r.unwrap().sensor_name is Some
                &&& r.unwrap().sensor_name.unwrap().device_name@ == device_name@
                &&& r.unwrap().sensor_name.unwrap().sensor_name@ == label_name_spec(
                    prefix,
                    label,
                    lowercase(prefix),
                    lowercase(label),
                )
                &&& r.unwrap().display_name is None
                &&& (r.unwrap().unit, r.unwrap().divider) == unit_spec(prefix)
            },
        },
{
    proof {
        reveal_strlit("_input");
    }
    let f = str_chars(file_name);
    let suffix = str_chars("_input");
    if !ends_with(&f, &suffix) {
        return None;
    }
    let mut pv: Vec<char> = Vec::new();
    push_all(&mut pv, &f.as_slice()[0..f.len() - 6]);
    assert(pv@ =~= f@.take(f@.len() - 6));
    let prefix = chars_to_string(&pv);
    let label = match label_file {
        Some(l) => chars_to_string(&trim_chars(&str_chars(l))),
        None => String::new(),
    };
    assert(label_file is None ==> label@ =~= Seq::<char>::empty());
    let sensor_label = get_label_name(prefix.as_str(), label.as_str());
    let (unit, divider) = get_unit(prefix.as_str());
    Some(SensorInfo {
        source: SensorSource::Hwmon {
            name: chars_to_string(&str_chars(chip_name)),
            label: prefix,
            device_path: sensor_device_path(device_link, pci_id),
        },
        sensor_name: Some(SensorName {
            device_name: chars_to_string(&str_chars(device_name)),
            sensor_name: sensor_label,
        }),
        display_name: None,
        divider,
        unit,
    })
}

/// The GPU a line of `nvidia-smi --query-gpu=index,name,... --format=csv,
/// noheader,nounits` output describes: its index (0 when it does not read
/// as a `u32`) and trimmed name, when the line has at least four fields
/// separated by `", "`.
pub open spec fn nvidia_line_spec(line: Seq<char>) -> Option<(u32, Seq<char>)> {
    let parts = split_str(line, ", "@);
    if parts.len() >= 4 {
        let idx = match parse_unsigned_spec(trim_spec(parts[0]), 10, u32::MAX as nat) {
            Some(v) => v as u32,
            None => 0u32,
        };
        Some((idx, trim_spec(parts[1])))
    } else {
        None
    }
}

/// The GPUs described by the first `n` lines, in order.
pub open spec fn nvidia_gpus_from(lines: Seq<Seq<char>>, n: int) -> Seq<(u32, Seq<char>)>
    decreases n,
{
    if n <= 0 {
        seq![]
    } else {
        let prev = nvidia_gpus_from(lines, n - 1);
        match nvidia_line_spec(lines[n - 1]) {
            Some(g) => prev.push(g),
            None => prev,
        }
    }
}

/// Whether `r[2k]` and `r[2k + 1]` are the temperature (°C) and usage (%)
/// sensors of GPU `g`.
pub open spec fn nvidia_pair_ok(r: Seq<SensorInfo>, g: (u32, Seq<char>), k: int) -> bool {
    &&& is_plain_sensor(
        r[2 * k],
        SensorSourceView::NvidiaGpu { gpu_index: g.0, metric: NvidiaMetric::Temp },
        g.1 + ": Temp"@,
        1,
        Unit::C,
    )
    &&& is_plain_sensor(
        r[2 * k + 1],
        SensorSourceView::NvidiaGpu { gpu_index: g.0, metric: NvidiaMetric::Usage },
        g.1 + ": Usage"@,
        1,
        Unit::PERCENT,
    )
}

/// A line of `nvidia-smi` output whose first field is the decimal index
/// `n` of a GPU describes GPU `n`, named by its trimmed second field,
/// whatever the temperature and usage fields hold.
pub proof fn law_nvidia_line_index(n: u32, name: Seq<char>, temp: Seq<char>, usage: Seq<char>)
    requires
        forall|k: int| 0 <= k < name.len() ==> (#[trigger] name[k]) != ',',
        forall|k: int| 0 <= k < temp.len() ==> (#[trigger] temp[k]) != ',',
    ensures
        nvidia_line_spec(dec(n as nat) + ", "@ + name + ", "@ + temp + ", "@ + usage) == Some(
            (n, trim_spec(name)),
        ),
{
    reveal_strlit(", ");
    let sep = ", "@;
    let d = dec(n as nat);
    crate::text::lemma_dec_reads_back(n as nat);
    let line = d + sep + name + sep + temp + sep + usage;
    let r2 = temp + sep + usage;
    let r1 = name + sep + r2;
    assert(line =~= d + sep + r1);
    assert(r1 =~= name + sep + r2);
    assert forall|k: int| 0 <= k < d.len() implies (#[trigger] d[k]) != sep[0] by {
        assert(48 <= d[k] as u32 <= 57);
    }
    crate::text::lemma_split_first_piece(d, sep, r1);
    crate::text::lemma_split_first_piece(name, sep, r2);
    crate::text::lemma_split_first_piece(temp, sep, usage);
    crate::text::lemma_split_nonempty(usage, sep);
    let parts = split_str(line, sep);
    assert(parts =~= seq![d] + (seq![name] + (seq![temp] + split_str(usage, sep))));
    assert(parts[0] == d);
    assert(parts[1] == name);
    assert(parts.len() >= 4);
    assert(48 <= d[0] as u32 <= 57);
    assert(48 <= d.last() as u32 <= 57);
    crate::text::lemma_trim_unchanged(d);
    assert(crate::text::unsigned_digits(d) == d);
}

fn nvidia_line(line: &[char]) -> (r: Option<(u32, Vec<char>)>)
    ensures
        match nvidia_line_spec(line@) {
            Some(g) => r is Some && r.unwrap().0 == g.0 && r.unwrap().1@ == g.1,
            None => r is None,
        },
{
    proof {
        reveal_strlit(", ");
    }
    let sep = str_chars(", ");
    let parts = split_by(line, &sep);
    assert(pieces_view(parts@).len() == parts@.len());
    if parts.len() < 4 {
        return None;
    }
    assert(parts@[0]@ == split_str(line@, ", "@)[0]);
    assert(parts@[1]@ == split_str(line@, ", "@)[1]);
    let idx = match parse_unsigned(&trim_chars(parts[0].as_slice()), 10, 0xFFFF_FFFF) {
        Some(v) => v as u32,
        None => 0u32,
    };
    Some((idx, trim_chars(parts[1].as_slice())))
}

fn text_plus(head: &[char], tail: &str) -> (r: String)
    ensures
        r@ == head@ + tail@,
{
    let mut out: Vec<char> = Vec::new();
    push_all(&mut out, head);
    push_str(&mut out, tail);
    chars_to_string(&out)
}

/// Temperature and usage sensors of each NVIDIA GPU that `nvidia-smi`
/// lists (in order: `<name>: Temp` in °C, then `<name>: Usage` in %).
pub fn nvidia_sensors_from(output: &str) -> (r: Vec<SensorInfo>)
    ensures
        r@.len() == 2 * nvidia_gpus_from(lines_spec(output@), lines_spec(output@).len() as int).len(),
        forall|k: int|
            0 <= k < nvidia_gpus_from(lines_spec(output@), lines_spec(output@).len() as int).len()
                ==> #[trigger] nvidia_pair_ok(
                r@,
                nvidia_gpus_from(lines_spec(output@), lines_spec(output@).len() as int)[k],
                k,
            ),
{
    let text = str_chars(output);
    let lines = lines_of(&text);
    let ghost ls = lines_spec(output@);
    let mut r: Vec<SensorInfo> = Vec::new();
    let mut i: usize = 0;
    while i < lines.len()
        invariant
            i <= lines@.len(),
            lines@.len() == ls.len(),
            forall|k: int| 0 <= k < lines@.len() ==> (#[trigger] lines@[k])@ == ls[k],
            r@.len() == 2 * nvidia_gpus_from(ls, i as int).len(),
            forall|k: int|
                0 <= k < nvidia_gpus_from(ls, i as int).len() ==> #[trigger] nvidia_pair_ok(
                    r@,
                    nvidia_gpus_from(ls, i as int)[k],
                    k,
                ),
        decreases lines@.len() - i,
    {
        assert(lines@[i as int]@ == ls[i as int]);
        let ghost gs = nvidia_gpus_from(ls, i as int);
        match nvidia_line(lines[i].as_slice()) {
            Some((idx, name)) => {
                let ghost before = r@;
                let ghost g = (idx, name@);
                let t = plain_sensor(
                    SensorSource::NvidiaGpu { gpu_index: idx, metric: NvidiaMetric::Temp },
                    text_plus(&name, ": Temp").as_str(),
                    1,
                    Unit::C,
                );
                let u = plain_sensor(
                    SensorSource::NvidiaGpu { gpu_index: idx, metric: NvidiaMetric::Usage },
                    text_plus(&name, ": Usage").as_str(),
                    1,
                    Unit::PERCENT,
                );
                r.push(t);
                r.push(u);
                assert(r@ == before.push(t).push(u));
                assert(nvidia_gpus_from(ls, i + 1) == gs.push(g));
                assert forall|k: int| 0 <= k < gs.len() + 1 implies #[trigger] nvidia_pair_ok(
                    r@,
                    gs.push(g)[k],
                    k,
                ) by {
                    if k < gs.len() {
                        assert(nvidia_pair_ok(before, gs[k], k));
                        assert(r@[2 * k] == before[2 * k]);
                        assert(r@[2 * k + 1] == before[2 * k + 1]);
                    }
                }
            },
            None => {},
        }
        i = i + 1;
    }
    r
}

/// A PWM fan header that can be driven: `hwmon<n>/pwm<i>` under
/// `/sys/class/hwmon`, labelled after its chip.
#[derive(Debug)]
pub struct PwmHeader {
    pub id: String,
    pub label: String,
    pub path: String,
}

/// The value of a `PwmHeader`.
pub struct PwmHeaderView {
    pub id: Seq<char>,
    pub label: Seq<char>,
    pub path: Seq<char>,
}

impl View for PwmHeader {
    type V = PwmHeaderView;

    open spec fn view(&self) -> PwmHeaderView {
        PwmHeaderView { id: self.id@, label: self.label@, path: self.path@ }
    }
}

/// The values of a list of headers.
pub open spec fn headers_view(h: Seq<PwmHeader>) -> Seq<PwmHeaderView> {
    h.map_values(|x: PwmHeader| x@)
}

/// The PCI address used to name an hwmon chip's headers: the device link's
/// name with every `0000:` removed (empty without a link).
pub open spec fn pwm_pci_id_spec(device_link: Option<Seq<char>>) -> Seq<char> {
    match device_link {
        Some(l) => remove_all(l, "0000:"@),
        None => seq![],
    }
}

/// The PCI address used to name an hwmon chip's headers.
pub fn pwm_pci_id(device_link: Option<&str>) -> (r: String)
    ensures
        r@ == pwm_pci_id_spec(crate::sysfs::opt_str_view(device_link)),
{
    proof {
        reveal_strlit("0000:");
    }
    match device_link {
        Some(l) => remove_all_of(l, "0000:"),
        None => String::new(),
    }
}

/// The label of a chip's headers: its display name, or, for a chip shown
/// under none, its trimmed driver name (empty when unreadable).
pub open spec fn chip_label_spec(display: Option<Seq<char>>, name_file: Option<Seq<char>>) -> Seq<char> {
    match display {
        Some(d) => d,
        None => match name_file {
            Some(n) => trim_spec(n),
            None => seq![],
        },
    }
}

/// Header `i` of hwmon directory `hwmon` with chip label `chip`.
pub open spec fn header_spec(hwmon: Seq<char>, chip: Seq<char>, i: nat) -> PwmHeaderView {
    PwmHeaderView {
        id: hwmon + "/pwm"@ + dec(i),
        label: chip + " Fan"@ + dec(i),
        path: "/sys/class/hwmon/"@ + hwmon + "/pwm"@ + dec(i),
    }
}

fn text_of(parts: &[&str], n: u64) -> (r: String)
    requires
        parts@.len() == 2,
    ensures
        r@ == parts@[0]@ + parts@[1]@ + dec(n as nat),
{
    let mut out: Vec<char> = Vec::new();
    push_str(&mut out, parts[0]);
    push_str(&mut out, parts[1]);
    push_dec(&mut out, n);
    chars_to_string(&out)
}

/// The headers of hwmon directory `hwmon` whose files `pwm1` to
/// `pwm<count>` exist (the first missing one ends the list, at most ten).
pub fn pwm_headers_for(hwmon: &str, display: Option<&str>, name_file: Option<&str>, count: u32) -> (r: Vec<PwmHeader>)
    requires
        count <= 10,
    ensures
        r@.len() == count,
        forall|k: int|
            0 <= k < count ==> (#[trigger] r@[k])@ == header_spec(
                hwmon@,
                chip_label_spec(crate::sysfs::opt_str_view(display), crate::sysfs::opt_str_view(name_file)),
                (k + 1) as nat,
            ),
{
    let chip = match display {
        Some(d) => chars_to_string(&str_chars(d)),
        None => match name_file {
            Some(n) => chars_to_string(&trim_chars(&str_chars(n))),
            None => String::new(),
        },
    };
    let ghost cl = chip_label_spec(crate::sysfs::opt_str_view(display), crate::sysfs::opt_str_view(name_file));
    assert(chip@ =~= cl);
    let dir = chars_to_string(&str_chars(hwmon));
    let mut r: Vec<PwmHeader> = Vec::new();
    let mut i: u32 = 1;
    while i <= count
        invariant
            1 <= i <= count + 1,
            count <= 10,
            chip@ == cl,
            dir@ == hwmon@,
            r@.len() == i - 1,
            forall|k: int| 0 <= k < i - 1 ==> (#[trigger] r@[k])@ == header_spec(hwmon@, cl, (k + 1) as nat),
        decreases count + 1 - i,
    {
        let id = text_of(&[dir.as_str(), "/pwm"], i as u64);
        let label = text_of(&[chip.as_str(), " Fan"], i as u64);
        let mut pv: Vec<char> = Vec::new();
        push_str(&mut pv, "/sys/class/hwmon/");
        push_str(&mut pv, id.as_str());
        let path = chars_to_string(&pv);
        let h = PwmHeader { id, label, path };
        assert(h@ == header_spec(hwmon@, cl, i as nat)) by {
            assert(h@.path =~= "/sys/class/hwmon/"@ + hwmon@ + "/pwm"@ + dec(i as nat));
        }
        r.push(h);
        i = i + 1;
    }
    r
}

/// Position at which a header with id `x` is inserted into `s`: the first
/// index at or after `j` whose id comes after `x`.
pub open spec fn header_slot_from(s: Seq<PwmHeaderView>, x: Seq<char>, j: int) -> int
    decreases s.len() - j,
{
    if j < 0 || j >= s.len() {
        s.len() as int
    } else if text_lt(x, s[j].id) {
        j
    } else {
        header_slot_from(s, x, j + 1)
    }
}

/// Stable sort by id.
pub open spec fn sort_headers_spec(s: Seq<PwmHeaderView>) -> Seq<PwmHeaderView>
    decreases s.len(),
{
    if s.len() == 0 {
        seq![]
    } else {
        let t = sort_headers_spec(s.drop_last());
        t.insert(header_slot_from(t, s.last().id, 0), s.last())
    }
}

/// Whether headers are in ascending order of id.
pub open spec fn headers_sorted(s: Seq<PwmHeaderView>) -> bool {
    forall|i: int, j: int| 0 <= i < j < s.len() ==> !text_lt(#[trigger] s[j].id, #[trigger] s[i].id)
}

proof fn lemma_header_slot(s: Seq<PwmHeaderView>, x: Seq<char>, j: int)
    requires
        0 <= j <= s.len(),
        headers_sorted(s),
        forall|i: int| 0 <= i < j ==> !text_lt(x, #[trigger] s[i].id),
    ensures
        j <= header_slot_from(s, x, j) <= s.len(),
        forall|i: int| 0 <= i < header_slot_from(s, x, j) ==> !text_lt(x, #[trigger] s[i].id),
        forall|i: int| header_slot_from(s, x, j) <= i < s.len() ==> text_lt(x, #[trigger] s[i].id),
    decreases s.len() - j,
{
    if j < s.len() {
        if text_lt(x, s[j].id) {
            assert forall|i: int| j <= i < s.len() implies text_lt(x, #[trigger] s[i].id) by {
                if i > j {
                    assert(!text_lt(s[i].id, s[j].id));
                    crate::text::lemma_text_lt_total(s[i].id, s[j].id);
                    crate::text::lemma_text_lt_trans(x, s[j].id, s[i].id);
                }
            }
        } else {
            lemma_header_slot(s, x, j + 1);
        }
    }
}

/// Sorting headers gives them in ascending order of id, none lost or
/// repeated.
pub proof fn law_pwm_headers_sorted(s: Seq<PwmHeaderView>)
    ensures
        headers_sorted(sort_headers_spec(s)),
        sort_headers_spec(s).to_multiset() =~= s.to_multiset(),
    decreases s.len(),
{
    if s.len() > 0 {
        let t = sort_headers_spec(s.drop_last());
        law_pwm_headers_sorted(s.drop_last());
        let x = s.last();
        lemma_header_slot(t, x.id, 0);
        let p = header_slot_from(t, x.id, 0);
        let u = t.insert(p, x);
        assert forall|i: int, j: int| 0 <= i < j < u.len() implies !text_lt(#[trigger] u[j].id, #[trigger] u[i].id) by {
            if j < p {
                assert(!text_lt(t[j].id, t[i].id));
            } else if j == p {
                assert(!text_lt(x.id, t[i].id));
            } else if i < p {
                assert(!text_lt(t[j - 1].id, t[i].id));
            } else if i == p {
                assert(text_lt(x.id, t[j - 1].id));
                crate::text::lemma_text_lt_asym(x.id, t[j - 1].id);
            } else {
                assert(!text_lt(t[j - 1].id, t[i - 1].id));
            }
        }
        crate::seq_facts::lemma_insert_to_multiset(t, p, x);
        crate::seq_facts::lemma_push_to_multiset(s.drop_last(), x);
        assert(s.drop_last().push(x) =~= s);
    } else {
        assert(sort_headers_spec(s) =~= s);
    }
}

fn id_after(h: &PwmHeader, xid: &[char]) -> (r: bool)
    ensures
        r == text_lt(xid@, h.id@),
{
    let id = str_chars(h.id.as_str());
    chars_lt(xid, &id)
}

fn insert_header(out: &mut Vec<PwmHeader>, x: PwmHeader)
    ensures
        headers_view(final(out)@) == headers_view(old(out)@).insert(
            header_slot_from(headers_view(old(out)@), x.id@, 0),
            x@,
        ),
{
    let ghost c = headers_view(out@);
    let xid = str_chars(x.id.as_str());
    let mut j: usize = 0;
    while j < out.len() && !id_after(&out[j], &xid)
        invariant
            j <= out@.len(),
            out@ == old(out)@,
            c == headers_view(out@),
            xid@ == x.id@,
            header_slot_from(c, x.id@, 0) == header_slot_from(c, x.id@, j as int),
        decreases out@.len() - j,
    {
        j = j + 1;
    }
    let ghost e = x@;
    out.insert(j, x);
    assert(headers_view(out@) =~= c.insert(j as int, e));
}

/// Sorts headers by id (in the order of `str`), keeping the order of equal ids.
pub fn sort_pwm_headers(v: Vec<PwmHeader>) -> (r: Vec<PwmHeader>)
    ensures
        headers_view(r@) == sort_headers_spec(headers_view(v@)),
{
    let ghost all = headers_view(v@);
    let n = v.len();
    let mut src = v;
    let mut out: Vec<PwmHeader> = Vec::new();
    let mut k: usize = 0;
    while k < n
        invariant
            k <= n,
            n == all.len(),
            src@.len() == n - k,
            headers_view(src@) == all.skip(k as int),
            headers_view(out@) == sort_headers_spec(all.take(k as int)),
        decreases n - k,
    {
        let ghost sb = headers_view(src@);
        let x = src.remove(0);
        assert(sb[0] == all.skip(k as int)[0]);
        assert(x@ == all[k as int]);
        assert(headers_view(src@) =~= sb.skip(1));
        assert(all.skip(k as int).skip(1) =~= all.skip(k + 1));
        insert_header(&mut out, x);
        assert(all.take(k + 1).drop_last() =~= all.take(k as int));
        k = k + 1;
    }
    assert(all.take(n as int) =~= all);
    out
}

/// The duty cycle read from a PWM file's text: the trimmed text as a `u8`.
pub fn pwm_value_from(text: &str) -> (r: Option<u8>)
    ensures
        match r {
            Some(v) => parse_unsigned_spec(trim_spec(text@), 10, 255) == Some(v as nat),
            None => parse_unsigned_spec(trim_spec(text@), 10, 255) is None,
        },
{
    let t = trim_chars(&str_chars(text));
    match parse_unsigned(&t, 10, 255) {
        Some(v) => Some(v as u8),
        None => None,
    }
}

/// The name a sensor is listed under: its display name when it has one,
/// else its device and sensor names joined by `": "`, else nothing.
pub open spec fn display_key(s: SensorInfo) -> Seq<char> {
    match s.display_name {
        Some(d) => d@,
        None => match s.sensor_name {
            Some(n) => n.device_name@ + ": "@ + n.sensor_name@,
            None => seq![],
        },
    }
}

/// The names the sensors are listed under.
pub open spec fn display_keys(s: Seq<SensorInfo>) -> Seq<Seq<char>> {
    s.map_values(|x: SensorInfo| display_key(x))
}

/// The sensors ordered by display name, keeping the order of sensors with
/// the same name: each is inserted after every earlier one whose name is
/// not greater.
pub open spec fn sort_by_display_spec(s: Seq<SensorInfo>) -> Seq<SensorInfo>
    decreases s.len(),
{
    if s.len() == 0 {
        seq![]
    } else {
        let t = sort_by_display_spec(s.drop_last());
        t.insert(text_insertion_point_from(display_keys(t), display_key(s.last()), 0), s.last())
    }
}

fn display_key_exec(s: &SensorInfo) -> (r: Vec<char>)
    ensures
        r@ == display_key(*s),
{
    match &s.display_name {
        Some(d) => str_chars(d.as_str()),
        None => match &s.sensor_name {
            Some(n) => {
                let mut k = str_chars(n.device_name.as_str());
                push_str(&mut k, ": ");
                push_str(&mut k, n.sensor_name.as_str());
                k
            },
            None => Vec::new(),
        },
    }
}

proof fn lemma_insertion_point_bounds(s: Seq<Seq<char>>, x: Seq<char>, j: int)
    requires
        0 <= j <= s.len(),
    ensures
        j <= text_insertion_point_from(s, x, j) <= s.len(),
    decreases s.len() - j,
{
    if j < s.len() && !text_lt(x, s[j]) {
        lemma_insertion_point_bounds(s, x, j + 1);
    }
}

proof fn lemma_sort_by_display(s: Seq<SensorInfo>)
    ensures
        display_keys(sort_by_display_spec(s)) == sort_texts(display_keys(s)),
        sort_by_display_spec(s).to_multiset() =~= s.to_multiset(),
    decreases s.len(),
{
    if s.len() == 0 {
        assert(display_keys(sort_by_display_spec(s)) =~= sort_texts(display_keys(s)));
        assert(sort_by_display_spec(s) =~= s);
    } else {
        let t = sort_by_display_spec(s.drop_last());
        lemma_sort_by_display(s.drop_last());
        let x = s.last();
        let p = text_insertion_point_from(display_keys(t), display_key(x), 0);
        lemma_insertion_point_bounds(display_keys(t), display_key(x), 0);
        assert(display_keys(s.drop_last()) =~= display_keys(s).drop_last());
        assert(display_keys(s).last() == display_key(x));
        assert(display_keys(t.insert(p, x)) =~= display_keys(t).insert(p, display_key(x)));
        crate::seq_facts::lemma_insert_to_multiset(t, p, x);
        crate::seq_facts::lemma_push_to_multiset(s.drop_last(), x);
        assert(s.drop_last().push(x) =~= s);
    }
}

/// Orders sensors by the name they are listed under, as the sensors of
/// one hwmon device are listed; sensors with the same name keep their
/// order.
pub fn sort_by_display_name(v: Vec<SensorInfo>) -> (r: Vec<SensorInfo>)
    ensures
        r@ == sort_by_display_spec(v@),
        texts_sorted(display_keys(r@)),
        r@.to_multiset() =~= v@.to_multiset(),
{
    let ghost orig = v@;
    let mut v = v;
    let mut out: Vec<SensorInfo> = Vec::new();
    let mut keys: Vec<Vec<char>> = Vec::new();
    let n = v.len();
    let mut i: usize = 0;
    assert(orig.take(0) =~= Seq::<SensorInfo>::empty());
    while i < n
        invariant
            n == orig.len(),
            i <= n,
            v@ == orig.skip(i as int),
            out@ == sort_by_display_spec(orig.take(i as int)),
            keys@.len() == out@.len(),
            forall|k: int| 0 <= k < keys@.len() ==> (#[trigger] keys@[k])@ == display_key(out@[k]),
        decreases n - i,
    {
        let x = v.remove(0);
        assert(x == orig[i as int]);
        assert(v@ =~= orig.skip(i + 1));
        assert(orig.take(i + 1).drop_last() =~= orig.take(i as int));
        assert(orig.take(i + 1).last() == x);
        let kx = display_key_exec(&x);
        let ghost ks = display_keys(out@);
        let mut j: usize = 0;
        while j < out.len() && !chars_lt(&kx, &keys[j])
            invariant
                j <= out@.len(),
                keys@.len() == out@.len(),
                forall|k: int| 0 <= k < keys@.len() ==> (#[trigger] keys@[k])@ == display_key(out@[k]),
                ks == display_keys(out@),
                kx@ == display_key(x),
                text_insertion_point_from(ks, kx@, 0) == text_insertion_point_from(ks, kx@, j as int),
            decreases out@.len() - j,
        {
            assert(keys@[j as int]@ == ks[j as int]);
            j = j + 1;
        }
        if j < out.len() {
            assert(keys@[j as int]@ == ks[j as int]);
        }
        assert(text_insertion_point_from(ks, kx@, 0) == j as int);
        let ghost before = out@;
        let ghost kbefore = keys@;
        out.insert(j, x);
        keys.insert(j, kx);
        assert forall|k: int| 0 <= k < keys@.len() implies (#[trigger] keys@[k])@ == display_key(out@[k]) by {
            if k < j {
                assert(keys@[k] == kbefore[k]);
            } else if k > j {
                assert(keys@[k] == kbefore[k - 1]);
                assert(out@[k] == before[k - 1]);
            }
        }
        i = i + 1;
    }
    assert(orig.take(n as int) =~= orig);
    proof {
        lemma_sort_by_display(orig);
        law_sort_texts(display_keys(orig));
    }
    out
}

} // verus!
