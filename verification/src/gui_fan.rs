//! Fan speed assignment of the GUI: what a slot's speed menu choice means
//! and how it is stored in the fan configuration, per device group.

use vstd::prelude::*;
use crate::text::{chars_eq, chars_to_string, dec, push_dec, push_str, str_chars, str_is};

verus! {

/// The curve name that stands for following the motherboard's fan signal.
pub open spec fn mb_sync_curve() -> Seq<char> {
    "__mb_sync__"@
}

/// Speed setting of one fan slot: a constant PWM duty (0..=255) or a
/// named curve.
#[derive(Debug)]
pub enum FanSpeed {
    Constant(u8),
    Curve(String),
}

/// The value of a `FanSpeed`.
pub enum FanSpeedView {
    Constant(u8),
    Curve(Seq<char>),
}

impl View for FanSpeed {
    type V = FanSpeedView;

    open spec fn view(&self) -> FanSpeedView {
        match self {
            FanSpeed::Constant(v) => FanSpeedView::Constant(*v),
            FanSpeed::Curve(name) => FanSpeedView::Curve(name@),
        }
    }
}

/// The speeds of the four fan slots of one device.
#[derive(Debug)]
pub struct FanGroup {
    pub device_id: Option<String>,
    pub speeds: [FanSpeed; 4],
}

/// The value of a `FanGroup`.
pub struct FanGroupView {
    pub device_id: Option<Seq<char>>,
    pub speeds: Seq<FanSpeedView>,
}

/// The values of a list of fan speeds.
pub open spec fn speeds_view(s: Seq<FanSpeed>) -> Seq<FanSpeedView> {
    s.map_values(|x: FanSpeed| x@)
}

impl View for FanGroup {
    type V = FanGroupView;

    open spec fn view(&self) -> FanGroupView {
        FanGroupView {
            device_id: match self.device_id {
                Some(id) => Some(id@),
                None => None,
            },
            speeds: speeds_view(self.speeds@),
        }
    }
}

/// Fan part of the application configuration.
#[derive(Debug)]
pub struct FanConfig {
    pub speeds: Vec<FanGroup>,
    pub update_interval_ms: u64,
}

/// The value of a `FanConfig`.
pub struct FanConfigView {
    pub groups: Seq<FanGroupView>,
    pub update_interval_ms: u64,
}

/// The values of a list of fan groups.
pub open spec fn groups_view(g: Seq<FanGroup>) -> Seq<FanGroupView> {
    g.map_values(|x: FanGroup| x@)
}

impl View for FanConfig {
    type V = FanConfigView;

    open spec fn view(&self) -> FanConfigView {
        FanConfigView { groups: groups_view(self.speeds@), update_interval_ms: self.update_interval_ms }
    }
}

/// The speed a choice of a slot's speed menu stands for: `Off` is constant
/// 0, `Constant PWM` constant 128, `MB Sync` the motherboard curve, and
/// anything else the curve of that name.
pub open spec fn speed_choice(val: Seq<char>) -> FanSpeedView {
    if val == "Off"@ {
        FanSpeedView::Constant(0)
    } else if val == "Constant PWM"@ {
        FanSpeedView::Constant(128)
    } else if val == "MB Sync"@ {
        FanSpeedView::Curve(mb_sync_curve())
    } else {
        FanSpeedView::Curve(val)
    }
}

/// The speed a choice of a slot's speed menu stands for.
pub fn fan_speed_for_choice(val: &str) -> (r: FanSpeed)
    ensures
        r@ == speed_choice(val@),
{
    if str_is(val, "Off") {
        FanSpeed::Constant(0)
    } else if str_is(val, "Constant PWM") {
        FanSpeed::Constant(128)
    } else if str_is(val, "MB Sync") {
        FanSpeed::Curve(chars_to_string(&str_chars("__mb_sync__")))
    } else {
        FanSpeed::Curve(chars_to_string(&str_chars(val)))
    }
}

/// The fan configuration a loaded configuration without one starts from:
/// no groups, updated every second.
pub open spec fn default_fans() -> FanConfigView {
    FanConfigView { groups: seq![], update_interval_ms: 1000 }
}

/// The fan configuration of a loaded slot, created with defaults when missing.
pub open spec fn base_fans(inner: Option<FanConfigView>) -> FanConfigView {
    match inner {
        Some(c) => c,
        None => default_fans(),
    }
}

/// The view of the GUI's fan configuration slot: `None` while no
/// configuration is loaded, else the loaded configuration's fan part.
pub open spec fn fan_slot_view(slot: Option<Option<FanConfig>>) -> Option<Option<FanConfigView>> {
    match slot {
        None => None,
        Some(None) => Some(None),
        Some(Some(c)) => Some(Some(c@)),
    }
}

/// Position of the first group of device `id` at or after `i`.
pub open spec fn group_pos_from(groups: Seq<FanGroupView>, id: Seq<char>, i: int) -> Option<int>
    decreases groups.len() - i,
{
    if i < 0 || i >= groups.len() {
        None
    } else if groups[i].device_id == Some(id) {
        Some(i)
    } else {
        group_pos_from(groups, id, i + 1)
    }
}

/// Position of the first group of device `id`.
pub open spec fn group_pos(groups: Seq<FanGroupView>, id: Seq<char>) -> Option<int> {
    group_pos_from(groups, id, 0)
}

/// A new group for device `id`: all four slots constant 0.
pub open spec fn new_group_view(id: Seq<char>) -> FanGroupView {
    FanGroupView {
        device_id: Some(id),
        speeds: seq![FanSpeedView::Constant(0), FanSpeedView::Constant(0), FanSpeedView::Constant(0), FanSpeedView::Constant(0)],
    }
}

/// The groups with one for `id` appended when there is none yet.
pub open spec fn with_group_spec(groups: Seq<FanGroupView>, id: Seq<char>) -> Seq<FanGroupView> {
    if group_pos(groups, id) is Some {
        groups
    } else {
        groups.push(new_group_view(id))
    }
}

/// The groups after slot `slot` of device `id` is set to `speed` (only
/// slots 0 to 3 exist; the device's group is created in any case).
pub open spec fn slot_speed_spec(groups: Seq<FanGroupView>, id: Seq<char>, slot: int, speed: FanSpeedView) -> Seq<FanGroupView> {
    let g1 = with_group_spec(groups, id);
    let gi = group_pos(g1, id).unwrap();
    if 0 <= slot < 4 {
        g1.update(gi, FanGroupView { speeds: g1[gi].speeds.update(slot, speed), ..g1[gi] })
    } else {
        g1
    }
}

/// The groups after slot `slot` of device `id` is set to constant `pwm`,
/// when the device has a group and the slot exists; else unchanged.
pub open spec fn slot_pwm_spec(groups: Seq<FanGroupView>, id: Seq<char>, slot: int, pwm: u8) -> Seq<FanGroupView> {
    match group_pos(groups, id) {
        Some(gi) => if 0 <= slot < 4 {
            groups.update(
                gi,
                FanGroupView { speeds: groups[gi].speeds.update(slot, FanSpeedView::Constant(pwm)), ..groups[gi] },
            )
        } else {
            groups
        },
        None => groups,
    }
}

proof fn lemma_group_pos_found(groups: Seq<FanGroupView>, id: Seq<char>, i: int)
    requires
        group_pos_from(groups, id, i) is Some,
    ensures
        0 <= group_pos_from(groups, id, i).unwrap() < groups.len(),
        groups[group_pos_from(groups, id, i).unwrap()].device_id == Some(id),
    decreases groups.len() - i,
{
    if i < 0 || i >= groups.len() {
    } else if groups[i].device_id == Some(id) {
    } else {
        lemma_group_pos_found(groups, id, i + 1);
    }
}

proof fn lemma_group_pos_push(groups: Seq<FanGroupView>, id: Seq<char>, i: int)
    requires
        0 <= i <= groups.len(),
        group_pos_from(groups, id, i) is None,
    ensures
        group_pos_from(groups.push(new_group_view(id)), id, i) == Some(groups.len() as int),
    decreases groups.len() - i,
{
    if i < groups.len() {
        lemma_group_pos_push(groups, id, i + 1);
    }
}

fn device_is(g: &FanGroup, key: &[char]) -> (r: bool)
    ensures
        r == (g@.device_id == Some(key@)),
{
    match &g.device_id {
        Some(id) => {
            let v = str_chars(id.as_str());
            chars_eq(&v, key)
        },
        None => false,
    }
}

/// Finds the position of device `dev_id`'s group, if it has one.
fn find_group(fc: &FanConfig, dev_id: &str) -> (r: Option<usize>)
    ensures
        r matches Some(i) ==> group_pos(fc@.groups, dev_id@) == Some(i as int) && i < fc@.groups.len(),
        r is None ==> group_pos(fc@.groups, dev_id@) is None,
{
    let key = str_chars(dev_id);
    let mut i: usize = 0;
    while i < fc.speeds.len()
        invariant
            i <= fc@.groups.len(),
            fc.speeds@.len() == fc@.groups.len(),
            key@ == dev_id@,
            group_pos(fc@.groups, dev_id@) == group_pos_from(fc@.groups, dev_id@, i as int),
        decreases fc@.groups.len() - i,
    {
        if device_is(&fc.speeds[i], &key) {
            assert(group_pos_from(fc@.groups, dev_id@, i as int) == Some(i as int));
            return Some(i);
        }
        i = i + 1;
    }
    None
}

fn new_group(dev_id: &str) -> (g: FanGroup)
    ensures
        g@ == new_group_view(dev_id@),
{
    let g = FanGroup {
        device_id: Some(chars_to_string(&str_chars(dev_id))),
        speeds: [FanSpeed::Constant(0), FanSpeed::Constant(0), FanSpeed::Constant(0), FanSpeed::Constant(0)],
    };
    assert(g@.speeds =~= new_group_view(dev_id@).speeds);
    g
}

/// Sets slot `slot` of position `gi`'s group to `speed`.
fn set_group_slot(fc: &mut FanConfig, gi: usize, slot: usize, speed: FanSpeed)
    requires
        gi < old(fc)@.groups.len(),
        slot < 4,
    ensures
        final(fc)@.groups == old(fc)@.groups.update(
            gi as int,
            FanGroupView { speeds: old(fc)@.groups[gi as int].speeds.update(slot as int, speed@), ..old(fc)@.groups[gi as int] },
        ),
        final(fc)@.update_interval_ms == old(fc)@.update_interval_ms,
{
    let ghost before = fc@.groups;
    let ghost sv = speed@;
    let mut g = fc.speeds.remove(gi);
    assert(g@ == before[gi as int]);
    let ghost s0 = g.speeds@;
    g.speeds[slot] = speed;
    assert(g.speeds@ =~= s0.update(slot as int, speed));
    assert(g@.speeds =~= before[gi as int].speeds.update(slot as int, sv));
    fc.speeds.insert(gi, g);
    assert(fc@.groups =~= before.update(
        gi as int,
        FanGroupView { speeds: before[gi as int].speeds.update(slot as int, sv), ..before[gi as int] },
    ));
}

fn take_or_default(slot: Option<FanConfig>) -> (r: FanConfig)
    ensures
        r@ == base_fans(match slot { Some(c) => Some(c@), None => None }),
{
    match slot {
        Some(c) => c,
        None => {
            let fc = FanConfig { speeds: Vec::new(), update_interval_ms: 1000 };
            assert(fc@.groups =~= Seq::<FanGroupView>::empty());
            fc
        },
    }
}

/// Applies a slot's speed menu choice `val` to slot `slot` of device
/// `dev_id`, creating the fan configuration and the device's group when
/// missing; returns whether a configuration is loaded (and so was changed).
pub fn fan_set_slot_speed(cfg: &mut Option<Option<FanConfig>>, dev_id: &str, slot: usize, val: &str) -> (r: bool)
    ensures
        r == (fan_slot_view(*old(cfg)) is Some),
        match fan_slot_view(*old(cfg)) {
            None => fan_slot_view(*final(cfg)) is None,
            Some(inner) => fan_slot_view(*final(cfg)) == Some(Some((FanConfigView {
                groups: slot_speed_spec(base_fans(inner).groups, dev_id@, slot as int, speed_choice(val@)),
                ..base_fans(inner)
            }))),
        },
{
    match cfg.take() {
        None => false,
        Some(inner) => {
            let mut fc = take_or_default(inner);
            let ghost g0 = fc@.groups;
            let gi = match find_group(&fc, dev_id) {
                Some(i) => i,
                None => {
                    let n = fc.speeds.len();
                    fc.speeds.push(new_group(dev_id));
                    proof {
                        assert(fc@.groups =~= g0.push(new_group_view(dev_id@)));
                        lemma_group_pos_push(g0, dev_id@, 0);
                    }
                    n
                },
            };
            assert(fc@.groups == with_group_spec(g0, dev_id@));
            assert(group_pos(fc@.groups, dev_id@) == Some(gi as int));
            let speed = fan_speed_for_choice(val);
            if slot < 4 {
                set_group_slot(&mut fc, gi, slot, speed);
            }
            *cfg = Some(Some(fc));
            true
        },
    }
}

/// Sets slot `slot` of device `dev_id` to the constant duty `pwm`, when a
/// configuration with fans is loaded, the device has a group and the slot
/// exists; returns whether it did.
pub fn fan_set_slot_pwm(cfg: &mut Option<Option<FanConfig>>, dev_id: &str, slot: usize, pwm: u8) -> (r: bool)
    ensures
        match fan_slot_view(*old(cfg)) {
            Some(Some(fc)) => {
                &&& r == (group_pos(fc.groups, dev_id@) is Some && slot < 4)
                &&& fan_slot_view(*final(cfg)) == Some(Some((FanConfigView {
                    groups: slot_pwm_spec(fc.groups, dev_id@, slot as int, pwm),
                    ..fc
                })))
            },
            other => !r && fan_slot_view(*final(cfg)) == other,
        },
{
    match cfg {
        Some(Some(fc)) => {
            match find_group(fc, dev_id) {
                Some(gi) => {
                    if slot < 4 {
                        set_group_slot(fc, gi, slot, FanSpeed::Constant(pwm));
                        true
                    } else {
                        false
                    }
                },
                None => false,
            }
        },
        _ => false,
    }
}

proof fn lemma_group_pos_update(groups: Seq<FanGroupView>, id: Seq<char>, i: int, v: FanGroupView, j: int)
    requires
        0 <= i < groups.len(),
        v.device_id == groups[i].device_id,
    ensures
        group_pos_from(groups.update(i, v), id, j) == group_pos_from(groups, id, j),
    decreases groups.len() - j,
{
    if 0 <= j < groups.len() {
        lemma_group_pos_update(groups, id, i, v, j + 1);
    }
}

/// The speed of slot `slot` of device `id`, if the device has a group.
pub open spec fn slot_speed_of(groups: Seq<FanGroupView>, id: Seq<char>, slot: int) -> Option<FanSpeedView> {
    match group_pos(groups, id) {
        Some(gi) => Some(groups[gi].speeds[slot]),
        None => None,
    }
}

/// After a slot's speed is set, reading the slot back gives that speed,
/// and every other group is as it was (or, for a new device, a group is
/// added at the end).
pub proof fn law_slot_speed_read_back(groups: Seq<FanGroupView>, id: Seq<char>, slot: int, speed: FanSpeedView)
    requires
        0 <= slot < 4,
        forall|k: int| 0 <= k < groups.len() ==> (#[trigger] groups[k]).speeds.len() == 4,
    ensures
        slot_speed_of(slot_speed_spec(groups, id, slot, speed), id, slot) == Some(speed),
        forall|k: int|
            0 <= k < groups.len() && groups[k].device_id != Some(id) ==> #[trigger] slot_speed_spec(
                groups,
                id,
                slot,
                speed,
            )[k] == groups[k],
{
    let g1 = with_group_spec(groups, id);
    if group_pos(groups, id) is None {
        lemma_group_pos_push(groups, id, 0);
    }
    lemma_group_pos_found(g1, id, 0);
    let gi = group_pos(g1, id).unwrap();
    let v = FanGroupView { speeds: g1[gi].speeds.update(slot, speed), ..g1[gi] };
    lemma_group_pos_update(g1, id, gi, v, 0);
    assert(g1[gi].speeds.len() == 4);
}

/// A named fan curve: the command that prints the temperature it follows,
/// and its points as (temperature in °C, speed in %), each number held as
/// the bit pattern of an IEEE-754 single.
#[derive(Debug)]
pub struct FanCurve {
    pub name: String,
    pub temp_command: String,
    pub curve: Vec<(u32, u32)>,
}

/// The value of a `FanCurve`.
pub struct FanCurveView {
    pub name: Seq<char>,
    pub temp_command: Seq<char>,
    pub curve: Seq<(u32, u32)>,
}

impl View for FanCurve {
    type V = FanCurveView;

    open spec fn view(&self) -> FanCurveView {
        FanCurveView { name: self.name@, temp_command: self.temp_command@, curve: self.curve@ }
    }
}

/// The values of a list of fan curves.
pub open spec fn curves_view(c: Seq<FanCurve>) -> Seq<FanCurveView> {
    c.map_values(|x: FanCurve| x@)
}

/// Bit pattern of the single 30.0.
pub const F32_30: u32 = 0x41F0_0000;
/// Bit pattern of the single 50.0.
pub const F32_50: u32 = 0x4248_0000;
/// Bit pattern of the single 70.0.
pub const F32_70: u32 = 0x428C_0000;
/// Bit pattern of the single 80.0.
pub const F32_80: u32 = 0x42A0_0000;
/// Bit pattern of the single 85.0.
pub const F32_85: u32 = 0x42AA_0000;
/// Bit pattern of the single 100.0.
pub const F32_100: u32 = 0x42C8_0000;

/// The temperature command of a new curve: the first thermal zone, in °C.
pub open spec fn default_temp_command() -> Seq<char> {
    "cat /sys/class/thermal/thermal_zone0/temp | awk '{print $1/1000}'"@
}

/// The points of a new curve: 30 °C at 30 %, 50 °C at 50 %, 70 °C at
/// 80 % and 85 °C at 100 %.
pub open spec fn default_curve_points() -> Seq<(u32, u32)> {
    seq![(F32_30, F32_30), (F32_50, F32_50), (F32_70, F32_80), (F32_85, F32_100)]
}

/// The curve added as the `n`-th: named `curve-{n}`, with the default
/// command and points.
pub open spec fn new_curve_spec(n: nat) -> FanCurveView {
    FanCurveView {
        name: "curve-"@ + dec(n),
        temp_command: default_temp_command(),
        curve: default_curve_points(),
    }
}

/// Appends a new curve, numbered after the curves already there.
pub fn add_fan_curve(curves: &mut Vec<FanCurve>)
    requires
        old(curves)@.len() < u64::MAX,
    ensures
        curves_view(final(curves)@) == curves_view(old(curves)@).push(new_curve_spec(
            (old(curves)@.len() + 1) as nat,
        )),
{
    let n: u64 = curves.len() as u64 + 1;
    let mut name: Vec<char> = Vec::new();
    push_str(&mut name, "curve-");
    push_dec(&mut name, n);
    let mut command: Vec<char> = Vec::new();
    push_str(&mut command, "cat /sys/class/thermal/thermal_zone0/temp | awk '{print $1/1000}'");
    let points: Vec<(u32, u32)> = vec![(F32_30, F32_30), (F32_50, F32_50), (F32_70, F32_80), (F32_85, F32_100)];
    let c = FanCurve { name: chars_to_string(&name), temp_command: chars_to_string(&command), curve: points };
    let ghost before = curves@;
    assert(c@.name =~= "curve-"@ + dec(n as nat));
    assert(c@.temp_command =~= default_temp_command());
    assert(c@.curve =~= default_curve_points());
    curves.push(c);
    assert(curves_view(curves@) =~= curves_view(before).push(new_curve_spec((before.len() + 1) as nat)));
}

/// Removes the curve at `idx`; an index past the end changes nothing.
/// Returns whether a curve was removed.
pub fn remove_fan_curve(curves: &mut Vec<FanCurve>, idx: usize) -> (r: bool)
    ensures
        r == (idx < old(curves)@.len()),
        idx < old(curves)@.len() ==> curves_view(final(curves)@) == curves_view(old(curves)@).remove(
            idx as int,
        ),
        idx >= old(curves)@.len() ==> curves_view(final(curves)@) == curves_view(old(curves)@),
{
    if idx < curves.len() {
        let ghost before = curves@;
        let _removed = curves.remove(idx);
        assert(curves_view(curves@) =~= curves_view(before).remove(idx as int));
        true
    } else {
        false
    }
}

/// Renames the curve at `idx`; an index past the end changes nothing.
/// Returns whether a curve was renamed.
pub fn rename_fan_curve(curves: &mut Vec<FanCurve>, idx: usize, name: &str) -> (r: bool)
    ensures
        r == (idx < old(curves)@.len()),
        idx < old(curves)@.len() ==> curves_view(final(curves)@) == curves_view(old(curves)@).update(
            idx as int,
            FanCurveView { name: name@, ..curves_view(old(curves)@)[idx as int] },
        ),
        idx >= old(curves)@.len() ==> curves_view(final(curves)@) == curves_view(old(curves)@),
{
    if idx < curves.len() {
        let ghost before = curves@;
        let mut c = curves.remove(idx);
        let n = str_chars(name);
        c.name = chars_to_string(&n);
        curves.insert(idx, c);
        assert(curves_view(curves@) =~= curves_view(before).update(
            idx as int,
            FanCurveView { name: name@, ..curves_view(before)[idx as int] },
        ));
        true
    } else {
        false
    }
}

/// Sets the temperature command of the curve at `idx`; an index past the
/// end changes nothing. Returns whether a command was set.
pub fn set_curve_command(curves: &mut Vec<FanCurve>, idx: usize, cmd: &str) -> (r: bool)
    ensures
        r == (idx < old(curves)@.len()),
        idx < old(curves)@.len() ==> curves_view(final(curves)@) == curves_view(old(curves)@).update(
            idx as int,
            FanCurveView { temp_command: cmd@, ..curves_view(old(curves)@)[idx as int] },
        ),
        idx >= old(curves)@.len() ==> curves_view(final(curves)@) == curves_view(old(curves)@),
{
    if idx < curves.len() {
        let ghost before = curves@;
        let mut c = curves.remove(idx);
        let t = str_chars(cmd);
        c.temp_command = chars_to_string(&t);
        curves.insert(idx, c);
        assert(curves_view(curves@) =~= curves_view(before).update(
            idx as int,
            FanCurveView { temp_command: cmd@, ..curves_view(before)[idx as int] },
        ));
        true
    } else {
        false
    }
}

/// Removes point `pidx` of the curve at `cidx`; when either index is past
/// the end nothing changes. Returns whether a point was removed.
pub fn remove_curve_point(curves: &mut Vec<FanCurve>, cidx: usize, pidx: usize) -> (r: bool)
    ensures
        r == (cidx < old(curves)@.len() && pidx < old(curves)@[cidx as int].curve@.len()),
        r ==> curves_view(final(curves)@) == curves_view(old(curves)@).update(
            cidx as int,
            FanCurveView {
                curve: curves_view(old(curves)@)[cidx as int].curve.remove(pidx as int),
                ..curves_view(old(curves)@)[cidx as int]
            },
        ),
        !r ==> curves_view(final(curves)@) == curves_view(old(curves)@),
{
    if cidx < curves.len() && pidx < curves[cidx].curve.len() {
        let ghost before = curves@;
        let mut c = curves.remove(cidx);
        let _point = c.curve.remove(pidx);
        curves.insert(cidx, c);
        assert(curves_view(curves@) =~= curves_view(before).update(
            cidx as int,
            FanCurveView {
                curve: curves_view(before)[cidx as int].curve.remove(pidx as int),
                ..curves_view(before)[cidx as int]
            },
        ));
        true
    } else {
        false
    }
}

} // verus!
