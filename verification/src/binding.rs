//! Decisions of the HID binding repair: which HID devices lack a hidraw
//! node, which interfaces to hand back to the kernel HID driver, and how a
//! USB reset error is read.

use vstd::prelude::*;
use crate::detect::{DetectedDevice, UsbId};
use crate::text::{contains, contains_seq, str_chars};

verus! {

/// Whether detected device `d` is driven over HID but has no hidraw node.
pub open spec fn lacks_hidraw(d: DetectedDevice, hidraw_ids: Seq<UsbId>) -> bool {
    d.family.hid && !hidraw_ids.contains(UsbId { vid: d.vid, pid: d.pid })
}

fn id_listed(ids: &[UsbId], id: UsbId) -> (r: bool)
    ensures
        r == ids@.contains(id),
{
    let mut i: usize = 0;
    while i < ids.len()
        invariant
            i <= ids@.len(),
            forall|j: int| 0 <= j < i ==> ids@[j] != id,
        decreases ids@.len() - i,
    {
        if ids[i] == id {
            return true;
        }
        i = i + 1;
    }
    false
}

/// Indices, in increasing order, of the devices that use HID but whose
/// vendor/product ids have no hidraw node among `hidraw_ids`.
pub fn devices_missing_hidraw(devices: &[DetectedDevice], hidraw_ids: &[UsbId]) -> (r: Vec<usize>)
    ensures
        forall|k: int| 0 <= k < r@.len() ==> r@[k] < devices@.len(),
        forall|k: int, l: int| 0 <= k < l < r@.len() ==> r@[k] < r@[l],
        forall|i: int|
            0 <= i < devices@.len() ==> (r@.contains(i as usize) <==> lacks_hidraw(
                #[trigger] devices@[i],
                hidraw_ids@,
            )),
{
    let mut r: Vec<usize> = Vec::new();
    let mut i: usize = 0;
    while i < devices.len()
        invariant
            i <= devices@.len(),
            forall|k: int| 0 <= k < r@.len() ==> r@[k] < i,
            forall|k: int, l: int| 0 <= k < l < r@.len() ==> r@[k] < r@[l],
            forall|j: int|
                0 <= j < i ==> (r@.contains(j as usize) <==> lacks_hidraw(
                    #[trigger] devices@[j],
                    hidraw_ids@,
                )),
        decreases devices@.len() - i,
    {
        let d = &devices[i];
        let id = UsbId { vid: d.vid, pid: d.pid };
        let ghost before = r@;
        if d.family.hid && !id_listed(hidraw_ids, id) {
            r.push(i);
        }
        assert forall|j: int|
            0 <= j < i + 1 implies (r@.contains(j as usize) <==> lacks_hidraw(
            #[trigger] devices@[j],
            hidraw_ids@,
        )) by {
            if r@.contains(j as usize) && j < i {
                let k = choose|k: int| 0 <= k < r@.len() && r@[k] == j as usize;
                if k == before.len() {
                    assert(r@[k] == i);
                } else {
                    assert(before[k] == j as usize);
                }
            }
            if j < i && before.contains(j as usize) {
                let k = choose|k: int| 0 <= k < before.len() && before[k] == j as usize;
                assert(r@[k] == j as usize);
            }
            if j == i && lacks_hidraw(devices@[j], hidraw_ids@) {
                assert(r@[r@.len() - 1] == i);
            }
            if j == i && r@.contains(j as usize) {
                let k = choose|k: int| 0 <= k < r@.len() && r@[k] == j as usize;
                if k < before.len() {
                    assert(before[k] < i);
                }
            }
        }
        i = i + 1;
    }
    r
}

/// Whether a failed USB reset still means the device was reset: the
/// device re-enumerated, so the error says "Entity not found".
pub fn reset_error_means_reenumerated(message: &str) -> (r: bool)
    ensures
        r == contains_seq(message@, "Entity not found"@),
{
    let m = str_chars(message);
    let needle = str_chars("Entity not found");
    contains(&m, &needle)
}

/// One interface descriptor of the active configuration.
#[derive(Debug, Clone, Copy)]
pub struct InterfaceDescriptorInfo {
    pub class_code: u8,
    pub interface_number: u8,
}

/// Interface class code of HID.
pub const HID_CLASS: u8 = 0x03;

/// The interface numbers of the HID-class descriptors, in order; these are
/// the interfaces handed back to the kernel HID driver.
pub open spec fn hid_interfaces_spec(descs: Seq<InterfaceDescriptorInfo>) -> Seq<u8>
    decreases descs.len(),
{
    if descs.len() == 0 {
        seq![]
    } else if descs.last().class_code == HID_CLASS {
        hid_interfaces_spec(descs.drop_last()).push(descs.last().interface_number)
    } else {
        hid_interfaces_spec(descs.drop_last())
    }
}

/// The interface numbers of the HID-class interface descriptors.
pub fn hid_interface_numbers(descs: &[InterfaceDescriptorInfo]) -> (r: Vec<u8>)
    ensures
        r@ == hid_interfaces_spec(descs@),
{
    let mut r: Vec<u8> = Vec::new();
    let mut i: usize = 0;
    assert(descs@.take(0) =~= Seq::<InterfaceDescriptorInfo>::empty());
    while i < descs.len()
        invariant
            i <= descs@.len(),
            r@ == hid_interfaces_spec(descs@.take(i as int)),
        decreases descs@.len() - i,
    {
        assert(descs@.take(i + 1).drop_last() =~= descs@.take(i as int));
        if descs[i].class_code == HID_CLASS {
            r.push(descs[i].interface_number);
        }
        i = i + 1;
    }
    assert(descs@.take(descs@.len() as int) =~= descs@);
    r
}

/// Where the binding repair stands for the device under work.
#[derive(Debug, Clone, Copy, PartialEq, Eq, Structural)]
pub enum BindPhase {
    /// Looking for the USB device of the HID device at `index`.
    Locate,
    /// The USB device was found; asking whether it answers a descriptor read.
    Probe,
    /// The kernel was nudged to bind its HID interfaces; waiting for hidraw.
    Poll,
    /// The USB device is being reset.
    Reset,
    /// Every device has been handled.
    Finished,
}

/// State of the binding repair over the `count` HID devices that lack a
/// hidraw node (the result of `devices_missing_hidraw`, in order).
#[derive(Debug, Clone, Copy, PartialEq, Eq, Structural)]
pub struct BindState {
    /// Position of the device under work in the list of devices that lack
    /// a hidraw node.
    pub index: usize,
    /// How many devices lack a hidraw node.
    pub count: usize,
    /// How many resets have succeeded so far, a re-enumeration included.
    pub resets: usize,
    pub phase: BindPhase,
}

/// What the caller reports back after carrying out an action.
#[derive(Debug, Clone, PartialEq, Eq)]
pub enum BindEvent {
    /// Whether a USB device with the ids of the device under work was found.
    UsbLocated { found: bool },
    /// Whether the USB device answered the descriptor read.
    Probed { responds: bool },
    /// Whether a hidraw node appeared within the wait.
    HidrawPolled { appeared: bool },
    /// The USB reset succeeded.
    ResetOk,
    /// The USB reset failed with this error text.
    ResetFailed { message: String },
}

/// What the caller does next.
#[derive(Debug, Clone, Copy, PartialEq, Eq, Structural)]
pub enum BindAction {
    /// Look up the USB device of the `index`-th device that lacks hidraw.
    LocateUsb { index: usize },
    /// Read the device descriptor strings of the located USB device.
    ProbeDescriptor,
    /// Hand the HID interfaces back to the kernel driver, then poll for a
    /// hidraw node for up to `wait_ms` milliseconds.
    NudgeAndPoll { wait_ms: u64 },
    /// Reset the located USB device.
    ResetDevice,
    /// Sleep `ms` milliseconds so reset devices re-enumerate, then stop.
    Sleep { ms: u64 },
    /// Stop.
    Done,
}

/// Longest wait for a hidraw node after the kernel nudge.
pub const HIDRAW_POLL_MS: u64 = 2000;

/// Wait after the last device when at least one reset succeeded.
pub const REENUMERATE_WAIT_MS: u64 = 3000;

/// The states that the binding repair can reach.
pub open spec fn bind_wf(s: BindState) -> bool {
    &&& s.resets <= s.index
    &&& s.index <= s.count
    &&& (s.phase == BindPhase::Finished || s.index < s.count)
}

/// The action that a state waits on; it is asked again when an event does
/// not fit the state.
pub open spec fn pending_action(s: BindState) -> BindAction {
    match s.phase {
        BindPhase::Locate => BindAction::LocateUsb { index: s.index },
        BindPhase::Probe => BindAction::ProbeDescriptor,
        BindPhase::Poll => BindAction::NudgeAndPoll { wait_ms: HIDRAW_POLL_MS },
        BindPhase::Reset => BindAction::ResetDevice,
        BindPhase::Finished => BindAction::Done,
    }
}

/// Moving on from the device under work with `resets` successful resets:
/// the next device, or the end, which waits for re-enumeration exactly
/// when some reset succeeded.
pub open spec fn bind_next_spec(s: BindState, resets: usize) -> (BindState, BindAction) {
    if s.index + 1 < s.count {
        (
            BindState { index: (s.index + 1) as usize, count: s.count, resets, phase: BindPhase::Locate },
            BindAction::LocateUsb { index: (s.index + 1) as usize },
        )
    } else {
        (
            BindState { index: s.count, count: s.count, resets, phase: BindPhase::Finished },
            if resets > 0 {
                BindAction::Sleep { ms: REENUMERATE_WAIT_MS }
            } else {
                BindAction::Done
            },
        )
    }
}

/// Whether a USB reset error still counts as a reset.
pub open spec fn reset_counts(message: Seq<char>) -> bool {
    contains_seq(message, "Entity not found"@)
}

/// One step of the binding repair. A device with no USB match is skipped;
/// one that answers its descriptor read is first nudged and polled, and
/// reset only when no hidraw node appeared; one that does not answer is
/// reset at once. A reset counts when it succeeds or its error says the
/// device re-enumerated.
pub open spec fn bind_step_spec(s: BindState, e: BindEvent) -> (BindState, BindAction) {
    match (s.phase, e) {
        (BindPhase::Locate, BindEvent::UsbLocated { found }) => {
            if found {
                (BindState { phase: BindPhase::Probe, ..s }, BindAction::ProbeDescriptor)
            } else {
                bind_next_spec(s, s.resets)
            }
        },
        (BindPhase::Probe, BindEvent::Probed { responds }) => {
            if responds {
                (
                    BindState { phase: BindPhase::Poll, ..s },
                    BindAction::NudgeAndPoll { wait_ms: HIDRAW_POLL_MS },
                )
            } else {
                (BindState { phase: BindPhase::Reset, ..s }, BindAction::ResetDevice)
            }
        },
        (BindPhase::Poll, BindEvent::HidrawPolled { appeared }) => {
            if appeared {
                bind_next_spec(s, s.resets)
            } else {
                (BindState { phase: BindPhase::Reset, ..s }, BindAction::ResetDevice)
            }
        },
        (BindPhase::Reset, BindEvent::ResetOk) => bind_next_spec(s, (s.resets + 1) as usize),
        (BindPhase::Reset, BindEvent::ResetFailed { message }) => {
            if reset_counts(message@) {
                bind_next_spec(s, (s.resets + 1) as usize)
            } else {
                bind_next_spec(s, s.resets)
            }
        },
        _ => (s, pending_action(s)),
    }
}

/// The start of the binding repair over `count` devices that lack a hidraw
/// node; with none there is nothing to do and no wait.
pub open spec fn bind_start_spec(count: usize) -> (BindState, BindAction) {
    if count == 0 {
        (BindState { index: 0, count: 0, resets: 0, phase: BindPhase::Finished }, BindAction::Done)
    } else {
        (
            BindState { index: 0, count, resets: 0, phase: BindPhase::Locate },
            BindAction::LocateUsb { index: 0 },
        )
    }
}

/// Starts the binding repair over `count` devices that lack a hidraw node.
pub fn bind_start(count: usize) -> (r: (BindState, BindAction))
    ensures
        r == bind_start_spec(count),
        bind_wf(r.0),
{
    if count == 0 {
        (BindState { index: 0, count: 0, resets: 0, phase: BindPhase::Finished }, BindAction::Done)
    } else {
        (
            BindState { index: 0, count, resets: 0, phase: BindPhase::Locate },
            BindAction::LocateUsb { index: 0 },
        )
    }
}

fn bind_next(s: BindState, resets: usize) -> (r: (BindState, BindAction))
    requires
        bind_wf(s),
        s.phase != BindPhase::Finished,
        resets <= s.index + 1,
    ensures
        r == bind_next_spec(s, resets),
        bind_wf(r.0),
{
    if s.index + 1 < s.count {
        (
            BindState { index: s.index + 1, count: s.count, resets, phase: BindPhase::Locate },
            BindAction::LocateUsb { index: s.index + 1 },
        )
    } else {
        let action = if resets > 0 {
            BindAction::Sleep { ms: REENUMERATE_WAIT_MS }
        } else {
            BindAction::Done
        };
        (BindState { index: s.count, count: s.count, resets, phase: BindPhase::Finished }, action)
    }
}

/// Advances the binding repair by one reported event.
pub fn bind_step(s: BindState, e: &BindEvent) -> (r: (BindState, BindAction))
    requires
        bind_wf(s),
    ensures
        r == bind_step_spec(s, *e),
        bind_wf(r.0),
{
    let pending = match s.phase {
        BindPhase::Locate => BindAction::LocateUsb { index: s.index },
        BindPhase::Probe => BindAction::ProbeDescriptor,
        BindPhase::Poll => BindAction::NudgeAndPoll { wait_ms: HIDRAW_POLL_MS },
        BindPhase::Reset => BindAction::ResetDevice,
        BindPhase::Finished => BindAction::Done,
    };
    match (s.phase, e) {
        (BindPhase::Locate, BindEvent::UsbLocated { found }) => {
            if *found {
                (BindState { phase: BindPhase::Probe, ..s }, BindAction::ProbeDescriptor)
            } else {
                bind_next(s, s.resets)
            }
        },
        (BindPhase::Probe, BindEvent::Probed { responds }) => {
            if *responds {
                (
                    BindState { phase: BindPhase::Poll, ..s },
                    BindAction::NudgeAndPoll { wait_ms: HIDRAW_POLL_MS },
                )
            } else {
                (BindState { phase: BindPhase::Reset, ..s }, BindAction::ResetDevice)
            }
        },
        (BindPhase::Poll, BindEvent::HidrawPolled { appeared }) => {
            if *appeared {
                bind_next(s, s.resets)
            } else {
                (BindState { phase: BindPhase::Reset, ..s }, BindAction::ResetDevice)
            }
        },
        (BindPhase::Reset, BindEvent::ResetOk) => bind_next(s, s.resets + 1),
        (BindPhase::Reset, BindEvent::ResetFailed { message }) => {
            if reset_error_means_reenumerated(message.as_str()) {
                bind_next(s, s.resets + 1)
            } else {
                bind_next(s, s.resets)
            }
        },
        _ => (s, pending),
    }
}

/// A reset is asked for after the kernel nudge and its wait exactly when no
/// hidraw node appeared, and then the device counts as reset once the reset
/// succeeds or its error says the device re-enumerated.
pub proof fn law_reset_after_nudge_only_without_hidraw(s: BindState, appeared: bool)
    requires
        bind_wf(s),
        s.phase == BindPhase::Poll,
    ensures
        (bind_step_spec(s, BindEvent::HidrawPolled { appeared }).1 == BindAction::ResetDevice)
            <==> !appeared,
        !appeared ==> bind_step_spec(s, BindEvent::HidrawPolled { appeared }).0.phase
            == BindPhase::Reset,
        appeared ==> bind_step_spec(s, BindEvent::HidrawPolled { appeared }).0.resets == s.resets,
{
}

/// Every step keeps the count of successful resets or adds one, and adds
/// one exactly on a reset that succeeded or whose error says the device
/// re-enumerated.
pub proof fn law_resets_count_successes(s: BindState, e: BindEvent)
    requires
        bind_wf(s),
    ensures
        bind_step_spec(s, e).0.resets == if s.phase == BindPhase::Reset && (e == BindEvent::ResetOk
            || (e is ResetFailed && reset_counts(e->message@))) {
            s.resets + 1
        } else {
            s.resets as int
        },
{
}

/// The repair ends with the re-enumeration wait exactly when at least one
/// reset succeeded, and the wait is only ever asked on entering the end.
pub proof fn law_wait_iff_some_reset(s: BindState, e: BindEvent)
    requires
        bind_wf(s),
    ensures
        (bind_step_spec(s, e).1 is Sleep) <==> (s.phase != BindPhase::Finished
            && bind_step_spec(s, e).0.phase == BindPhase::Finished && bind_step_spec(s, e).0.resets
            > 0),
        bind_step_spec(s, e).1 is Sleep ==> bind_step_spec(s, e).1 == (BindAction::Sleep {
            ms: REENUMERATE_WAIT_MS,
        }),
{
}

} // verus!
