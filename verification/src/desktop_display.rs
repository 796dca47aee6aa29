//! Discovery of TURZX desktop display panels in a USB bus scan.

use vstd::prelude::*;
use crate::detect::{ScannedUsbDevice, UsbId};

verus! {

/// A single detected TURZX device from a bus scan.
#[derive(Debug, Clone, Copy)]
pub struct TurzxDeviceMatch {
    pub pid: u16,
    /// (bus number, device address).
    pub key: (u8, u8),
}

/// The match for one scanned device, if its ids are TURZX ids.
pub open spec fn turzx_match(d: ScannedUsbDevice, turzx_ids: Seq<UsbId>) -> Option<TurzxDeviceMatch> {
    match d.descriptor {
        Some(id) => if turzx_ids.contains(id) {
            Some(TurzxDeviceMatch { pid: id.pid, key: (d.bus, d.address) })
        } else {
            None
        },
        None => None,
    }
}

/// The TURZX panels of a scan, in scan order.
pub open spec fn turzx_matches(scan: Seq<ScannedUsbDevice>, turzx_ids: Seq<UsbId>) -> Seq<TurzxDeviceMatch>
    decreases scan.len(),
{
    if scan.len() == 0 {
        seq![]
    } else {
        match turzx_match(scan.last(), turzx_ids) {
            Some(m) => turzx_matches(scan.drop_last(), turzx_ids).push(m),
            None => turzx_matches(scan.drop_last(), turzx_ids),
        }
    }
}

fn is_listed(ids: &[UsbId], id: UsbId) -> (r: bool)
    ensures
        r == ids@.contains(id),
{
    let mut i: usize = 0;
    while i < ids.len()
        invariant
            i <= ids@.len(),
            forall|j: int| 0 <= j < i ==> ids@[j] != id,
        decreases ids@.len() - i,
    {
        if ids[i] == id {
            return true;
        }
        i = i + 1;
    }
    false
}

/// The currently-attached TURZX panels of a bus scan: every device whose
/// vendor/product ids are among `turzx_ids`, keyed by (bus, address).
/// Devices whose descriptor could not be read are skipped.
pub fn enumerate_turzx(scan: &[ScannedUsbDevice], turzx_ids: &[UsbId]) -> (out: Vec<TurzxDeviceMatch>)
    ensures
        out@ == turzx_matches(scan@, turzx_ids@),
{
    let mut out: Vec<TurzxDeviceMatch> = Vec::new();
    let mut i: usize = 0;
    assert(scan@.take(0) =~= Seq::<ScannedUsbDevice>::empty());
    while i < scan.len()
        invariant
            i <= scan@.len(),
            out@ == turzx_matches(scan@.take(i as int), turzx_ids@),
        decreases scan@.len() - i,
    {
        let d = &scan[i];
        assert(scan@.take(i + 1).drop_last() =~= scan@.take(i as int));
        match d.descriptor {
            Some(id) => {
                if is_listed(turzx_ids, id) {
                    out.push(TurzxDeviceMatch { pid: id.pid, key: (d.bus, d.address) });
                }
            },
            None => {},
        }
        i = i + 1;
    }
    assert(scan@.take(scan@.len() as int) =~= scan@);
    out
}

} // verus!
