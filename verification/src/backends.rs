//! Retry policies for opening HID devices, and which LCD controller drives
//! a HID device of each family.
//!
//! The caller performs the open attempts, USB resets and sleeps; after each
//! failed attempt it asks the policy what to do next.

use vstd::prelude::*;
use crate::detect::{DeviceFamily, FamilyKind};

verus! {

/// Index of the last open attempt (attempts are numbered from 0).
pub const MAX_RETRIES: u32 = 3;
/// Failed attempt after which the USB port is reset.
pub const RESET_AT: u32 = 2;
/// Pause before a plain reopen, in milliseconds.
pub const RETRY_DELAY_MS: u64 = 250;
/// Pause after a USB port reset, in milliseconds.
pub const RESET_DELAY_MS: u64 = 3000;

/// Why opening a device was given up.
#[derive(Debug, Clone, Copy, PartialEq, Eq, Structural)]
pub enum OpenGiveUp {
    /// The attempt that called for a reset failed and no USB device was available for it.
    NoDeviceForReset,
    /// All `MAX_RETRIES + 1` attempts failed.
    Exhausted,
}

/// What to do after a failed open attempt.
#[derive(Debug, Clone, Copy, PartialEq, Eq, Structural)]
pub enum RetryAction {
    /// Sleep `delay_ms`, then try again.
    Retry { delay_ms: u64 },
    /// Reset the USB device, sleep `delay_ms`, then try again.
    ResetAndRetry { delay_ms: u64 },
    /// Stop and report the failure.
    GiveUp(OpenGiveUp),
}

/// The policy: plain reopens after the first two failures, a USB port
/// reset after the third (or giving up without a USB device), and giving
/// up after the fourth.
pub open spec fn retry_action_spec(failed_attempt: u32, has_usb_device: bool) -> RetryAction {
    if failed_attempt >= MAX_RETRIES {
        RetryAction::GiveUp(OpenGiveUp::Exhausted)
    } else if failed_attempt == RESET_AT {
        if has_usb_device {
            RetryAction::ResetAndRetry { delay_ms: RESET_DELAY_MS }
        } else {
            RetryAction::GiveUp(OpenGiveUp::NoDeviceForReset)
        }
    } else {
        RetryAction::Retry { delay_ms: RETRY_DELAY_MS }
    }
}

/// The action after open attempt number `failed_attempt` failed.
pub fn open_retry_action(failed_attempt: u32, has_usb_device: bool) -> (r: RetryAction)
    ensures
        r == retry_action_spec(failed_attempt, has_usb_device),
{
    if failed_attempt >= MAX_RETRIES {
        RetryAction::GiveUp(OpenGiveUp::Exhausted)
    } else if failed_attempt == RESET_AT {
        if has_usb_device {
            RetryAction::ResetAndRetry { delay_ms: RESET_DELAY_MS }
        } else {
            RetryAction::GiveUp(OpenGiveUp::NoDeviceForReset)
        }
    } else {
        RetryAction::Retry { delay_ms: RETRY_DELAY_MS }
    }
}

/// Whether the policy stops after failed attempt `a`.
pub open spec fn stops_after(a: u32, has_usb_device: bool) -> bool {
    retry_action_spec(a, has_usb_device) is GiveUp
}

/// Whether the policy resets the device after failed attempt `a`.
pub open spec fn resets_after(a: u32, has_usb_device: bool) -> bool {
    retry_action_spec(a, has_usb_device) is ResetAndRetry
}

/// A device that never opens is tried at most `MAX_RETRIES + 1` times: the
/// policy gives up at the latest after attempt `MAX_RETRIES`, it resets the
/// device at most once (after attempt `RESET_AT`, only when a USB device is
/// available), and it never gives up before that reset is due.
pub proof fn law_retry_bounded(has_usb_device: bool)
    ensures
        stops_after(MAX_RETRIES, has_usb_device),
        forall|a: u32| a < RESET_AT ==> !stops_after(a, has_usb_device),
        forall|a: u32| #[trigger] resets_after(a, has_usb_device) ==> a == RESET_AT && has_usb_device,
        has_usb_device ==> forall|a: u32| a < MAX_RETRIES ==> !stops_after(a, has_usb_device),
{
}

/// How one attempt to open an HID LCD went.
#[derive(Debug, Clone, Copy, PartialEq, Eq, Structural)]
pub enum LcdOpenOutcome {
    /// The controller was opened.
    Opened,
    /// A HID node was found but opening the controller failed.
    OpenFailed,
    /// The device family has no LCD controller.
    Unsupported,
    /// No HID node of the family was found.
    NotFound,
}

/// Why opening an HID LCD by vendor/product id failed.
#[derive(Debug, Clone, Copy, PartialEq, Eq, Structural)]
pub enum LcdOpenError {
    /// Opening failed on every attempt.
    OpenFailedAfterRetries,
    /// The family does not support an LCD.
    FamilyWithoutLcd,
    /// No HID node appeared on any attempt.
    NoHidDevice,
    /// A reset was due but no USB device was found to reset.
    NoUsbDeviceForReset,
}

/// What to do after an attempt to open an HID LCD.
#[derive(Debug, Clone, Copy, PartialEq, Eq, Structural)]
pub enum LcdOpenAction {
    /// Keep the opened controller.
    Done,
    /// Reset the USB device, sleep `delay_ms`, then try again.
    ResetAndRetry { delay_ms: u64 },
    /// Stop with an error.
    Fail(LcdOpenError),
}

/// The LCD open policy: every failed attempt but the last is followed by a
/// USB reset (when a USB device exists); an unsupported family fails at once.
pub open spec fn lcd_open_action_spec(attempt: u32, outcome: LcdOpenOutcome, has_usb_device: bool) -> LcdOpenAction {
    match outcome {
        LcdOpenOutcome::Opened => LcdOpenAction::Done,
        LcdOpenOutcome::Unsupported => LcdOpenAction::Fail(LcdOpenError::FamilyWithoutLcd),
        LcdOpenOutcome::OpenFailed => if attempt >= MAX_RETRIES {
            LcdOpenAction::Fail(LcdOpenError::OpenFailedAfterRetries)
        } else if has_usb_device {
            LcdOpenAction::ResetAndRetry { delay_ms: RESET_DELAY_MS }
        } else {
            LcdOpenAction::Fail(LcdOpenError::NoUsbDeviceForReset)
        },
        LcdOpenOutcome::NotFound => if attempt >= MAX_RETRIES {
            LcdOpenAction::Fail(LcdOpenError::NoHidDevice)
        } else if has_usb_device {
            LcdOpenAction::ResetAndRetry { delay_ms: RESET_DELAY_MS }
        } else {
            LcdOpenAction::Fail(LcdOpenError::NoUsbDeviceForReset)
        },
    }
}

/// The action after attempt number `attempt` to open an HID LCD.
pub fn lcd_open_action(attempt: u32, outcome: LcdOpenOutcome, has_usb_device: bool) -> (r: LcdOpenAction)
    ensures
        r == lcd_open_action_spec(attempt, outcome, has_usb_device),
{
    match outcome {
        LcdOpenOutcome::Opened => LcdOpenAction::Done,
        LcdOpenOutcome::Unsupported => LcdOpenAction::Fail(LcdOpenError::FamilyWithoutLcd),
        LcdOpenOutcome::OpenFailed => {
            if attempt >= MAX_RETRIES {
                LcdOpenAction::Fail(LcdOpenError::OpenFailedAfterRetries)
            } else if has_usb_device {
                LcdOpenAction::ResetAndRetry { delay_ms: RESET_DELAY_MS }
            } else {
                LcdOpenAction::Fail(LcdOpenError::NoUsbDeviceForReset)
            }
        },
        LcdOpenOutcome::NotFound => {
            if attempt >= MAX_RETRIES {
                LcdOpenAction::Fail(LcdOpenError::NoHidDevice)
            } else if has_usb_device {
                LcdOpenAction::ResetAndRetry { delay_ms: RESET_DELAY_MS }
            } else {
                LcdOpenAction::Fail(LcdOpenError::NoUsbDeviceForReset)
            }
        },
    }
}

/// Opening an HID LCD ends by attempt `MAX_RETRIES` whatever happens, and
/// only a successful open ends in `Done`.
pub proof fn law_lcd_open_bounded(outcome: LcdOpenOutcome, has_usb_device: bool)
    ensures
        !(lcd_open_action_spec(MAX_RETRIES, outcome, has_usb_device) is ResetAndRetry),
        forall|a: u32|
            #![trigger lcd_open_action_spec(a, outcome, has_usb_device)]
            (lcd_open_action_spec(a, outcome, has_usb_device) is Done) <==> outcome
                == LcdOpenOutcome::Opened,
{
}

/// The LCD controllers that drive HID devices.
#[derive(Debug, Clone, Copy, PartialEq, Eq, Structural)]
pub enum HidLcdController {
    /// The HydroShift LCD controller (HydroShift and Galahad II LCDs).
    HydroShift,
    /// The TL LCD device, initialised once opened.
    TlLcd,
}

/// The controller that drives a HID device of `family` as an LCD, if any:
/// the HydroShift controller for the HydroShift and Galahad II LCD
/// families, the TL LCD device for the TL LCD family, none otherwise.
pub open spec fn lcd_controller_spec(family: DeviceFamily) -> Option<HidLcdController> {
    match family.kind {
        FamilyKind::HydroShiftLcd => Some(HidLcdController::HydroShift),
        FamilyKind::Galahad2Lcd => Some(HidLcdController::HydroShift),
        FamilyKind::TlLcd => Some(HidLcdController::TlLcd),
        FamilyKind::Other => None,
    }
}

/// The controller that drives a HID device of `family` as an LCD, if any.
pub fn hid_lcd_controller(family: DeviceFamily) -> (r: Option<HidLcdController>)
    ensures
        r == lcd_controller_spec(family),
{
    match family.kind {
        FamilyKind::HydroShiftLcd => Some(HidLcdController::HydroShift),
        FamilyKind::Galahad2Lcd => Some(HidLcdController::HydroShift),
        FamilyKind::TlLcd => Some(HidLcdController::TlLcd),
        FamilyKind::Other => None,
    }
}

/// Whether HID devices of `family` can be opened as an LCD: exactly the
/// HydroShift LCD, Galahad II LCD and TL LCD families.
pub fn lcd_family_supported(family: DeviceFamily) -> (r: bool)
    ensures
        r == (lcd_controller_spec(family) is Some),
        r <==> (family.kind == FamilyKind::HydroShiftLcd || family.kind == FamilyKind::Galahad2Lcd
            || family.kind == FamilyKind::TlLcd),
{
    hid_lcd_controller(family).is_some()
}

/// How an attempt to open an HID LCD went: no HID device was found
/// (`found` is `None`), the family of the one found has no LCD controller,
/// or the controller opened (`opened`) or not. `opened` is read only for a
/// family that has a controller.
pub open spec fn lcd_attempt_outcome_spec(found: Option<DeviceFamily>, opened: bool) -> LcdOpenOutcome {
    match found {
        None => LcdOpenOutcome::NotFound,
        Some(f) => if lcd_controller_spec(f) is None {
            LcdOpenOutcome::Unsupported
        } else if opened {
            LcdOpenOutcome::Opened
        } else {
            LcdOpenOutcome::OpenFailed
        },
    }
}

/// How an attempt to open an HID LCD went, from the family of the HID
/// device found (if any) and whether its controller opened.
pub fn lcd_attempt_outcome(found: Option<DeviceFamily>, opened: bool) -> (r: LcdOpenOutcome)
    ensures
        r == lcd_attempt_outcome_spec(found, opened),
{
    match found {
        None => LcdOpenOutcome::NotFound,
        Some(f) => {
            if !lcd_family_supported(f) {
                LcdOpenOutcome::Unsupported
            } else if opened {
                LcdOpenOutcome::Opened
            } else {
                LcdOpenOutcome::OpenFailed
            }
        },
    }
}

/// The action after attempt number `attempt` to open an HID LCD, from the
/// family of the HID device found (if any), whether its controller opened,
/// and whether a USB device to reset exists.
pub fn lcd_attempt_action(attempt: u32, found: Option<DeviceFamily>, opened: bool, has_usb_device: bool) -> (r: LcdOpenAction)
    ensures
        r == lcd_open_action_spec(attempt, lcd_attempt_outcome_spec(found, opened), has_usb_device),
{
    let outcome = lcd_attempt_outcome(found, opened);
    lcd_open_action(attempt, outcome, has_usb_device)
}

/// Finding a HID device of a family without an LCD controller fails at
/// once, on any attempt; a device of an LCD family ends in `Done` exactly
/// when it opened.
pub proof fn law_lcd_family_decides(attempt: u32, family: DeviceFamily, opened: bool, has_usb_device: bool)
    ensures
        !(family.kind == FamilyKind::HydroShiftLcd || family.kind == FamilyKind::Galahad2Lcd
            || family.kind == FamilyKind::TlLcd) ==> lcd_open_action_spec(
            attempt,
            lcd_attempt_outcome_spec(Some(family), opened),
            has_usb_device,
        ) == LcdOpenAction::Fail(LcdOpenError::FamilyWithoutLcd),
        (family.kind == FamilyKind::HydroShiftLcd || family.kind == FamilyKind::Galahad2Lcd
            || family.kind == FamilyKind::TlLcd) ==> ((lcd_open_action_spec(
            attempt,
            lcd_attempt_outcome_spec(Some(family), opened),
            has_usb_device,
        ) is Done) <==> opened),
{
}

} // verus!
