use lianli::backends::{
    lcd_open_action, open_retry_action, LcdOpenAction, LcdOpenError, LcdOpenOutcome, OpenGiveUp,
    RetryAction, MAX_RETRIES, RESET_DELAY_MS, RETRY_DELAY_MS,
};
use lianli::service::{
    clamp_frame_delays, next_deadline, parse_mac_str, send_plan, sleep_until, stream_step,
    video_frame_delay, FrameCursor, MediaKind, SendOutcome, SendPlan, StreamAction,
    MAX_CONSECUTIVE_USB_ERRORS, MIN_FRAME_NANOS,
};

#[test]
fn retry_waits_then_resets_then_gives_up() {
    assert_eq!(open_retry_action(0, true), RetryAction::Retry { delay_ms: 250 });
    assert_eq!(open_retry_action(1, false), RetryAction::Retry { delay_ms: RETRY_DELAY_MS });
    assert_eq!(open_retry_action(2, true), RetryAction::ResetAndRetry { delay_ms: 3000 });
    assert_eq!(open_retry_action(3, true), RetryAction::GiveUp(OpenGiveUp::Exhausted));
    assert_eq!(open_retry_action(7, false), RetryAction::GiveUp(OpenGiveUp::Exhausted));
}

#[test]
fn retry_without_usb_device_cannot_reset() {
    assert_eq!(open_retry_action(2, false), RetryAction::GiveUp(OpenGiveUp::NoDeviceForReset));
}

#[test]
fn retry_law_every_attempt_sequence_stops() {
    for has_usb in [false, true] {
        let mut stopped = false;
        for a in 0..=MAX_RETRIES {
            if let RetryAction::GiveUp(_) = open_retry_action(a, has_usb) {
                stopped = true;
                break;
            }
        }
        assert!(stopped);
    }
}

#[test]
fn lcd_open_actions() {
    assert_eq!(lcd_open_action(0, LcdOpenOutcome::Opened, false), LcdOpenAction::Done);
    assert_eq!(
        lcd_open_action(0, LcdOpenOutcome::Unsupported, true),
        LcdOpenAction::Fail(LcdOpenError::FamilyWithoutLcd)
    );
    assert_eq!(
        lcd_open_action(1, LcdOpenOutcome::OpenFailed, true),
        LcdOpenAction::ResetAndRetry { delay_ms: RESET_DELAY_MS }
    );
    assert_eq!(
        lcd_open_action(3, LcdOpenOutcome::OpenFailed, true),
        LcdOpenAction::Fail(LcdOpenError::OpenFailedAfterRetries)
    );
    assert_eq!(
        lcd_open_action(3, LcdOpenOutcome::NotFound, true),
        LcdOpenAction::Fail(LcdOpenError::NoHidDevice)
    );
    assert_eq!(
        lcd_open_action(0, LcdOpenOutcome::NotFound, false),
        LcdOpenAction::Fail(LcdOpenError::NoUsbDeviceForReset)
    );
}

#[test]
fn lcd_open_never_resets_at_the_limit() {
    for outcome in [
        LcdOpenOutcome::Opened,
        LcdOpenOutcome::OpenFailed,
        LcdOpenOutcome::Unsupported,
        LcdOpenOutcome::NotFound,
    ] {
        assert!(!matches!(
            lcd_open_action(MAX_RETRIES, outcome, true),
            LcdOpenAction::ResetAndRetry { .. }
        ));
    }
}

#[test]
fn three_usb_errors_remove_the_target() {
    let (e1, a1) = stream_step(0, SendOutcome::UsbError { timeout: false });
    assert_eq!((e1, a1), (1, StreamAction::Keep));
    let (e2, a2) = stream_step(e1, SendOutcome::UsbError { timeout: false });
    assert_eq!((e2, a2), (2, StreamAction::Keep));
    let (e3, a3) = stream_step(e2, SendOutcome::UsbError { timeout: true });
    assert_eq!(e3, MAX_CONSECUTIVE_USB_ERRORS);
    assert_eq!(a3, StreamAction::RemoveTarget { recover_wireless: true });
}

#[test]
fn a_sent_frame_resets_the_error_count() {
    assert_eq!(stream_step(2, SendOutcome::Sent), (0, StreamAction::Keep));
    assert_eq!(stream_step(2, SendOutcome::Skipped), (2, StreamAction::Keep));
    assert_eq!(
        stream_step(1, SendOutcome::OtherError),
        (1, StreamAction::RemoveTarget { recover_wireless: false })
    );
}

#[test]
fn frame_cursor_sends_each_rendered_frame_once() {
    let mut c = FrameCursor::new();
    assert_eq!(c.sent_frame_index, 0);
    assert!(!c.take_rendered_frame(0));
    assert!(c.take_rendered_frame(3));
    assert_eq!(c.sent_frame_index, 3);
    assert!(!c.take_rendered_frame(3));
    assert!(!c.take_rendered_frame(2));
    assert!(c.take_rendered_frame(4));
}

#[test]
fn frame_cursor_picks_video_frame_modulo_count() {
    let mut c = FrameCursor::new();
    assert_eq!(c.next_video_frame(7, 5), Some(2));
    assert_eq!(c.sent_frame_index, 7);
    assert_eq!(c.next_video_frame(7, 5), None);
    assert_eq!(c.next_video_frame(9, 0), None);
    assert_eq!(c.sent_frame_index, 7);
}

#[test]
fn deadlines_catch_up_when_late() {
    assert_eq!(next_deadline(100, 50, 120), 150);
    assert_eq!(next_deadline(100, 50, 400), 450);
    assert_eq!(sleep_until(150, 120), 30);
    assert_eq!(sleep_until(150, 200), 0);
}

#[test]
fn frame_delays_have_a_floor() {
    let d = clamp_frame_delays(&[0, 5_000_000, 10_000_000, 40_000_000]);
    assert_eq!(d, vec![MIN_FRAME_NANOS, MIN_FRAME_NANOS, 10_000_000, 40_000_000]);
    assert_eq!(video_frame_delay(&[1, 2, 3], 7), 2);
}

#[test]
fn mac_addresses_parse() {
    assert_eq!(
        parse_mac_str("aa:bb:cc:00:11:22"),
        Some([0xaa, 0xbb, 0xcc, 0x00, 0x11, 0x22])
    );
    assert_eq!(parse_mac_str("AA:B:+c:0:1:ff"), Some([0xaa, 0x0b, 0x0c, 0, 1, 0xff]));
    assert_eq!(parse_mac_str("aa:bb:cc:00:11"), None);
    assert_eq!(parse_mac_str("aa:bb:cc:00:11:22:33"), None);
    assert_eq!(parse_mac_str("aa:bb:cc:00:11:100"), None);
    assert_eq!(parse_mac_str("aa:bb:cc:00::22"), None);
    assert_eq!(parse_mac_str("zz:bb:cc:00:11:22"), None);
}

#[test]
fn send_plans() {
    let cases = [
        (MediaKind::H264 { started: false }, true, false, SendPlan::StartStream),
        (MediaKind::H264 { started: false }, false, true, SendPlan::Streaming),
        (MediaKind::H264 { started: true }, true, true, SendPlan::Streaming),
        (MediaKind::Static, false, true, SendPlan::SendVerified),
        (MediaKind::Static, true, false, SendPlan::NoNewFrame),
        (MediaKind::Video, true, true, SendPlan::Send),
        (MediaKind::Sensor, false, false, SendPlan::NoNewFrame),
        (MediaKind::Custom, false, true, SendPlan::Send),
    ];
    for (kind, winusb, fresh, plan) in cases {
        assert_eq!(send_plan(kind, winusb, fresh), plan);
    }
}
