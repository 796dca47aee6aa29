//! Decisions of the LCD streaming service: what to do after a frame send,
//! which rendered frame to send next, render pacing, video frame delays,
//! and parsing of MAC addresses from the configuration.

use vstd::prelude::*;
use crate::text::{parse_unsigned, parse_unsigned_spec, str_chars, index_of_char_from};

verus! {

/// Number of consecutive USB errors after which a target is dropped.
pub const MAX_CONSECUTIVE_USB_ERRORS: u32 = 3;

/// How sending one frame to a target went.
#[derive(Debug, Clone, Copy, PartialEq, Eq, Structural)]
pub enum SendOutcome {
    /// A frame was sent.
    Sent,
    /// There was no new frame to send.
    Skipped,
    /// The USB transport failed; `timeout` tells whether it timed out.
    UsbError { timeout: bool },
    /// Any other failure (media, protocol).
    OtherError,
}

/// What the service does with a target after a send.
#[derive(Debug, Clone, Copy, PartialEq, Eq, Structural)]
pub enum StreamAction {
    /// Keep streaming to the target.
    Keep,
    /// Stop the target and remove it; when `recover_wireless` is set, also
    /// try to recover the wireless link (the failure was a USB timeout).
    RemoveTarget { recover_wireless: bool },
}

/// The error count after a send and the action to take.
pub open spec fn stream_step_spec(consecutive_errors: u32, outcome: SendOutcome) -> (u32, StreamAction) {
    match outcome {
        SendOutcome::Sent => (0, StreamAction::Keep),
        SendOutcome::Skipped => (consecutive_errors, StreamAction::Keep),
        SendOutcome::UsbError { timeout } => {
            let e = (consecutive_errors + 1) as u32;
            if e < MAX_CONSECUTIVE_USB_ERRORS {
                (e, StreamAction::Keep)
            } else {
                (e, StreamAction::RemoveTarget { recover_wireless: timeout })
            }
        },
        SendOutcome::OtherError => (consecutive_errors, StreamAction::RemoveTarget { recover_wireless: false }),
    }
}

/// After a send: a sent frame clears the error count; a USB error counts
/// one more consecutive error and drops the target at the third (then a
/// timeout also triggers wireless recovery); any other error drops the
/// target at once.
pub fn stream_step(consecutive_errors: u32, outcome: SendOutcome) -> (r: (u32, StreamAction))
    requires
        consecutive_errors < u32::MAX,
    ensures
        r == stream_step_spec(consecutive_errors, outcome),
{
    match outcome {
        SendOutcome::Sent => (0, StreamAction::Keep),
        SendOutcome::Skipped => (consecutive_errors, StreamAction::Keep),
        SendOutcome::UsbError { timeout } => {
            let e = consecutive_errors + 1;
            if e < MAX_CONSECUTIVE_USB_ERRORS {
                (e, StreamAction::Keep)
            } else {
                (e, StreamAction::RemoveTarget { recover_wireless: timeout })
            }
        },
        SendOutcome::OtherError => (consecutive_errors, StreamAction::RemoveTarget { recover_wireless: false }),
    }
}

/// A kept target always has fewer than three consecutive errors, and a
/// target that starts without errors is dropped exactly at its third
/// consecutive USB error: the first two are tolerated.
pub proof fn law_three_usb_errors(consecutive_errors: u32, outcome: SendOutcome, t1: bool, t2: bool, t3: bool)
    requires
        consecutive_errors < MAX_CONSECUTIVE_USB_ERRORS,
    ensures
        stream_step_spec(consecutive_errors, outcome).1 == StreamAction::Keep ==> stream_step_spec(
            consecutive_errors,
            outcome,
        ).0 < MAX_CONSECUTIVE_USB_ERRORS,
        stream_step_spec(0, SendOutcome::UsbError { timeout: t1 }) == (1u32, StreamAction::Keep),
        stream_step_spec(1, SendOutcome::UsbError { timeout: t2 }) == (2u32, StreamAction::Keep),
        stream_step_spec(2, SendOutcome::UsbError { timeout: t3 }) == (
            3u32,
            StreamAction::RemoveTarget { recover_wireless: t3 },
        ),
{
}

/// The kind of media an LCD target shows, as far as sending decides.
#[derive(Debug, Clone, Copy, PartialEq, Eq, Structural)]
pub enum MediaKind {
    Static,
    Video,
    Sensor,
    /// An H.264 file streamed by the device's sender thread.
    H264 { started: bool },
    Custom,
}

/// What sending to an LCD target does this round.
#[derive(Debug, Clone, Copy, PartialEq, Eq, Structural)]
pub enum SendPlan {
    /// Start the H.264 stream on the sender thread (and mark it started).
    StartStream,
    /// The stream runs by itself: nothing to send, counted as sent.
    Streaming,
    /// No new frame since the last send: nothing is sent.
    NoNewFrame,
    /// Send the frame and wait for the device to confirm it (static images).
    SendVerified,
    /// Send the frame without waiting.
    Send,
}

/// The plan for one send: H.264 streams are started once, and only on a
/// WinUSB panel; a static image is sent verified; other media are sent
/// when a new frame is ready.
pub open spec fn send_plan_spec(kind: MediaKind, is_winusb: bool, has_new_frame: bool) -> SendPlan {
    match kind {
        MediaKind::H264 { started } => if !started && is_winusb {
            SendPlan::StartStream
        } else {
            SendPlan::Streaming
        },
        MediaKind::Static => if has_new_frame {
            SendPlan::SendVerified
        } else {
            SendPlan::NoNewFrame
        },
        _ => if has_new_frame {
            SendPlan::Send
        } else {
            SendPlan::NoNewFrame
        },
    }
}

/// The plan for one send to an LCD target.
pub fn send_plan(kind: MediaKind, is_winusb: bool, has_new_frame: bool) -> (r: SendPlan)
    ensures
        r == send_plan_spec(kind, is_winusb, has_new_frame),
{
    match kind {
        MediaKind::H264 { started } => {
            if !started && is_winusb {
                SendPlan::StartStream
            } else {
                SendPlan::Streaming
            }
        },
        MediaKind::Static => {
            if has_new_frame {
                SendPlan::SendVerified
            } else {
                SendPlan::NoNewFrame
            }
        },
        _ => {
            if has_new_frame {
                SendPlan::Send
            } else {
                SendPlan::NoNewFrame
            }
        },
    }
}

/// An H.264 stream is started at most once: after it is started, every
/// later send finds it streaming.
pub proof fn law_stream_started_once(is_winusb: bool, has_new_frame: bool)
    ensures
        send_plan_spec(MediaKind::H264 { started: true }, is_winusb, has_new_frame) == SendPlan::Streaming,
        send_plan_spec(MediaKind::H264 { started: false }, is_winusb, has_new_frame) == (if is_winusb {
            SendPlan::StartStream
        } else {
            SendPlan::Streaming
        }),
{
}

/// Which rendered frames were already sent to a target.
#[derive(Debug, Clone, Copy)]
pub struct FrameCursor {
    /// Index of the last rendered frame handed out (0: none yet).
    pub sent_frame_index: usize,
}

impl FrameCursor {
    /// A cursor that has sent nothing.
    pub fn new() -> (r: Self)
        ensures
            r.sent_frame_index == 0,
    {
        FrameCursor { sent_frame_index: 0 }
    }

    /// For a video of `n_frames` frames whose player is at frame counter
    /// `rendered`: the frame to send, `rendered % n_frames`, when the
    /// counter moved past the last one sent (and there are frames);
    /// otherwise nothing, and the cursor stays.
    pub fn next_video_frame(&mut self, rendered: usize, n_frames: usize) -> (r: Option<usize>)
        ensures
            !takes_frame(old(self).sent_frame_index, rendered) || n_frames == 0 ==> r is None
                && final(self).sent_frame_index == old(self).sent_frame_index,
            takes_frame(old(self).sent_frame_index, rendered) && n_frames > 0 ==> r == Some(
                (rendered % n_frames) as usize,
            ) && final(self).sent_frame_index == rendered,
    {
        if rendered <= self.sent_frame_index || n_frames == 0 {
            return None;
        }
        self.sent_frame_index = rendered;
        Some(rendered % n_frames)
    }

    /// For a renderer whose latest frame has index `rendered`: whether that
    /// frame is new and must be fetched and sent; the cursor then records it.
    pub fn take_rendered_frame(&mut self, rendered: usize) -> (r: bool)
        ensures
            r == takes_frame(old(self).sent_frame_index, rendered),
            final(self).sent_frame_index == cursor_after(old(self).sent_frame_index, rendered),
    {
        if rendered <= self.sent_frame_index {
            return false;
        }
        self.sent_frame_index = rendered;
        true
    }
}

/// Whether a cursor at `sent` hands out rendered frame `rendered`.
pub open spec fn takes_frame(sent: usize, rendered: usize) -> bool {
    rendered > sent
}

/// The cursor position after being offered frame `rendered`.
pub open spec fn cursor_after(sent: usize, rendered: usize) -> usize {
    if takes_frame(sent, rendered) { rendered } else { sent }
}

/// A rendered frame is handed out at most once and the cursor never goes
/// back: after frame `rendered` was handed out, no frame numbered
/// `rendered` or lower is handed out again.
pub proof fn law_frame_sent_once(sent: usize, rendered: usize)
    ensures
        cursor_after(sent, rendered) >= sent,
        takes_frame(sent, rendered) ==> forall|later: usize|
            later <= rendered ==> !#[trigger] takes_frame(cursor_after(sent, rendered), later),
{
}

/// When the renderer wakes next: one interval after the previous deadline,
/// or one interval after `now` if that deadline has already passed.
pub open spec fn next_deadline_spec(deadline: u64, interval: u64, now: u64) -> int {
    if deadline + interval < now {
        now + interval
    } else {
        deadline + interval
    }
}

/// The next render deadline (all times on one clock, e.g. nanoseconds).
pub fn next_deadline(deadline: u64, interval: u64, now: u64) -> (r: u64)
    requires
        deadline + interval <= u64::MAX,
        now + interval <= u64::MAX,
    ensures
        r == next_deadline_spec(deadline, interval, now),
{
    let next = deadline + interval;
    if next < now {
        now + interval
    } else {
        next
    }
}

/// The next deadline never lies in the past and always moves forward by at
/// least one interval, so a slow render skips missed frames instead of
/// bursting to catch up.
pub proof fn law_deadline_not_in_past(deadline: u64, interval: u64, now: u64)
    ensures
        next_deadline_spec(deadline, interval, now) >= now,
        next_deadline_spec(deadline, interval, now) >= deadline + interval,
        next_deadline_spec(deadline, interval, now) <= if now > deadline { now + interval } else {
            deadline + interval
        },
{
}

/// How long to sleep before rendering: until the deadline, or not at all
/// when it has passed.
pub fn sleep_until(deadline: u64, now: u64) -> (r: u64)
    ensures
        r == if now < deadline { (deadline - now) as u64 } else { 0u64 },
{
    if now < deadline {
        deadline - now
    } else {
        0
    }
}

/// Shortest delay of a video frame, in nanoseconds (10 ms).
pub const MIN_FRAME_NANOS: u64 = 10_000_000;

/// Frame delays with every delay raised to at least `MIN_FRAME_NANOS`.
pub fn clamp_frame_delays(delays: &[u64]) -> (r: Vec<u64>)
    ensures
        r@.len() == delays@.len(),
        forall|i: int|
            0 <= i < delays@.len() ==> #[trigger] r@[i] == if delays@[i] < MIN_FRAME_NANOS {
                MIN_FRAME_NANOS
            } else {
                delays@[i]
            },
{
    let mut r: Vec<u64> = Vec::new();
    let mut i: usize = 0;
    while i < delays.len()
        invariant
            i <= delays@.len(),
            r@.len() == i,
            forall|j: int|
                0 <= j < i ==> #[trigger] r@[j] == if delays@[j] < MIN_FRAME_NANOS {
                    MIN_FRAME_NANOS
                } else {
                    delays@[j]
                },
        decreases delays@.len() - i,
    {
        let d = delays[i];
        r.push(if d < MIN_FRAME_NANOS { MIN_FRAME_NANOS } else { d });
        i = i + 1;
    }
    r
}

/// The delay after showing frame counter `frame_count` of a looping video.
pub fn video_frame_delay(delays: &[u64], frame_count: usize) -> (r: u64)
    requires
        delays@.len() > 0,
    ensures
        r == delays@[(frame_count as int) % (delays@.len() as int)],
{
    delays[frame_count % delays.len()]
}

/// The pieces of `s` between occurrences of `c` (as `str::split`).
pub open spec fn split_on(s: Seq<char>, c: char) -> Seq<Seq<char>>
    decreases s.len(),
{
    match index_of_char_from(s, c, 0) {
        None => seq![s],
        Some(k) => if 0 <= k < s.len() {
            seq![s.take(k)] + split_on(s.skip(k + 1), c)
        } else {
            seq![s]
        },
    }
}

/// The six bytes of a MAC address written as six colon-separated
/// hexadecimal numbers (each as `u8::from_str_radix(_, 16)` reads it).
pub open spec fn mac_spec(s: Seq<char>) -> Option<Seq<u8>> {
    let parts = split_on(s, ':');
    if parts.len() == 6 && forall|i: int| 0 <= i < 6 ==> (#[trigger] parse_unsigned_spec(parts[i], 16, 255)) is Some {
        Some(Seq::new(6, |i: int| parse_unsigned_spec(parts[i], 16, 255).unwrap() as u8))
    } else {
        None
    }
}

proof fn lemma_index_of_char_found(s: Seq<char>, c: char, i: int)
    requires
        index_of_char_from(s, c, i) is Some,
    ensures
        i <= index_of_char_from(s, c, i).unwrap() < s.len(),
        0 <= index_of_char_from(s, c, i).unwrap(),
    decreases s.len() - i,
{
    if i < 0 || i >= s.len() {
    } else if s[i] == c {
    } else {
        lemma_index_of_char_found(s, c, i + 1);
    }
}

fn split_chars(s: &[char], c: char) -> (r: Vec<Vec<char>>)
    ensures
        r@.len() == split_on(s@, c).len(),
        forall|k: int| 0 <= k < r@.len() ==> (#[trigger] r@[k])@ == split_on(s@, c)[k],
{
    let mut r: Vec<Vec<char>> = Vec::new();
    let mut cur: Vec<char> = Vec::new();
    let mut i: usize = 0;
    let ghost done: Seq<Seq<char>> = seq![];
    let ghost start: int = 0;
    assert(s@.skip(0) =~= s@);
    while i < s.len()
        invariant
            0 <= start <= i <= s@.len(),
            cur@ == s@.subrange(start, i as int),
            forall|j: int| start <= j < i ==> s@[j] != c,
            r@.len() == done.len(),
            forall|k: int| 0 <= k < r@.len() ==> (#[trigger] r@[k])@ == done[k],
            split_on(s@, c) == done + split_on(s@.skip(start), c),
        decreases s@.len() - i,
    {
        if s[i] == c {
            let ghost rest = s@.skip(start);
            assert(index_of_char_from(rest, c, 0) == Some(i - start)) by {
                assert forall|j: int| 0 <= j < i - start implies #[trigger] rest[j] != c by {
                    assert(rest[j] == s@[start + j]);
                }
                lemma_index_walk(rest, c, 0, i - start);
            }
            assert(rest.take(i - start) =~= cur@);
            assert(rest.skip(i - start + 1) =~= s@.skip(i + 1));
            proof {
                done = done.push(cur@);
                start = i + 1;
            }
            r.push(cur);
            cur = Vec::new();
        } else {
            cur.push(s[i]);
        }
        i = i + 1;
        assert(cur@ =~= s@.subrange(start, i as int));
    }
    let ghost rest = s@.skip(start);
    assert(index_of_char_from(rest, c, 0) is None) by {
        assert forall|j: int| 0 <= j < rest.len() implies #[trigger] rest[j] != c by {
            assert(rest[j] == s@[start + j]);
        }
        lemma_no_char(rest, c, 0);
    }
    assert(rest =~= cur@);
    proof {
        done = done.push(cur@);
    }
    r.push(cur);
    assert(split_on(s@, c) =~= done);
    r
}

proof fn lemma_index_walk(s: Seq<char>, c: char, from: int, to: int)
    requires
        0 <= from <= to < s.len(),
        forall|j: int| from <= j < to ==> s[j] != c,
        s[to] == c,
    ensures
        index_of_char_from(s, c, from) == Some(to),
    decreases to - from,
{
    if from < to {
        lemma_index_walk(s, c, from + 1, to);
    }
}

proof fn lemma_no_char(s: Seq<char>, c: char, from: int)
    requires
        0 <= from,
        forall|j: int| from <= j < s.len() ==> s[j] != c,
    ensures
        index_of_char_from(s, c, from) is None,
    decreases s.len() - from,
{
    if from < s.len() {
        lemma_no_char(s, c, from + 1);
    }
}

/// Parses a MAC address such as `aa:bb:cc:00:11:22`.
pub fn parse_mac_str(s: &str) -> (r: Option<[u8; 6]>)
    ensures
        match r {
            Some(mac) => mac_spec(s@) == Some(mac@),
            None => mac_spec(s@) is None,
        },
{
    let chars = str_chars(s);
    let parts = split_chars(&chars, ':');
    if parts.len() != 6 {
        return None;
    }
    let ghost ps = split_on(s@, ':');
    let mut mac = [0u8; 6];
    let mut i: usize = 0;
    while i < 6
        invariant
            i <= 6,
            parts@.len() == 6,
            ps == split_on(s@, ':'),
            ps.len() == 6,
            forall|k: int| 0 <= k < 6 ==> (#[trigger] parts@[k])@ == ps[k],
            forall|k: int| 0 <= k < i ==> (#[trigger] parse_unsigned_spec(ps[k], 16, 255)) is Some
                && mac@[k] == parse_unsigned_spec(ps[k], 16, 255).unwrap() as u8,
        decreases 6 - i,
    {
        match parse_unsigned(&parts[i], 16, 255) {
            Some(v) => {
                mac[i] = v as u8;
            },
            None => {
                assert(parse_unsigned_spec(ps[i as int], 16, 255) is None);
                return None;
            },
        }
        i = i + 1;
    }
    assert(mac@ =~= Seq::new(6, |k: int| parse_unsigned_spec(ps[k], 16, 255).unwrap() as u8));
    Some(mac)
}

/// Hexadecimal digit `d` (0..=15), in upper or lower case.
pub open spec fn hex_digit_case(d: int, upper: bool) -> char {
    if d < 10 {
        (48 + d) as char
    } else if upper {
        (55 + d) as char
    } else {
        (87 + d) as char
    }
}

/// A byte as two hexadecimal digits, in upper or lower case.
pub open spec fn hex2_case(b: u8, upper: bool) -> Seq<char> {
    seq![hex_digit_case(b as int / 16, upper), hex_digit_case(b as int % 16, upper)]
}

/// The bytes `mac[i..6]` written as two hexadecimal digits each, joined
/// by colons.
pub open spec fn mac_text_from(mac: Seq<u8>, i: int, upper: bool) -> Seq<char>
    decreases 5 - i,
{
    if i >= 5 {
        hex2_case(mac[5], upper)
    } else {
        hex2_case(mac[i], upper) + seq![':'] + mac_text_from(mac, i + 1, upper)
    }
}

/// A MAC address written as six two-digit hexadecimal numbers joined by
/// colons (`aa:bb:cc:00:11:22`, or in upper case).
pub open spec fn mac_text(mac: Seq<u8>, upper: bool) -> Seq<char> {
    mac_text_from(mac, 0, upper)
}

proof fn lemma_hex2_parses(b: u8, upper: bool)
    ensures
        parse_unsigned_spec(hex2_case(b, upper), 16, 255) == Some(b as nat),
        hex2_case(b, upper)[0] != ':' && hex2_case(b, upper)[1] != ':',
        hex2_case(b, upper).len() == 2,
{
    let h = hex2_case(b, upper);
    let hi = b as int / 16;
    let lo = b as int % 16;
    assert(h[0] as u32 == if hi < 10 { 48 + hi } else if upper { 55 + hi } else { 87 + hi });
    assert(h[1] as u32 == if lo < 10 { 48 + lo } else if upper { 55 + lo } else { 87 + lo });
    assert(crate::text::digit_value(h[0], 16) == Some(hi as u32));
    assert(crate::text::digit_value(h[1], 16) == Some(lo as u32));
    assert(crate::text::unsigned_digits(h) == h);
    assert(h.drop_last() =~= seq![h[0]]);
    assert(h.drop_last().drop_last() =~= Seq::<char>::empty());
    assert(crate::text::all_digits(h, 16));
    let d1 = h.drop_last();
    assert(crate::text::digits_number(d1.drop_last(), 16) == 0);
    assert(d1.last() == h[0]);
    assert(crate::text::digits_number(d1, 16) == hi);
    assert(hi * 16 + lo == b);
}

proof fn lemma_split_mac(mac: Seq<u8>, i: int, upper: bool)
    requires
        0 <= i <= 5,
        mac.len() == 6,
    ensures
        split_on(mac_text_from(mac, i, upper), ':') =~= Seq::new((6 - i) as nat, |k: int| hex2_case(mac[i + k], upper)),
    decreases 5 - i,
{
    let h = hex2_case(mac[i], upper);
    lemma_hex2_parses(mac[i], upper);
    if i >= 5 {
        lemma_no_char(h, ':', 0);
    } else {
        let rest = mac_text_from(mac, i + 1, upper);
        let t = h + seq![':'] + rest;
        assert(t[0] != ':' && t[1] != ':' && t[2] == ':');
        assert(index_of_char_from(t, ':', 2) == Some(2int));
        assert(index_of_char_from(t, ':', 1) == Some(2int));
        assert(index_of_char_from(t, ':', 0) == Some(2int));
        assert(t.take(2) =~= h);
        assert(t.skip(3) =~= rest);
        lemma_split_mac(mac, i + 1, upper);
    }
}

/// Writing six bytes as colon-separated two-digit hexadecimal numbers, in
/// lower or upper case, and parsing the text gives the bytes back.
pub proof fn law_mac_roundtrip(mac: [u8; 6], upper: bool)
    ensures
        mac_spec(mac_text(mac@, upper)) == Some(mac@),
{
    lemma_split_mac(mac@, 0, upper);
    let parts = split_on(mac_text(mac@, upper), ':');
    assert forall|i: int| 0 <= i < 6 implies (#[trigger] parse_unsigned_spec(parts[i], 16, 255)) == Some(
        mac@[i] as nat,
    ) by {
        lemma_hex2_parses(mac@[i], upper);
    }
    assert(Seq::new(6, |i: int| parse_unsigned_spec(parts[i], 16, 255).unwrap() as u8) =~= mac@);
}

} // verus!
