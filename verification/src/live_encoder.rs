//! Parameters of the live H.264 encoder process: bitrate, rotation filter,
//! frame size text, the byte size of one raw RGBA frame, and its argument
//! list.

use vstd::prelude::*;
use crate::text::{
    chars_to_string, dec, find, first_occurrence, first_occurrence_from, parse_unsigned,
    parse_unsigned_spec, push_dec, str_chars, copy_string, texts_view,
};

verus! {

/// The encoder's bitrate in bit/s: a quarter of the pixel rate, at least
/// one megabit.
pub open spec fn bitrate_spec(width: u32, height: u32, fps: u32) -> int {
    let q = (width * height * fps) / 4;
    if q < 1_000_000 {
        1_000_000
    } else {
        q
    }
}

/// The encoder's bitrate in bit/s for frames of `width` by `height` at
/// `fps` frames per second.
pub fn live_bitrate(width: u32, height: u32, fps: u32) -> (r: u64)
    requires
        width * height * fps <= u64::MAX,
    ensures
        r == bitrate_spec(width, height, fps),
{
    assert((width as u64) * (height as u64) <= u64::MAX) by (nonlinear_arith)
        requires
            width <= u32::MAX,
            height <= u32::MAX,
    ;
    let px: u64 = width as u64 * height as u64;
    assert(px * (fps as u64) == width * height * fps) by (nonlinear_arith)
        requires
            px == width * height,
    ;
    let rate: u64 = px * fps as u64 / 4;
    if rate < 1_000_000 {
        1_000_000
    } else {
        rate
    }
}

/// The rotation filter for a panel turned by `rotation_deg` degrees: a
/// quarter turn clockwise for 90, two for 180, a quarter turn counter-
/// clockwise for 270, none otherwise.
pub open spec fn transpose_spec(rotation_deg: u16) -> Option<Seq<char>> {
    if rotation_deg == 90 {
        Some("transpose=1"@)
    } else if rotation_deg == 180 {
        Some("transpose=1,transpose=1"@)
    } else if rotation_deg == 270 {
        Some("transpose=2"@)
    } else {
        None
    }
}

/// The rotation filter for a panel turned by `rotation_deg` degrees.
pub fn transpose_filter(rotation_deg: u16) -> (r: Option<&'static str>)
    ensures
        match r {
            Some(f) => transpose_spec(rotation_deg) == Some(f@),
            None => transpose_spec(rotation_deg) is None,
        },
{
    if rotation_deg == 90 {
        Some("transpose=1")
    } else if rotation_deg == 180 {
        Some("transpose=1,transpose=1")
    } else if rotation_deg == 270 {
        Some("transpose=2")
    } else {
        None
    }
}

/// The frame size text `<width>x<height>` of the encoder's input.
pub fn size_text(width: u32, height: u32) -> (r: String)
    ensures
        r@ == dec(width as nat) + "x"@ + dec(height as nat),
{
    let mut out: Vec<char> = Vec::new();
    push_dec(&mut out, width as u64);
    let x = str_chars("x");
    crate::text::push_all(&mut out, &x);
    push_dec(&mut out, height as u64);
    chars_to_string(&out)
}

/// Width and height read back from a frame size text: the numbers before
/// and after its first `x`, each a `u32` as `str::parse` reads it.
pub open spec fn size_spec(s: Seq<char>) -> Option<(u32, u32)> {
    match first_occurrence(s, "x"@) {
        Some(i) => match (
            parse_unsigned_spec(s.take(i), 10, u32::MAX as nat),
            parse_unsigned_spec(s.skip(i + 1), 10, u32::MAX as nat),
        ) {
            (Some(w), Some(h)) => Some((w as u32, h as u32)),
            _ => None,
        },
        None => None,
    }
}

/// Width and height read back from a frame size text, if it is one.
pub fn parse_size_text(s: &str) -> (r: Option<(u32, u32)>)
    ensures
        r == size_spec(s@),
{
    proof {
        reveal_strlit("x");
    }
    let v = str_chars(s);
    let x = str_chars("x");
    assert(x@.len() == 1);
    match find(&v, &x) {
        None => None,
        Some(i) => {
            let n = v.len();
            assert(i < n);
            let head = &v.as_slice()[0..i];
            let tail = &v.as_slice()[i + 1..n];
            assert(head@ =~= v@.take(i as int));
            assert(tail@ =~= v@.skip(i + 1));
            match (parse_unsigned(head, 10, 0xFFFF_FFFF), parse_unsigned(tail, 10, 0xFFFF_FFFF)) {
                (Some(w), Some(h)) => Some((w as u32, h as u32)),
                _ => None,
            }
        },
    }
}

/// Bytes of one raw RGBA frame of `width` by `height` pixels.
pub fn rgba_frame_bytes(width: u32, height: u32) -> (r: usize)
    requires
        width * height * 4 <= usize::MAX,
    ensures
        r == width * height * 4,
{
    assert((width as usize) * (height as usize) <= width * height * 4) by (nonlinear_arith)
        requires
            width * height * 4 <= usize::MAX,
    ;
    (width as usize) * (height as usize) * 4
}

/// The pipe buffer size to ask for so that two frames of `frame_bytes`
/// fit, at least 4 MiB, as the C `int` the kernel call takes.
pub open spec fn pipe_request_spec(frame_bytes: usize) -> i32 {
    let want: int = if frame_bytes * 2 < 0x40_0000 { 0x40_0000 } else { frame_bytes * 2 };
    want as i32
}

/// The pipe buffer size to ask for so that two frames fit.
pub fn pipe_size_request(frame_bytes: usize) -> (r: i32)
    requires
        frame_bytes * 2 <= usize::MAX,
    ensures
        r == pipe_request_spec(frame_bytes),
{
    let twice: usize = frame_bytes * 2;
    let want: usize = if twice < 0x40_0000 { 0x40_0000 } else { twice };
    #[verifier::truncate]
    (want as i32)
}

proof fn lemma_first_x(w: Seq<char>, rest: Seq<char>, i: int)
    requires
        0 <= i <= w.len(),
        forall|k: int| 0 <= k < w.len() ==> (#[trigger] w[k]) != 'x',
        "x"@.len() == 1,
        "x"@[0] == 'x',
    ensures
        first_occurrence_from(w + "x"@ + rest, "x"@, i) == Some(w.len() as int),
    decreases w.len() - i,
{
    let s = w + "x"@ + rest;
    if i < w.len() {
        assert(s.subrange(i, i + 1)[0] == w[i]);
        assert(!crate::text::occurs_at(s, "x"@, i));
        lemma_first_x(w, rest, i + 1);
    } else {
        assert(s.subrange(i, i + 1) =~= "x"@);
    }
}

/// Reading back a frame size text gives the width and height it was
/// written from.
pub proof fn law_size_text_roundtrip(width: u32, height: u32)
    ensures
        size_spec(dec(width as nat) + "x"@ + dec(height as nat)) == Some((width, height)),
{
    reveal_strlit("x");
    let w = dec(width as nat);
    let h = dec(height as nat);
    crate::text::lemma_dec_reads_back(width as nat);
    crate::text::lemma_dec_reads_back(height as nat);
    assert forall|k: int| 0 <= k < w.len() implies (#[trigger] w[k]) != 'x' by {
        assert(48 <= w[k] as u32 <= 57);
    }
    lemma_first_x(w, h, 0);
    let s = w + "x"@ + h;
    assert(s.take(w.len() as int) =~= w);
    assert(s.skip(w.len() as int + 1) =~= h);
    assert(crate::text::unsigned_digits(w) == w) by {
        assert(48 <= w[0] as u32 <= 57);
    }
    assert(crate::text::unsigned_digits(h) == h) by {
        assert(48 <= h[0] as u32 <= 57);
    }
}

/// `c` with ASCII upper-case letters turned to lower case.
pub open spec fn ascii_lower(c: char) -> char {
    if 'A' <= c <= 'Z' {
        ((c as u32) + 32) as char
    } else {
        c
    }
}

/// Whether `a` equals `b` up to ASCII case (as `str::eq_ignore_ascii_case`).
pub open spec fn eq_ignore_ascii_case_spec(a: Seq<char>, b: Seq<char>) -> bool {
    a.len() == b.len() && forall|i: int| 0 <= i < a.len() ==> ascii_lower(#[trigger] a[i]) == ascii_lower(b[i])
}

fn lower_char(c: char) -> (r: char)
    ensures
        r == ascii_lower(c),
{
    if 'A' <= c && c <= 'Z' {
        let v: u32 = c as u32 + 32;
        assert(0x61 <= v <= 0x7a);
        char_of_ascii(v)
    } else {
        c
    }
}

fn char_of_ascii(v: u32) -> (r: char)
    requires
        0x61 <= v <= 0x7a,
    ensures
        r == v as char,
{
    let b: u8 = v as u8;
    b as char
}

fn eq_ignore_case(a: &[char], b: &[char]) -> (r: bool)
    ensures
        r == eq_ignore_ascii_case_spec(a@, b@),
{
    if a.len() != b.len() {
        return false;
    }
    let mut i: usize = 0;
    while i < a.len()
        invariant
            i <= a@.len(),
            a@.len() == b@.len(),
            forall|j: int| 0 <= j < i ==> ascii_lower(#[trigger] a@[j]) == ascii_lower(b@[j]),
        decreases a@.len() - i,
    {
        if lower_char(a[i]) != lower_char(b[i]) {
            return false;
        }
        i = i + 1;
    }
    true
}

/// Whether the hardware video switch (the value of the environment
/// variable that disables hardware decoding, if set) turns hardware
/// decoding off: `1`, or `true` in any ASCII case.
pub open spec fn hw_video_disabled_spec(var: Option<Seq<char>>) -> bool {
    match var {
        Some(v) => v == "1"@ || eq_ignore_ascii_case_spec(v, "true"@),
        None => false,
    }
}

/// The ffmpeg decoding arguments: `-hwaccel auto` unless hardware video
/// is disabled.
pub fn hwaccel_args(var: Option<&str>) -> (r: Vec<String>)
    ensures
        hw_video_disabled_spec(crate::sysfs::opt_str_view(var)) ==> r@.len() == 0,
        !hw_video_disabled_spec(crate::sysfs::opt_str_view(var)) ==> r@.len() == 2 && r@[0]@ == "-hwaccel"@
            && r@[1]@ == "auto"@,
{
    let disabled = match var {
        Some(v) => {
            let c = str_chars(v);
            crate::text::str_is(v, "1") || eq_ignore_case(&c, &str_chars("true"))
        },
        None => false,
    };
    let mut r: Vec<String> = Vec::new();
    if !disabled {
        r.push(chars_to_string(&str_chars("-hwaccel")));
        r.push(chars_to_string(&str_chars("auto")));
    }
    r
}

fn push_text(r: &mut Vec<String>, t: &str)
    ensures
        texts_view(final(r)@) == texts_view(old(r)@).push(t@),
{
    let ghost before = r@;
    r.push(chars_to_string(&str_chars(t)));
    assert(texts_view(r@) =~= texts_view(before).push(t@));
}

fn push_texts(r: &mut Vec<String>, ts: &[String])
    ensures
        texts_view(final(r)@) == texts_view(old(r)@) + texts_view(ts@),
{
    let ghost start = texts_view(r@);
    let mut i: usize = 0;
    while i < ts.len()
        invariant
            i <= ts@.len(),
            texts_view(r@) == start + texts_view(ts@.subrange(0, i as int)),
        decreases ts@.len() - i,
    {
        let ghost before = r@;
        r.push(copy_string(&ts[i]));
        assert(texts_view(ts@.subrange(0, i + 1)) =~= texts_view(ts@.subrange(0, i as int)).push(ts@[i as int]@));
        assert(texts_view(r@) =~= texts_view(before).push(ts@[i as int]@));
        i = i + 1;
    }
    assert(ts@.subrange(0, i as int) =~= ts@);
}

/// The ffmpeg arguments of the live encoder: quiet logging, the encoder's
/// hardware input arguments `hw_input`, raw RGBA frames of size `size`
/// (`WxH`) at `fps` frames per second from stdin, the finished filter
/// chain `vf` when it is not empty, the encoder's codec arguments `codec`,
/// full colour range, and a raw H.264 stream without audio on stdout.
pub open spec fn encoder_args_spec(
    hw_input: Seq<Seq<char>>,
    size: Seq<char>,
    fps: Seq<char>,
    vf: Seq<char>,
    codec: Seq<Seq<char>>,
) -> Seq<Seq<char>> {
    seq!["-loglevel"@, "error"@] + hw_input + seq![
        "-f"@,
        "rawvideo"@,
        "-pix_fmt"@,
        "rgba"@,
        "-s"@,
        size,
        "-r"@,
        fps,
        "-i"@,
        "pipe:0"@,
    ] + (if vf.len() > 0 {
        seq!["-vf"@, vf]
    } else {
        seq![]
    }) + codec + seq!["-color_range"@, "pc"@, "-an"@, "-f"@, "h264"@, "pipe:1"@]
}

/// The ffmpeg arguments of the live encoder, from the encoder's hardware
/// input arguments, the frame size and rate texts, the finished filter
/// chain (empty for none) and the encoder's codec arguments.
pub fn live_encoder_args(hw_input: &[String], size: &str, fps: &str, vf: &str, codec: &[String]) -> (r: Vec<String>)
    ensures
        texts_view(r@) == encoder_args_spec(texts_view(hw_input@), size@, fps@, vf@, texts_view(codec@)),
{
    let mut r: Vec<String> = Vec::new();
    push_text(&mut r, "-loglevel");
    push_text(&mut r, "error");
    push_texts(&mut r, hw_input);
    push_text(&mut r, "-f");
    push_text(&mut r, "rawvideo");
    push_text(&mut r, "-pix_fmt");
    push_text(&mut r, "rgba");
    push_text(&mut r, "-s");
    push_text(&mut r, size);
    push_text(&mut r, "-r");
    push_text(&mut r, fps);
    push_text(&mut r, "-i");
    push_text(&mut r, "pipe:0");
    if vf.unicode_len() > 0 {
        push_text(&mut r, "-vf");
        push_text(&mut r, vf);
    }
    push_texts(&mut r, codec);
    push_text(&mut r, "-color_range");
    push_text(&mut r, "pc");
    push_text(&mut r, "-an");
    push_text(&mut r, "-f");
    push_text(&mut r, "h264");
    push_text(&mut r, "pipe:1");
    assert(texts_view(r@) =~= encoder_args_spec(texts_view(hw_input@), size@, fps@, vf@, texts_view(codec@)));
    r
}

/// A raw frame handed to the encoder whose byte count is not that of an
/// RGBA frame of the encoder's size.
#[derive(Debug, Clone, Copy, PartialEq, Eq, Structural)]
pub struct FrameSizeMismatch {
    pub got: usize,
    pub expected: u128,
}

/// Checks that a raw frame of `got` bytes is one RGBA frame of `width` by
/// `height` pixels, `width * height * 4` bytes; otherwise reports both
/// byte counts.
pub fn check_frame_size(got: usize, width: u32, height: u32) -> (r: Result<(), FrameSizeMismatch>)
    ensures
        r is Ok <==> got as int == width as int * height as int * 4,
        r is Err ==> r->Err_0 == (FrameSizeMismatch { got, expected: (width as int * height as int * 4) as u128 }),
{
    assert(width as int * height as int <= 0xFFFF_FFFF * 0xFFFF_FFFF) by (nonlinear_arith);
    let expected: u128 = (width as u128) * (height as u128) * 4;
    if got as u128 == expected {
        Ok(())
    } else {
        Err(FrameSizeMismatch { got, expected })
    }
}

} // verus!
