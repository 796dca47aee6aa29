use lianli::live_encoder::{
    hwaccel_args, live_bitrate, parse_size_text, pipe_size_request, rgba_frame_bytes, size_text,
    transpose_filter,
};
use lianli::value_format::format_parts;
use lianli::text::{
    chars_lt, chars_to_string, find, lines_of, parse_unsigned, remove_all_of, sort_strings, split_by,
    str_chars, trim_str, words_of,
};

fn s(v: &[char]) -> String {
    v.iter().collect()
}

#[test]
fn bitrate_has_a_floor() {
    assert_eq!(live_bitrate(480, 480, 24), 1_382_400);
    assert_eq!(live_bitrate(100, 100, 30), 1_000_000);
    assert_eq!(live_bitrate(0, 0, 0), 1_000_000);
    assert_eq!(live_bitrate(1920, 1080, 60), 31_104_000);
}

#[test]
fn rotation_filters() {
    assert_eq!(transpose_filter(90), Some("transpose=1"));
    assert_eq!(transpose_filter(180), Some("transpose=1,transpose=1"));
    assert_eq!(transpose_filter(270), Some("transpose=2"));
    assert_eq!(transpose_filter(0), None);
    assert_eq!(transpose_filter(45), None);
}

#[test]
fn frame_size_text_roundtrip() {
    assert_eq!(size_text(480, 480), "480x480");
    assert_eq!(parse_size_text("1920x1080"), Some((1920, 1080)));
    assert_eq!(parse_size_text(&size_text(4294967295, 7)), Some((4294967295, 7)));
    assert_eq!(parse_size_text("1920"), None);
    assert_eq!(parse_size_text("x1080"), None);
    assert_eq!(parse_size_text("4294967296x1"), None);
    assert_eq!(parse_size_text("+12x+3"), Some((12, 3)));
    assert_eq!(parse_size_text("1x2x3"), None);
    assert_eq!(rgba_frame_bytes(480, 480), 921_600);
}

#[test]
fn pipe_request_sizes() {
    assert_eq!(pipe_size_request(100), 4 << 20);
    assert_eq!(pipe_size_request(3 << 20), 6 << 20);
    // Asking beyond a C int wraps as the cast does.
    assert_eq!(pipe_size_request(1 << 31), 0);
}

#[test]
fn text_helpers() {
    assert_eq!(chars_to_string(&str_chars("héllo")), "héllo");
    assert_eq!(find(&str_chars("a: b: c"), &str_chars(": ")), Some(1));
    assert_eq!(find(&str_chars("abc"), &str_chars("x")), None);
    assert_eq!(trim_str("\t  hi there \u{3000}\n"), "hi there");
    assert_eq!(lianli::sysfs::get_label_name("temp4", "CORE 2"), "Temp Core 2");
    let lines = lines_of(&str_chars("a\r\nb\n\nc"));
    assert_eq!(lines.iter().map(|l| s(l)).collect::<Vec<_>>(), vec!["a", "b", "", "c"]);
    let words = words_of(&str_chars("  eth0\t00000000  x "));
    assert_eq!(words.iter().map(|w| s(w)).collect::<Vec<_>>(), vec!["eth0", "00000000", "x"]);
    let parts = split_by(&str_chars("a, b,, c, "), &str_chars(", "));
    assert_eq!(parts.iter().map(|p| s(p)).collect::<Vec<_>>(), vec!["a", "b,", "c", ""]);
    assert_eq!(remove_all_of("0000:0000:1", "0000:"), "1");
    assert_eq!(parse_unsigned(&str_chars("ff"), 16, 255), Some(255));
    assert_eq!(parse_unsigned(&str_chars("100"), 16, 255), None);
    assert_eq!(parse_unsigned(&str_chars(""), 10, 9), None);
    assert_eq!(parse_unsigned(&str_chars("+"), 10, 9), None);
    assert!(chars_lt(&str_chars("ab"), &str_chars("b")));
    assert!(!chars_lt(&str_chars("b"), &str_chars("b")));
    assert_eq!(
        sort_strings(vec!["b".into(), "a".into(), "B".into(), "ab".into()]),
        vec!["B".to_string(), "a".to_string(), "ab".to_string(), "b".to_string()]
    );
}

#[test]
fn hardware_decoding_switch() {
    assert_eq!(hwaccel_args(None), vec!["-hwaccel".to_string(), "auto".to_string()]);
    assert!(hwaccel_args(Some("1")).is_empty());
    assert!(hwaccel_args(Some("TRUE")).is_empty());
    assert!(hwaccel_args(Some("tRuE")).is_empty());
    assert_eq!(hwaccel_args(Some("0")).len(), 2);
    assert_eq!(hwaccel_args(Some("yes")).len(), 2);
    assert_eq!(hwaccel_args(Some("truee")).len(), 2);
    assert_eq!(hwaccel_args(Some("")).len(), 2);
}

#[test]
fn value_format_templates() {
    let p = format_parts("CPU {:.1} °C").unwrap();
    assert_eq!((p.prefix.as_str(), p.decimals, p.suffix.as_str()), ("CPU ", 1, " °C"));
    let q = format_parts("{}%").unwrap();
    assert_eq!((q.prefix.as_str(), q.decimals, q.suffix.as_str()), ("", 0, "%"));
    let r = format_parts("x{:.z}y").unwrap();
    assert_eq!(r.decimals, 0);
    let t = format_parts("é{:.3}}").unwrap();
    assert_eq!((t.prefix.as_str(), t.decimals, t.suffix.as_str()), ("é", 3, "}"));
    assert!(format_parts("no placeholder").is_none());
    assert!(format_parts("open { only").is_none());
    assert!(format_parts("} before {").is_none());
}
