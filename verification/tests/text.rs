use pinginfo::text::{
    decimal_text, parse_i64, parse_u16, text_eq, text_is_blank, trim_text, IntErrorKind,
};

#[test]
fn trimming_removes_unicode_white_space_at_both_ends() {
    assert_eq!(trim_text("  web \t\n"), "web");
    assert_eq!(trim_text("\u{3000}名字\u{00A0}"), "名字");
    assert_eq!(trim_text("a b"), "a b");
    assert_eq!(trim_text(" \u{2028} "), "");
    assert_eq!(trim_text(""), "");
    for s in ["  x ", "\u{85}y", "z\u{205F}", "mid dle", "\t"] {
        assert_eq!(trim_text(s), s.trim());
    }
}

#[test]
fn blank_means_only_white_space() {
    assert!(text_is_blank(""));
    assert!(text_is_blank(" \t\u{3000}"));
    assert!(!text_is_blank(" a "));
}

#[test]
fn text_equality_is_exact() {
    assert!(text_eq("tcp", "tcp"));
    assert!(!text_eq("tcp", "TCP"));
    assert!(!text_eq("tcp", "tcp "));
}

#[test]
fn decimal_rendering_matches_to_string() {
    for n in [0u64, 7, 10, 443, 65535, 18080, u64::MAX] {
        assert_eq!(decimal_text(n), n.to_string());
    }
}

#[test]
fn integer_reading_matches_the_standard_library() {
    for s in ["0", "+5", "-5", "65535", "65536", "", "+", "-", "12a", "007", " 1", "-0"] {
        assert_eq!(parse_u16(s).ok(), s.parse::<u16>().ok(), "u16 {s:?}");
    }
    for s in [
        "9223372036854775807",
        "9223372036854775808",
        "-9223372036854775808",
        "-9223372036854775809",
        "30",
        "-",
        "1_000",
    ] {
        assert_eq!(parse_i64(s).ok(), s.parse::<i64>().ok(), "i64 {s:?}");
    }
    assert_eq!(parse_i64("-9223372036854775809"), Err(IntErrorKind::NegOverflow));
    assert_eq!(parse_u16("+"), Err(IntErrorKind::InvalidDigit));
}

#[test]
fn port_text_reads_back_as_the_port() {
    for p in [0u16, 1, 9, 10, 80, 443, 8080, 65535] {
        assert_eq!(parse_u16(&decimal_text(p as u64)), Ok(p));
    }
}
