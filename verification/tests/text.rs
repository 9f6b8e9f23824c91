use vgpu_market::text::{contains, decimal_text, parse_int, strip_prefix, trim};

#[test]
fn integers_are_read_as_std_reads_them() {
    for s in ["", "+", "-", "0", "+7", "-7", "007", "1_0", " 1", "9223372036854775807",
        "9223372036854775808", "-9223372036854775808", "-9223372036854775809", "٣",
        "99999999999999999999999999999999999999999999", "+-1", "1-"] {
        assert_eq!(
            parse_int(s, true, i64::MIN, i64::MAX),
            s.parse::<i64>().ok(),
            "{s:?}"
        );
        assert_eq!(
            parse_int(s, false, 0, u32::MAX as i64),
            s.parse::<u32>().ok().map(i64::from),
            "{s:?}"
        );
        assert_eq!(
            parse_int(s, true, i32::MIN as i64, i32::MAX as i64),
            s.parse::<i32>().ok().map(i64::from),
            "{s:?}"
        );
    }
}

#[test]
fn integers_are_written_and_read_back() {
    for n in [0, 9, 10, -1, i64::MIN, i64::MAX] {
        assert_eq!(decimal_text(n), n.to_string());
        assert_eq!(parse_int(&decimal_text(n), true, i64::MIN, i64::MAX), Some(n));
    }
}

#[test]
fn white_space_is_what_std_calls_white_space() {
    for u in 0..=0x3001u32 {
        if let Some(c) = char::from_u32(u) {
            let s = format!("{c}x{c}");
            assert_eq!(trim(&s), s.trim(), "{u:x}");
        }
    }
    assert_eq!(trim(" \t "), "");
    assert_eq!(trim("a b"), "a b");
}

#[test]
fn prefixes_and_parts_are_found() {
    assert_eq!(strip_prefix("Bearer x", "Bearer "), Some("x".to_string()));
    assert_eq!(strip_prefix("Bearer", "Bearer "), None);
    assert_eq!(strip_prefix("é1", "é"), Some("1".to_string()));
    assert!(contains("abc", ""));
    assert!(contains("abc", "bc"));
    assert!(!contains("abc", "cb"));
    assert!(!contains("a", "aa"));
}
