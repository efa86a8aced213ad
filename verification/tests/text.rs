use ldc_companion::fmt::{fmt_i64, fmt_u64, fmt_usize, join_first, parse_i64, parse_u16};
use ldc_companion::order::{insert_sorted_unique, str_lt};
use ldc_companion::text::{
    char_is_white_space, contains_str, lower_str, replace_char_str, str_eq, trim_str,
    utf8_len_exceeds,
};

#[test]
fn trimming_matches_str_trim() {
    for t in ["  a b  ", "\u{3000}x\u{2028}", "\t\n\r", "", "abc", "\u{a0}é\u{85}", " \u{200b} "] {
        assert_eq!(trim_str(t), t.trim(), "{t:?}");
    }
}

#[test]
fn white_space_matches_char_is_whitespace() {
    for c in (0u32..0x3100).filter_map(char::from_u32) {
        assert_eq!(char_is_white_space(c), c.is_whitespace(), "{c:?}");
    }
}

#[test]
fn lowercasing_is_ascii_only() {
    assert_eq!(lower_str("RuSt ÉTÉ"), "RuSt ÉTÉ".to_ascii_lowercase());
    assert_eq!(lower_str("RuSt ÉTÉ"), "rust ÉtÉ");
    assert_eq!(lower_str("@[`{AZ"), "@[`{az");
}

#[test]
fn replacing_and_searching() {
    assert_eq!(replace_char_str("a\\b\\c", '\\', '/'), "a/b/c");
    assert!(contains_str("config/secret-token", "secret"));
    assert!(contains_str("abc", ""));
    assert!(!contains_str("ab", "abc"));
    assert!(contains_str("aab", "ab"));
    assert!(str_eq("ação", "ação"));
    assert!(!str_eq("a", "b"));
}

#[test]
fn order_matches_string_order() {
    let words = ["", "a", "ab", "b", "B", "é", "z", "aé", "a\u{10000}", "a\u{ffff}"];
    for x in words {
        for y in words {
            assert_eq!(str_lt(x, y), x < y, "{x:?} {y:?}");
        }
    }
}

#[test]
fn sorted_insertion_keeps_order_and_uniqueness() {
    let mut v: Vec<String> = Vec::new();
    for w in ["m", "b", "z", "b", "a", "m"] {
        insert_sorted_unique(&mut v, w.to_string());
    }
    assert_eq!(v, vec!["a", "b", "m", "z"]);
}

#[test]
fn numbers_are_written_in_decimal() {
    assert_eq!(fmt_i64(0), "0");
    assert_eq!(fmt_i64(-1), "-1");
    assert_eq!(fmt_i64(i64::MIN), i64::MIN.to_string());
    assert_eq!(fmt_i64(i64::MAX), i64::MAX.to_string());
    assert_eq!(fmt_u64(u64::MAX), u64::MAX.to_string());
    assert_eq!(fmt_usize(1234567), "1234567");
}

#[test]
fn ports_parse_as_u16_from_str() {
    for t in ["8787", "+80", "0", "65535", "65536", "", "+", "-1", " 80", "80a", "00080", "999999999999999999999"] {
        assert_eq!(parse_u16(t), t.parse::<u16>().ok(), "{t:?}");
    }
}

#[test]
fn integers_parse_as_i64() {
    assert_eq!(parse_i64("7"), Some(7));
    assert_eq!(parse_i64("-9223372036854775808"), Some(i64::MIN));
    assert_eq!(parse_i64("9223372036854775807"), Some(i64::MAX));
    assert_eq!(parse_i64("9223372036854775808"), None);
    assert_eq!(parse_i64("7.5"), None);
    assert_eq!(parse_i64("-"), None);
    assert_eq!(parse_i64(""), None);
}

#[test]
fn joining_takes_the_first_items() {
    let v = vec!["a".to_string(), "b".to_string(), "c".to_string()];
    assert_eq!(join_first(&v, 2, ", "), "a, b");
    assert_eq!(join_first(&v, 10, "-"), "a-b-c");
    assert_eq!(join_first(&v, 0, "-"), "");
}

#[test]
fn byte_length_is_counted_in_utf8() {
    assert!(utf8_len_exceeds("ação", 3));
    assert!(!utf8_len_exceeds("abc", 3));
    assert!(utf8_len_exceeds("é€", 3));
    assert!(!utf8_len_exceeds("éa", 3));
}
