use mlx_local_server::text::{
    byte_len_exec, concat3, decimal_string, parse_bool_str, parse_unsigned_str, replace_str,
    split_trim_str, str_byte_len, str_contains, trim_str,
};
use mlx_local_server::ids::{new_uuid_string, now_secs, prefixed_random_id, request_id};

#[test]
fn replace_is_left_to_right_and_non_overlapping() {
    assert_eq!(replace_str("aaaa", "aa", "b"), "bb");
    assert_eq!(replace_str("a--b--c", "--", "/"), "a/b/c");
    assert_eq!(replace_str("xyz", "q", "r"), "xyz");
}

#[test]
fn trim_removes_unicode_whitespace() {
    assert_eq!(trim_str("  hi \t\n"), "hi");
    assert_eq!(trim_str("\u{3000}x\u{00a0}"), "x");
    assert_eq!(trim_str("   "), "");
}

#[test]
fn split_trim_keeps_empty_pieces() {
    assert_eq!(split_trim_str(" a, b ,,c", ','), vec!["a", "b", "", "c"]);
    assert_eq!(split_trim_str("", ','), vec![""]);
}

#[test]
fn unsigned_parsing_matches_std() {
    assert_eq!(parse_unsigned_str("42", u64::MAX), Some(42));
    assert_eq!(parse_unsigned_str("+7", u64::MAX), Some(7));
    assert_eq!(parse_unsigned_str("", u64::MAX), None);
    assert_eq!(parse_unsigned_str("+", u64::MAX), None);
    assert_eq!(parse_unsigned_str("-1", u64::MAX), None);
    assert_eq!(parse_unsigned_str("65536", 65535), None);
    assert_eq!(parse_unsigned_str("65535", 65535), Some(65535));
    assert_eq!(parse_unsigned_str("18446744073709551615", u64::MAX), Some(u64::MAX));
    assert_eq!(parse_unsigned_str("18446744073709551616", u64::MAX), None);
    assert_eq!(parse_unsigned_str(" 1", u64::MAX), None);
}

#[test]
fn bool_parsing_is_exact() {
    assert_eq!(parse_bool_str("true"), Some(true));
    assert_eq!(parse_bool_str("false"), Some(false));
    assert_eq!(parse_bool_str("True"), None);
    assert_eq!(parse_bool_str("1"), None);
}

#[test]
fn decimal_round_trips_through_parsing() {
    for n in [0u64, 7, 10, 4096, 1234567890, u64::MAX] {
        let s = decimal_string(n);
        assert_eq!(s, n.to_string());
        assert_eq!(parse_unsigned_str(&s, u64::MAX), Some(n));
    }
}

#[test]
fn byte_lengths_count_utf8_bytes() {
    assert_eq!(str_byte_len("abc"), 3);
    assert_eq!(str_byte_len("é"), 2);
    assert_eq!(str_byte_len("日本"), 6);
    assert_eq!(byte_len_exec(&['a', 'é', '😀']), 7);
}

#[test]
fn contains_and_concat() {
    assert!(str_contains("hello world", "o w"));
    assert!(!str_contains("hello", "hello!"));
    assert!(str_contains("x", ""));
    assert_eq!(concat3("a", "b", "c"), "abc");
}

#[test]
fn uuid_text_has_the_hyphenated_shape() {
    let u = new_uuid_string();
    assert_eq!(u.len(), 36);
    for (i, c) in u.chars().enumerate() {
        if i == 8 || i == 13 || i == 18 || i == 23 {
            assert_eq!(c, '-');
        } else {
            assert!(c.is_ascii_hexdigit() && !c.is_ascii_uppercase());
        }
    }
    assert_ne!(new_uuid_string(), u);
}

#[test]
fn prefixed_ids_have_prefix_and_hex_digits() {
    let id = prefixed_random_id("batch_", 24);
    assert!(id.starts_with("batch_"));
    assert_eq!(id.len(), 30);
    assert!(id[6..].chars().all(|c| c.is_ascii_hexdigit() && !c.is_ascii_uppercase()));
    let full = prefixed_random_id("x", 32);
    assert_eq!(full.len(), 33);
}

#[test]
fn request_ids_keep_the_header() {
    assert_eq!(request_id(Some("abc".to_string())), "abc");
    assert_eq!(request_id(None).len(), 36);
}

#[test]
fn clock_reads_after_2020() {
    assert!(now_secs() > 1_577_836_800);
}
