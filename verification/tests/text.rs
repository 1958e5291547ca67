use aicacia_db::errors::{CodecError, DatabaseError, RedbError};
use aicacia_db::numbers::{parse_i64, parse_u64, parse_usize};
use aicacia_db::text::{compare_str, contains_char, decimal_string, join, str_eq};

#[test]
fn integers_parse_like_str_parse() {
    for s in ["0", "42", "-42", "+7", "9223372036854775807", "-9223372036854775808", "", "-", "+", "1a", " 1", "9223372036854775808", "--1", "٣"] {
        assert_eq!(parse_i64(s), s.parse::<i64>().ok(), "{:?}", s);
    }
    for s in ["0", "18446744073709551615", "18446744073709551616", "-1", "+3", "", "x"] {
        assert_eq!(parse_u64(s), s.parse::<u64>().ok(), "{:?}", s);
        assert_eq!(parse_usize(s), s.parse::<usize>().ok(), "{:?}", s);
    }
}

#[test]
fn string_helpers() {
    assert_eq!(aicacia_db::text::concat("ab", "cd"), "abcd");
    assert!(str_eq("héllo", "héllo"));
    assert!(!str_eq("a", "ab"));
    assert!(contains_char("a.b", '.'));
    assert!(!contains_char("ab", '.'));
    assert_eq!(decimal_string(0), "0");
    assert_eq!(decimal_string(1234567890), "1234567890");
    assert_eq!(decimal_string(u64::MAX), u64::MAX.to_string());
    assert_eq!(join(&vec!["a".into(), "b".into(), "c".into()], "_"), "a_b_c");
    assert_eq!(join(&vec![], "_"), "");
}

#[test]
fn strings_compare_like_string_ord() {
    let words = ["", "a", "ab", "b", "Z", "é", "日本", "😀", "a\u{0}"];
    for a in words {
        for b in words {
            let expected = match a.cmp(b) {
                std::cmp::Ordering::Less => -1,
                std::cmp::Ordering::Equal => 0,
                std::cmp::Ordering::Greater => 1,
            };
            assert_eq!(compare_str(a, b), expected, "{:?} vs {:?}", a, b);
        }
    }
}

#[test]
fn error_texts() {
    assert_eq!(CodecError::custom("bad").message(), "Error: bad");
    assert_eq!(RedbError::custom("gone").message(), "Error: gone");
    assert_eq!(DatabaseError::Engine("x".into()).message(), "engine error: x");
    assert_eq!(DatabaseError::Other("y".into()).message(), "y");
}
