use talos::number::{i64_decimal, parse_i64, parse_u8};
use talos::text::{decimal, join, split, trim};

#[test]
fn integers_read_as_rust_reads_them() {
    assert_eq!(parse_i64("42"), Some(42));
    assert_eq!(parse_i64("-7"), Some(-7));
    assert_eq!(parse_i64("+7"), Some(7));
    assert_eq!(parse_i64("-"), None);
    assert_eq!(parse_i64(""), None);
    assert_eq!(parse_i64("1_000"), None);
    assert_eq!(parse_i64(" 1"), None);
    assert_eq!(parse_i64("9223372036854775807"), Some(i64::MAX));
    assert_eq!(parse_i64("9223372036854775808"), None);
    assert_eq!(parse_i64("-9223372036854775808"), Some(i64::MIN));
    assert_eq!(parse_i64("-9223372036854775809"), None);
    assert_eq!(parse_i64("00012"), Some(12));
    assert_eq!(parse_u8("255"), Some(255));
    assert_eq!(parse_u8("256"), None);
    assert_eq!(parse_u8("-0"), None);
    assert_eq!(parse_u8("+0"), Some(0));
    for s in ["0", "17", "-17", "+3", "x", "99999999999999999999", "-0"] {
        assert_eq!(parse_i64(s), s.parse::<i64>().ok(), "{s}");
        assert_eq!(parse_u8(s), s.parse::<u8>().ok(), "{s}");
    }
}

#[test]
fn integers_written_as_to_string_writes_them() {
    for i in [0i64, 7, -7, 10, 1234567890, i64::MAX, i64::MIN] {
        assert_eq!(i64_decimal(i), i.to_string());
        assert_eq!(parse_i64(&i64_decimal(i)), Some(i));
    }
    assert_eq!(decimal(u64::MAX), u64::MAX.to_string());
    assert_eq!(decimal(0), "0");
}

#[test]
fn splitting_and_trimming() {
    assert_eq!(split("a,,b", ','), vec!["a", "", "b"]);
    assert_eq!(split("", ','), vec![""]);
    assert_eq!(split(",", ','), vec!["", ""]);
    assert_eq!(trim("\t x y \n"), "x y");
    assert_eq!(join(&vec!["a".into(), "b".into()], ", "), "a, b");
}
