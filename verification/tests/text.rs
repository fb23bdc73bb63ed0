use udemy_dl::text::{parse_u64, u64_to_decimal, str_eq};

#[test]
fn parse_u64_accepts_what_str_parse_accepts() {
    assert_eq!(parse_u64("720"), Some(720));
    assert_eq!(parse_u64("+480"), Some(480));
    assert_eq!(parse_u64("0"), Some(0));
    assert_eq!(parse_u64("18446744073709551615"), Some(u64::MAX));
    assert_eq!(parse_u64("18446744073709551616"), None);
    assert_eq!(parse_u64(""), None);
    assert_eq!(parse_u64("+"), None);
    assert_eq!(parse_u64("-1"), None);
    assert_eq!(parse_u64("72a"), None);
    for s in ["720", "+480", "0", "", "+", "-1", "72a", "007", " 1"] {
        assert_eq!(parse_u64(s), s.parse::<u64>().ok());
    }
}

#[test]
fn decimal_rendering() {
    assert_eq!(u64_to_decimal(0), "0");
    assert_eq!(u64_to_decimal(720), "720");
    assert_eq!(u64_to_decimal(u64::MAX), u64::MAX.to_string());
    for n in [1u64, 9, 10, 99, 100, 123456789] {
        assert_eq!(parse_u64(u64_to_decimal(n).as_str()), Some(n));
    }
}

#[test]
fn string_equality() {
    assert!(str_eq("video/mp4", "video/mp4"));
    assert!(!str_eq("video/mp4", "video/mp"));
}
