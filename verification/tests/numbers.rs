use ausha::numbers::{parse_digits, parse_unsigned};

fn chars(s: &str) -> Vec<char> {
    s.chars().collect()
}

#[test]
fn reads_like_str_parse() {
    assert_eq!(parse_unsigned("6996", u16::MAX as u64), Some(6996));
    assert_eq!(parse_unsigned("+7", u16::MAX as u64), Some(7));
    assert_eq!(parse_unsigned("65535", u16::MAX as u64), Some(65535));
    assert_eq!(parse_unsigned("65536", u16::MAX as u64), None);
    assert_eq!(parse_unsigned("", 10), None);
    assert_eq!(parse_unsigned("+", 10), None);
    assert_eq!(parse_unsigned("-1", 10), None);
    assert_eq!(parse_unsigned(" 1", 10), None);
    assert_eq!(parse_unsigned("18446744073709551615", u64::MAX), Some(u64::MAX));
    assert_eq!(parse_unsigned("18446744073709551616", u64::MAX), None);
    for s in ["0", "42", "+42", "007", "x", "4x"] {
        assert_eq!(parse_unsigned(s, u32::MAX as u64), s.parse::<u32>().ok().map(u64::from), "{s:?}");
    }
}

#[test]
fn reads_hex_in_either_case() {
    assert_eq!(parse_digits(&chars("DeadBeef"), 16, u64::MAX), Some(0xdead_beef));
    assert_eq!(parse_digits(&chars("g"), 16, u64::MAX), None);
    assert_eq!(parse_digits(&chars("z"), 36, u64::MAX), Some(35));
}
