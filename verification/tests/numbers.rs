use dex_tokens::decimal::{decimal_string, parse_u8, parse_usize};

#[test]
fn parse_usize_reads_digits_with_an_optional_plus() {
    assert_eq!(parse_usize(b"0"), Some(0));
    assert_eq!(parse_usize(b"42"), Some(42));
    assert_eq!(parse_usize(b"+7"), Some(7));
    assert_eq!(parse_usize(b"007"), Some(7));
}

#[test]
fn parse_usize_refuses_what_str_parse_refuses() {
    assert_eq!(parse_usize(b""), None);
    assert_eq!(parse_usize(b"+"), None);
    assert_eq!(parse_usize(b"-1"), None);
    assert_eq!(parse_usize(b"1a"), None);
    assert_eq!(parse_usize(b" 1"), None);
    assert_eq!(parse_usize(b"++1"), None);
    let too_big = format!("{}0", usize::MAX);
    assert_eq!(parse_usize(too_big.as_bytes()), None);
    let max = format!("{}", usize::MAX);
    assert_eq!(parse_usize(max.as_bytes()), Some(usize::MAX));
}

#[test]
fn parse_usize_agrees_with_std() {
    for s in ["", "+", "0", "+0", "12", "-3", "x", "99999999999999999999999", "+18"] {
        assert_eq!(parse_usize(s.as_bytes()), s.parse::<usize>().ok(), "{s}");
        assert_eq!(parse_u8(s.as_bytes()), s.parse::<u8>().ok(), "{s}");
    }
}

#[test]
fn parse_u8_stops_at_255() {
    assert_eq!(parse_u8(b"255"), Some(255));
    assert_eq!(parse_u8(b"256"), None);
    assert_eq!(parse_u8(b"1"), Some(1));
}

#[test]
fn decimal_string_writes_like_display() {
    for n in [0usize, 7, 10, 99, 100, 12345, usize::MAX] {
        assert_eq!(decimal_string(n), n.to_string());
    }
}

#[test]
fn decimal_text_reads_back() {
    for n in [0usize, 1, 9, 10, 255, 65536, usize::MAX] {
        assert_eq!(parse_usize(decimal_string(n).as_bytes()), Some(n));
    }
}
