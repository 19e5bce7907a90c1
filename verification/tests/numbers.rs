use fts_bench::numbers::{decimal_string, hex_string, parse_usize, IntErrorKind};

fn parse(s: &str) -> Result<usize, IntErrorKind> {
    let v: Vec<char> = s.chars().collect();
    parse_usize(&v, 0, v.len())
}

#[test]
fn decimal_text() {
    assert_eq!(decimal_string(0), "0");
    assert_eq!(decimal_string(7), "7");
    assert_eq!(decimal_string(10), "10");
    assert_eq!(decimal_string(1234567890), "1234567890");
    assert_eq!(decimal_string(u64::MAX), u64::MAX.to_string());
}

#[test]
fn hex_text() {
    assert_eq!(hex_string(255, 8), "000000ff");
    assert_eq!(hex_string(0xdead_beef, 8), "deadbeef");
    assert_eq!(hex_string(0, 2), "00");
    assert_eq!(hex_string(0xabc, 0), "");
}

#[test]
fn parse_accepts_what_std_accepts() {
    for s in ["0", "42", "+42", "007", "18446744073709551615"] {
        assert_eq!(parse(s).ok(), s.parse::<usize>().ok(), "{s}");
    }
}

#[test]
fn parse_errors() {
    assert_eq!(parse(""), Err(IntErrorKind::Empty));
    assert_eq!(parse("+"), Err(IntErrorKind::InvalidDigit));
    assert_eq!(parse("1 2"), Err(IntErrorKind::InvalidDigit));
    assert_eq!(parse(" 1"), Err(IntErrorKind::InvalidDigit));
    assert_eq!(parse("99999999999999999999999"), Err(IntErrorKind::PosOverflow));
}

#[test]
fn parse_of_a_range() {
    let v: Vec<char> = "x123y".chars().collect();
    assert_eq!(parse_usize(&v, 1, 4), Ok(123));
    assert_eq!(parse_usize(&v, 2, 2), Err(IntErrorKind::Empty));
}

#[test]
fn decimal_text_parses_back() {
    for n in [0usize, 1, 9, 10, 99, 100, 65535, usize::MAX] {
        assert_eq!(parse(&decimal_string(n as u64)), Ok(n));
    }
}

#[test]
fn messages_match_std() {
    assert_eq!(IntErrorKind::Empty.message(), "".parse::<usize>().unwrap_err().to_string());
    assert_eq!(IntErrorKind::InvalidDigit.message(), "x".parse::<usize>().unwrap_err().to_string());
    assert_eq!(
        IntErrorKind::PosOverflow.message(),
        "99999999999999999999999".parse::<usize>().unwrap_err().to_string()
    );
}
