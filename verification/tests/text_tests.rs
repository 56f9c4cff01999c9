use hq_monitor::text::{parse_u32, push_decimal, u32_text, ParseIntError};

#[test]
fn decimal_text_of_zero_and_extremes() {
    assert_eq!(u32_text(0), "0");
    assert_eq!(u32_text(7), "7");
    assert_eq!(u32_text(10), "10");
    assert_eq!(u32_text(2000), "2000");
    assert_eq!(u32_text(4294967295), "4294967295");
}

#[test]
fn push_decimal_appends() {
    let mut s = String::from("ID:");
    push_decimal(&mut s, 153005);
    assert_eq!(s, "ID:153005");
}

#[test]
fn parse_reads_digits() {
    assert_eq!(parse_u32(b"15"), Ok(15));
    assert_eq!(parse_u32(b"05"), Ok(5));
    assert_eq!(parse_u32(b"0"), Ok(0));
    assert_eq!(parse_u32(b"+42"), Ok(42));
    assert_eq!(parse_u32(b"4294967295"), Ok(4294967295));
}

#[test]
fn parse_empty_field() {
    assert_eq!(parse_u32(b""), Err(ParseIntError::Empty));
}

#[test]
fn parse_invalid_digits() {
    assert_eq!(parse_u32(b"+"), Err(ParseIntError::InvalidDigit));
    assert_eq!(parse_u32(b"-"), Err(ParseIntError::InvalidDigit));
    assert_eq!(parse_u32(b"-1"), Err(ParseIntError::InvalidDigit));
    assert_eq!(parse_u32(b"12a"), Err(ParseIntError::InvalidDigit));
    assert_eq!(parse_u32(b" 1"), Err(ParseIntError::InvalidDigit));
    assert_eq!(parse_u32(b"x99999999999"), Err(ParseIntError::InvalidDigit));
}

#[test]
fn parse_overflow() {
    assert_eq!(parse_u32(b"4294967296"), Err(ParseIntError::PosOverflow));
    assert_eq!(parse_u32(b"99999999999x"), Err(ParseIntError::PosOverflow));
}

#[test]
fn parse_agrees_with_std() {
    let cases: [&str; 12] = [
        "", "+", "-", "0", "+0", "007", "123", "4294967295", "4294967296", "1_0", "99999999999x",
        "x1",
    ];
    for c in cases.iter() {
        let ours = parse_u32(c.as_bytes());
        let theirs = c.parse::<u32>();
        assert_eq!(ours.is_ok(), theirs.is_ok(), "{}", c);
        if let (Ok(a), Ok(b)) = (ours, theirs) {
            assert_eq!(a, b);
        }
    }
}

#[test]
fn decimal_round_trip() {
    for n in [0u32, 1, 9, 10, 99, 100, 90000, 153005, 4294967295].iter() {
        let text = u32_text(*n);
        assert_eq!(parse_u32(text.as_bytes()), Ok(*n));
    }
}
