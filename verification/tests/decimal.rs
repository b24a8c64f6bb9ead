use transaction_store::decimal::{append_u32, format_u32, parse_u32};

#[test]
fn parse_reads_plain_numbers() {
    assert_eq!(parse_u32("0"), Some(0));
    assert_eq!(parse_u32("7"), Some(7));
    assert_eq!(parse_u32("100"), Some(100));
    assert_eq!(parse_u32("105"), Some(105));
    assert_eq!(parse_u32("4294967295"), Some(u32::MAX));
}

#[test]
fn parse_takes_a_plus_sign_and_leading_zeros() {
    assert_eq!(parse_u32("+5"), Some(5));
    assert_eq!(parse_u32("007"), Some(7));
    assert_eq!(parse_u32("00000000000000000000042"), Some(42));
    assert_eq!(parse_u32("+0004294967295"), Some(u32::MAX));
}

#[test]
fn parse_refuses_what_is_no_number() {
    assert_eq!(parse_u32(""), None);
    assert_eq!(parse_u32("+"), None);
    assert_eq!(parse_u32("-"), None);
    assert_eq!(parse_u32("-5"), None);
    assert_eq!(parse_u32("++5"), None);
    assert_eq!(parse_u32("5+"), None);
    assert_eq!(parse_u32(" 5"), None);
    assert_eq!(parse_u32("5 "), None);
    assert_eq!(parse_u32("12a"), None);
    assert_eq!(parse_u32("0x10"), None);
    assert_eq!(parse_u32("1_000"), None);
    assert_eq!(parse_u32("1.0"), None);
    assert_eq!(parse_u32("٣"), None);
    assert_eq!(parse_u32("1é"), None);
}

#[test]
fn parse_refuses_what_does_not_fit() {
    assert_eq!(parse_u32("4294967296"), None);
    assert_eq!(parse_u32("99999999999"), None);
    assert_eq!(parse_u32("18446744073709551616"), None);
    assert_eq!(parse_u32("340282366920938463463374607431768211456"), None);
}

#[test]
fn parse_agrees_with_the_standard_parser() {
    let samples = [
        "", "0", "1", "9", "10", "099", "+1", "+", "-1", "1-", "42", "4294967295", "4294967296",
        "4294967300", "42949672950", "00004294967295", "+4294967295", "1 2", "١٢", "12\n", "\t3",
        "3e2", "0b1", "٠", "100", "105", "2147483648",
    ];
    for text in samples {
        assert_eq!(parse_u32(text), text.parse::<u32>().ok(), "text {text:?}");
    }
}

#[test]
fn format_writes_decimal_text() {
    assert_eq!(format_u32(0), "0");
    assert_eq!(format_u32(7), "7");
    assert_eq!(format_u32(10), "10");
    assert_eq!(format_u32(105), "105");
    assert_eq!(format_u32(1_000_000), "1000000");
    assert_eq!(format_u32(u32::MAX), "4294967295");
}

#[test]
fn format_agrees_with_the_standard_formatter() {
    let mut n: u32 = 1;
    for step in 0..200u32 {
        assert_eq!(format_u32(n), n.to_string());
        n = n.wrapping_mul(2_654_435_761).wrapping_add(step);
    }
}

#[test]
fn append_keeps_what_stands_before() {
    let mut out = String::from("ExpiredPending:");
    append_u32(&mut out, 90);
    assert_eq!(out, "ExpiredPending:90");
    append_u32(&mut out, 0);
    assert_eq!(out, "ExpiredPending:900");
}

#[test]
fn reading_back_what_was_written_gives_the_number() {
    let mut n: u32 = 0;
    for step in 0..500u32 {
        assert_eq!(parse_u32(&format_u32(n)), Some(n));
        n = n.wrapping_mul(1_103_515_245).wrapping_add(12_345 + step);
    }
    for n in [0, 1, 9, 10, 99, 100, 999_999_999, 1_000_000_000, u32::MAX - 1, u32::MAX] {
        assert_eq!(parse_u32(&format_u32(n)), Some(n));
    }
}
