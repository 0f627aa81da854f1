use accursed_unutterable_type_id::store::{format_counter, parse_counter, reserve_from_text};
use accursed_unutterable_type_id::AllocError;

#[test]
fn parse_plain_number() {
    assert_eq!(parse_counter(b"42"), 42);
    assert_eq!(parse_counter(b"0"), 0);
    assert_eq!(parse_counter(b"007"), 7);
    assert_eq!(parse_counter(b"18446744073709551615"), u64::MAX);
}

#[test]
fn parse_trims_whitespace() {
    assert_eq!(parse_counter(b"  12  "), 12);
    assert_eq!(parse_counter(b"\t7\n"), 7);
    assert_eq!(parse_counter(b"\r\n99\r\n"), 99);
}

#[test]
fn parse_accepts_leading_plus() {
    assert_eq!(parse_counter(b"+7"), 7);
    assert_eq!(parse_counter(b" +0 "), 0);
}

#[test]
fn parse_corrupt_text_reads_as_zero() {
    assert_eq!(parse_counter(b"hello"), 0);
    assert_eq!(parse_counter(b""), 0);
    assert_eq!(parse_counter(b"   "), 0);
    assert_eq!(parse_counter(b"+"), 0);
    assert_eq!(parse_counter(b"12x"), 0);
    assert_eq!(parse_counter(b"x12"), 0);
    assert_eq!(parse_counter(b"1 2"), 0);
    assert_eq!(parse_counter(b"-3"), 0);
    assert_eq!(parse_counter(b"12.5"), 0);
}

#[test]
fn parse_out_of_range_reads_as_zero() {
    // one past u64::MAX
    assert_eq!(parse_counter(b"18446744073709551616"), 0);
    assert_eq!(parse_counter(b"99999999999999999999999"), 0);
}

#[test]
fn format_decimal_text() {
    assert_eq!(format_counter(0), b"0".to_vec());
    assert_eq!(format_counter(7), b"7".to_vec());
    assert_eq!(format_counter(12345), b"12345".to_vec());
    assert_eq!(format_counter(u64::MAX), b"18446744073709551615".to_vec());
}

#[test]
fn format_then_parse_round_trips() {
    for v in [0u64, 1, 9, 10, 11, 99, 100, 4096, u64::MAX - 1, u64::MAX] {
        assert_eq!(parse_counter(&format_counter(v)), v);
    }
}

#[test]
fn reserve_increments_and_persists() {
    let r = reserve_from_text(b"41").unwrap();
    assert_eq!(r.base, 42);
    assert_eq!(r.stored_text, b"42".to_vec());
}

#[test]
fn reserve_from_absent_file_starts_at_one() {
    // an absent counter file is read as empty text
    let r = reserve_from_text(b"").unwrap();
    assert_eq!(r.base, 1);
    assert_eq!(r.stored_text, b"1".to_vec());
}

#[test]
fn reserve_recovers_from_corrupt_text() {
    // corrupt content counts as zero, so the next base is one
    let r = reserve_from_text(b"not a number").unwrap();
    assert_eq!(r.base, 1);
    assert_eq!(r.stored_text, b"1".to_vec());
}

#[test]
fn reserve_fails_on_exhausted_counter() {
    let r = reserve_from_text(b"18446744073709551615");
    assert!(r.is_err());
    let e = r.unwrap_err();
    assert_eq!(e, AllocError::CounterOverflow);
    assert!(e.diagnostic().contains("clear the build directory"));
}

#[test]
fn sequential_reservations_increase_by_one() {
    // each invocation reads what the previous one wrote
    let mut text = b"".to_vec();
    let mut bases = Vec::new();
    for _ in 0..6 {
        let r = reserve_from_text(&text).unwrap();
        bases.push(r.base);
        text = r.stored_text;
    }
    assert_eq!(bases, vec![1, 2, 3, 4, 5, 6]);
}
