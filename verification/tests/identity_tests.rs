use collector_core::identity::{format_source_id, fresh_source_id, parse_source_id};

#[test]
fn parses_plain_decimal_text() {
    assert_eq!(parse_source_id(b"0"), Some(0));
    assert_eq!(parse_source_id(b"1234"), Some(1234));
    assert_eq!(
        parse_source_id(b"340282366920938463463374607431768211455"),
        Some(u128::MAX)
    );
}

#[test]
fn rejects_text_that_is_not_a_plain_decimal() {
    assert_eq!(parse_source_id(b""), None);
    assert_eq!(parse_source_id(b"12a3"), None);
    assert_eq!(parse_source_id(b"-5"), None);
    assert_eq!(parse_source_id(b" 12"), None);
}

#[test]
fn rejects_values_beyond_128_bits() {
    assert_eq!(parse_source_id(b"340282366920938463463374607431768211456"), None);
    assert_eq!(parse_source_id(b"999999999999999999999999999999999999999999"), None);
}

#[test]
fn formats_the_exact_decimal_text() {
    assert_eq!(format_source_id(0), b"0");
    assert_eq!(format_source_id(1234), b"1234");
    assert_eq!(
        format_source_id(u128::MAX),
        b"340282366920938463463374607431768211455"
    );
}

#[test]
fn identity_file_text_round_trips() {
    for id in [0u128, 9, 10, 1234, 1 << 64, u128::MAX] {
        let text = format_source_id(id);
        assert_eq!(parse_source_id(&text), Some(id));
    }
}

#[test]
fn fresh_identities_differ() {
    // Random 128-bit draws; two in a row colliding would mean the call is
    // not drawing at all.
    let a = fresh_source_id();
    let b = fresh_source_id();
    assert_ne!(a, b);
}
