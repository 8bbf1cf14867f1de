use rule_literals::duration::common::number_and_char_no_case;
use rule_literals::duration::ttl_time_unix::{ttl_unit, TtlTimeUnix};
use rule_literals::duration::{duration, seconds};
use rule_literals::error::ErrorKind;
use rule_literals::integer::{MAX_INTEGER, MIN_INTEGER};

#[test]
fn test_number_and_char_no_case() {
    let min_upper = MIN_INTEGER.to_string() + "X";
    let min_lower = MIN_INTEGER.to_string() + "x";

    let max_upper = MAX_INTEGER.to_string() + "X";
    let max_lower = MAX_INTEGER.to_string() + "x";

    assert_eq!(
        Ok((min_upper.len(), MIN_INTEGER)),
        number_and_char_no_case(min_upper.as_bytes(), 0, b'X')
    );
    assert_eq!(
        Ok((min_lower.len(), MIN_INTEGER)),
        number_and_char_no_case(min_lower.as_bytes(), 0, b'x')
    );

    assert_eq!(
        Ok((max_upper.len(), MAX_INTEGER)),
        number_and_char_no_case(max_upper.as_bytes(), 0, b'X')
    );
    assert_eq!(
        Ok((max_lower.len(), MAX_INTEGER)),
        number_and_char_no_case(max_lower.as_bytes(), 0, b'x')
    );
}

#[test]
fn test_seconds() {
    let min_text = MIN_INTEGER.to_string();
    let max_text = MAX_INTEGER.to_string();
    assert_eq!(Ok((min_text.len(), MIN_INTEGER)), seconds(min_text.as_bytes(), 0));
    assert_eq!(Ok((max_text.len(), MAX_INTEGER)), seconds(max_text.as_bytes(), 0));

    assert!(seconds(b"4294967296", 0).is_err());
}

#[test]
fn test_ttl_unit() {
    let input = b"1w2d3h4m5s";
    let expected = TtlTimeUnix { weeks: 1, days: 2, hours: 3, minutes: 4, seconds: 5 };

    let result = ttl_unit(input, 0);
    match result {
        Ok((_, ttl)) => assert_eq!(ttl, expected),
        Err(_) => panic!("Error parsing input"),
    }
}

#[test]
fn ttl_unit_weighted_total() {
    let (end, ttl) = ttl_unit(b"1w2d3h4m5s", 0).unwrap();
    assert_eq!(10, end);
    assert_eq!(1 * 604800 + 2 * 86400 + 3 * 3600 + 4 * 60 + 5, ttl.duration());
    assert_eq!(788645, ttl.duration());
}

#[test]
fn ttl_unit_units_are_case_insensitive() {
    let (end, ttl) = ttl_unit(b"1W2D3H4M5S", 0).unwrap();
    assert_eq!(10, end);
    assert_eq!(788645, ttl.duration());
}

#[test]
fn ttl_unit_each_component_optional() {
    let (end, ttl) = ttl_unit(b"2d", 0).unwrap();
    assert_eq!(2, end);
    assert_eq!(2 * 86400, ttl.duration());

    let (end, ttl) = ttl_unit(b"1m", 0).unwrap();
    assert_eq!(2, end);
    assert_eq!(60, ttl.duration());
}

#[test]
fn ttl_unit_requires_a_component() {
    let err = ttl_unit(b"", 0).unwrap_err();
    assert_eq!(ErrorKind::IncompleteComposite, err.kind);
    assert_eq!(0, err.pos);

    let err = ttl_unit(b"abc", 0).unwrap_err();
    assert_eq!(ErrorKind::IncompleteComposite, err.kind);
}

#[test]
fn ttl_unit_fixed_order_only() {
    // Ascending weeks-to-seconds order parses wholly...
    let (end, ttl) = ttl_unit(b"2w1h", 0).unwrap();
    assert_eq!(4, end);
    assert_eq!(2 * 604800 + 3600, ttl.duration());
    // ...but a reordered spelling stops after the first component in order.
    let (end, ttl) = ttl_unit(b"1h2w", 0).unwrap();
    assert_eq!(2, end);
    assert_eq!(3600, ttl.duration());
}

#[test]
fn ttl_unit_zero_count_is_present() {
    // A written count of zero is a present component, so the compound form
    // accepts it and the total is zero.
    let (end, ttl) = ttl_unit(b"0s", 0).unwrap();
    assert_eq!(2, end);
    assert_eq!(0, ttl.duration());
    assert!(!ttl.has_time());
}

#[test]
fn ttl_unit_total_must_fit() {
    // 10000 weeks exceed the unsigned 32-bit second range.
    let err = ttl_unit(b"10000w", 0).unwrap_err();
    assert_eq!(ErrorKind::RangeOverflow, err.kind);
    let err = duration(b"10000w", 0).unwrap_err();
    assert_eq!(ErrorKind::RangeOverflow, err.kind);
}

#[test]
fn duration_equality_is_total_based() {
    // The same span written in different components compares equal.
    let (_, plain) = duration(b"60", 0).unwrap();
    let (_, compound) = duration(b"1m", 0).unwrap();
    assert_eq!(plain, compound);

    let (_, a) = duration(b"1w", 0).unwrap();
    let (_, b) = duration(b"7d", 0).unwrap();
    assert_eq!(a, b);
    assert_eq!(604800, a.duration());

    let (_, c) = duration(b"61", 0).unwrap();
    assert!(c != compound);
}

#[test]
fn duration_plain_and_compound_forms() {
    let (end, d) = duration(b"60", 0).unwrap();
    assert_eq!(2, end);
    assert_eq!(60, d.duration());

    let (end, d) = duration(b"1w2d3h4m5s", 0).unwrap();
    assert_eq!(10, end);
    assert_eq!(788645, d.duration());

    assert!(duration(b"x", 0).is_err());
}

#[test]
fn from_option_tuple_fills_absent_counts_with_zero() {
    let t = TtlTimeUnix::from_option_tuple((Some(1), None, Some(3), None, Some(5)));
    assert_eq!(1, t.weeks);
    assert_eq!(0, t.days);
    assert_eq!(3, t.hours);
    assert_eq!(0, t.minutes);
    assert_eq!(5, t.seconds);
    assert_eq!(604800 + 3 * 3600 + 5, t.duration());
    assert!(t.has_time());
}
