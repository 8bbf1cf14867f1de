use rule_literals::error::ErrorKind;

#[test]
fn integer_round_trip_samples() {
    for n in [0u32, 1, 9, 10, 42, 100, 65535, 604800, 4294967294, 4294967295] {
        let text = n.to_string();
        assert_eq!(Ok((text.len(), n)), rule_literals::integer(text.as_bytes(), 0));
    }
}

#[test]
fn remainder_parses_independently() {
    let buf = b"42%true rest";
    let (end, v) = rule_literals::percentage::percentage(buf, 0).unwrap();
    assert_eq!((3, 42), (end, v));

    // Feeding the unconsumed remainder back in parses as if fresh.
    let from_remainder = rule_literals::boolean(&buf[end..], 0).unwrap();
    let in_place = rule_literals::boolean(buf, end).unwrap();
    assert_eq!(from_remainder.1, in_place.1);
    assert_eq!(from_remainder.0, in_place.0 - end);
}

#[test]
fn exhausted_input_fails_cleanly() {
    let buf = b"7";
    let (end, v) = rule_literals::integer(buf, 0).unwrap();
    assert_eq!((1, 7), (end, v));

    let err = rule_literals::integer(buf, end).unwrap_err();
    assert_eq!(ErrorKind::NoMatch, err.kind);
    assert_eq!(1, err.pos);
}

#[test]
fn parsers_leave_trailing_input_alone() {
    // Parsers are non-greedy about unrelated trailing characters.
    assert_eq!(Ok((4, true)), rule_literals::boolean(b"true;", 0));
    assert_eq!(Ok((4, 100)), rule_literals::percentage::percentage(b"100%abc", 0));
    let (end, d) = rule_literals::duration::duration(b"90 more", 0).unwrap();
    assert_eq!(2, end);
    assert_eq!(90, d.duration());
}
