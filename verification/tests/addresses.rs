use rule_literals::error::ErrorKind;
use rule_literals::ipv4::{dot_and_octet, ipv4, Ipv4Addr};
use rule_literals::net_prefix::{net_prefix, net_prefix_no_short, net_prefix_short_1,
    net_prefix_short_2, net_prefix_short_3, prefix, u8_less_than_33, NetPrefix};

fn addr(o1: u8, o2: u8, o3: u8, o4: u8) -> Ipv4Addr {
    Ipv4Addr { o1, o2, o3, o4 }
}

fn make_net_prefix(o1: u8, o2: u8, o3: u8, o4: u8, prefix: u8) -> NetPrefix {
    if prefix > 32 {
        panic!("Prefix should be less than 33")
    }
    NetPrefix { prefix, address: addr(o1, o2, o3, o4) }
}

#[test]
fn test_ipv4() {
    assert_eq!(Ok((7, addr(0, 0, 0, 0))), ipv4(b"0.0.0.0", 0));
    assert_eq!(Ok((12, addr(172, 16, 64, 12))), ipv4(b"172.16.64.12", 0));
    assert_eq!(Ok((15, addr(255, 255, 255, 255))), ipv4(b"255.255.255.255", 0));

    assert!(ipv4(b"192.158.52,1", 0).is_err());
    assert!(ipv4(b"256.0.0.1", 0).is_err());
    assert!(ipv4(b"a.0.0.1", 0).is_err());
}

#[test]
fn test_dot_and_octet() {
    assert_eq!(Ok((2, 0)), dot_and_octet(b".0", 0));
    assert_eq!(Ok((4, 255)), dot_and_octet(b".255", 0));

    assert!(dot_and_octet(b".256", 0).is_err());
}

#[test]
fn test_u8_less_than_33() {
    assert_eq!(Ok((2, 0)), prefix(b"/0", 0));
    assert_eq!(Ok((2, 32)), u8_less_than_33(b"32", 0));
    assert!(u8_less_than_33(b"33", 0).is_err())
}

#[test]
fn test_net_prefix_short_1() {
    assert_eq!(Ok((6, make_net_prefix(127, 0, 0, 0, 24))), net_prefix_short_1(b"127/24", 0));
}

#[test]
fn test_net_prefix_short_2() {
    assert_eq!(Ok((8, make_net_prefix(127, 1, 0, 0, 24))), net_prefix_short_2(b"127.1/24", 0));
}

#[test]
fn test_net_prefix_short_3() {
    assert_eq!(Ok((10, make_net_prefix(127, 1, 1, 0, 24))), net_prefix_short_3(b"127.1.1/24", 0));
}

#[test]
fn test_net_prefix_no_short() {
    assert_eq!(
        Ok((12, make_net_prefix(127, 1, 1, 1, 24))),
        net_prefix_no_short(b"127.1.1.1/24", 0)
    );
}

#[test]
fn test_prefix() {
    assert_eq!(Ok((2, 0)), prefix(b"/0", 0));
    assert_eq!(Ok((3, 32)), prefix(b"/32", 0));
    assert!(prefix(b"/33", 0).is_err())
}

#[test]
fn test_net_prefix() {
    assert_eq!(Ok((6, make_net_prefix(127, 0, 0, 0, 24))), net_prefix(b"127/24", 0));
    assert_eq!(Ok((9, make_net_prefix(127, 16, 0, 0, 24))), net_prefix(b"127.16/24", 0));
    assert_eq!(Ok((12, make_net_prefix(127, 16, 64, 0, 24))), net_prefix(b"127.16.64/24", 0));
    assert_eq!(Ok((14, make_net_prefix(127, 16, 64, 1, 24))), net_prefix(b"127.16.64.1/24", 0));

    assert!(net_prefix(b"127.0.0.1", 0).is_err())
}

#[test]
fn ipv4_rejects_other_octet_counts() {
    assert!(ipv4(b"1.2.3", 0).is_err());
    assert!(ipv4(b"1.2.3.4.5", 0).is_err());
    // A trailing dot without a further octet is left unconsumed.
    assert_eq!(Ok((7, addr(1, 2, 3, 4))), ipv4(b"1.2.3.4.", 0));
}

#[test]
fn ipv4_overflow_octet_kind() {
    let err = ipv4(b"256.0.0.1", 0).unwrap_err();
    assert_eq!(ErrorKind::RangeOverflow, err.kind);
    assert_eq!(0, err.pos);
    let err = ipv4(b"1.2.3.256", 0).unwrap_err();
    assert_eq!(ErrorKind::RangeOverflow, err.kind);
    assert_eq!(6, err.pos);
}

#[test]
fn prefix_too_large_kind() {
    let err = prefix(b"/33", 0).unwrap_err();
    assert_eq!(ErrorKind::TooLarge, err.kind);
    assert_eq!(1, err.pos);
    assert!(net_prefix(b"127.0.0.1/33", 0).is_err());
    assert!(net_prefix(b"/33", 0).is_err());
}

#[test]
fn net_prefix_full_range_of_prefixes() {
    assert_eq!(Ok((3, make_net_prefix(0, 0, 0, 0, 0))), net_prefix(b"0/0", 0));
    assert_eq!(Ok((10, make_net_prefix(1, 2, 3, 4, 32))), net_prefix(b"1.2.3.4/32", 0));
}
