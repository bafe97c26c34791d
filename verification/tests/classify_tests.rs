use traceroute_vis::classify::is_local_ip;
use traceroute_vis::classify::parse_dotted_quad;

#[test]
fn parses_a_plain_quad() {
    assert_eq!(parse_dotted_quad("192.168.1.1"), Some((192, 168, 1, 1)));
    assert_eq!(parse_dotted_quad("8.8.8.8"), Some((8, 8, 8, 8)));
    assert_eq!(parse_dotted_quad("0.0.0.0"), Some((0, 0, 0, 0)));
    assert_eq!(parse_dotted_quad("255.255.255.255"), Some((255, 255, 255, 255)));
}

#[test]
fn rejects_malformed_quads() {
    assert_eq!(parse_dotted_quad(""), None);
    assert_eq!(parse_dotted_quad("1.2.3"), None);
    assert_eq!(parse_dotted_quad("1.2.3.4.5"), None);
    assert_eq!(parse_dotted_quad("1..3.4"), None);
    assert_eq!(parse_dotted_quad("256.0.0.1"), None);
    assert_eq!(parse_dotted_quad("01.2.3.4"), None);
    assert_eq!(parse_dotted_quad("a.b.c.d"), None);
    assert_eq!(parse_dotted_quad("1.2.3.4 "), None);
    assert_eq!(parse_dotted_quad("not-an-address"), None);
}

#[test]
fn ten_slash_eight_is_local() {
    assert!(is_local_ip("10.0.0.0"));
    assert!(is_local_ip("10.0.0.99"));
    assert!(is_local_ip("10.255.255.255"));
    assert!(!is_local_ip("9.255.255.255"));
    assert!(!is_local_ip("11.0.0.0"));
}

#[test]
fn one_seven_two_slash_twelve_is_local() {
    assert!(is_local_ip("172.16.0.0"));
    assert!(is_local_ip("172.20.1.2"));
    assert!(is_local_ip("172.31.255.255"));
    assert!(!is_local_ip("172.15.255.255"));
    assert!(!is_local_ip("172.32.0.0"));
}

#[test]
fn one_nine_two_slash_sixteen_is_local() {
    assert!(is_local_ip("192.168.0.0"));
    assert!(is_local_ip("192.168.1.1"));
    assert!(is_local_ip("192.168.255.255"));
    assert!(!is_local_ip("192.167.255.255"));
    assert!(!is_local_ip("192.169.0.0"));
}

#[test]
fn loopback_is_local() {
    assert!(is_local_ip("127.0.0.0"));
    assert!(is_local_ip("127.0.0.1"));
    assert!(is_local_ip("127.255.255.255"));
    assert!(!is_local_ip("126.255.255.255"));
    assert!(!is_local_ip("128.0.0.0"));
}

#[test]
fn link_local_is_local() {
    assert!(is_local_ip("169.254.0.0"));
    assert!(is_local_ip("169.254.13.37"));
    assert!(is_local_ip("169.254.255.255"));
    assert!(!is_local_ip("169.253.255.255"));
    assert!(!is_local_ip("169.255.0.0"));
}

#[test]
fn carrier_grade_nat_is_local() {
    assert!(is_local_ip("100.64.0.0"));
    assert!(is_local_ip("100.100.100.100"));
    assert!(is_local_ip("100.127.255.255"));
    assert!(!is_local_ip("100.63.255.255"));
    assert!(!is_local_ip("100.128.0.0"));
}

#[test]
fn multicast_and_above_is_local() {
    assert!(is_local_ip("224.0.0.0"));
    assert!(is_local_ip("239.255.255.255"));
    assert!(is_local_ip("240.0.0.0"));
    assert!(is_local_ip("255.255.255.255"));
    assert!(!is_local_ip("223.255.255.255"));
}

#[test]
fn zero_address_is_local() {
    assert!(is_local_ip("0.0.0.0"));
}

#[test]
fn malformed_counts_as_local() {
    assert!(is_local_ip(""));
    assert!(is_local_ip("*"));
    assert!(is_local_ip("not-an-address"));
    assert!(is_local_ip("10.0.0"));
    assert!(is_local_ip("300.1.2.3"));
}

#[test]
fn public_addresses_are_not_local() {
    assert!(!is_local_ip("8.8.8.8"));
    assert!(!is_local_ip("93.184.216.34"));
    assert!(!is_local_ip("1.1.1.1"));
}
