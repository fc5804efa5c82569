//! Address and mask behaviour on concrete text: parsing, the textual
//! round trips, and mask matching.

use proxy_core::address::{Address, MaskAddress, NetLocation, NetLocationMask};

#[test]
fn parses_ipv4_location() {
    let l = NetLocation::from_str("127.0.0.1:8080", None).unwrap();
    assert!(matches!(l.address, Address::Ipv4(0x7f000001)));
    assert_eq!(l.port, 8080);
}

#[test]
fn parses_hostname_location_with_default_port() {
    let l = NetLocation::from_str("example.test", Some(443)).unwrap();
    match &l.address {
        Address::Hostname(h) => assert_eq!(h, "example.test"),
        _ => panic!("expected a hostname"),
    }
    assert_eq!(l.port, 443);
}

#[test]
fn hostname_without_port_or_default_is_rejected() {
    assert!(NetLocation::from_str("example.test", None).is_err());
}

#[test]
fn parses_bracketed_ipv6_location() {
    let l = NetLocation::from_str(
        "[0000:0000:0000:0000:0000:0000:0000:0001]:53",
        None,
    )
    .unwrap();
    assert!(matches!(l.address, Address::Ipv6(1)));
    assert_eq!(l.port, 53);
}

#[test]
fn rejects_malformed_locations() {
    assert!(NetLocation::from_str("", Some(1)).is_err());
    assert!(NetLocation::from_str("a:b:c", None).is_err());
    assert!(NetLocation::from_str("127.0.0.1:99999", None).is_err());
    assert!(NetLocation::from_str("bad host:80", None).is_err());
}

#[test]
fn ipv4_location_round_trips() {
    let l = NetLocation { address: Address::Ipv4(0xc0a80001), port: 1234 };
    let text = l.to_string();
    assert_eq!(text, "192.168.0.1:1234");
    let back = NetLocation::from_str(&text, None).unwrap();
    assert!(matches!(back.address, Address::Ipv4(0xc0a80001)));
    assert_eq!(back.port, 1234);
}

#[test]
fn ipv6_location_round_trips() {
    let value: u128 = 0x20010db8_00000000_00000000_00000042;
    let l = NetLocation { address: Address::Ipv6(value), port: 443 };
    let text = l.to_string();
    assert_eq!(text, "[2001:0db8:0000:0000:0000:0000:0000:0042]:443");
    let back = NetLocation::from_str(&text, None).unwrap();
    match back.address {
        Address::Ipv6(v) => assert_eq!(v, value),
        _ => panic!("expected an IPv6 address"),
    }
    assert_eq!(back.port, 443);
}

#[test]
fn unspecified_is_all_zero() {
    let l = NetLocation::unspecified();
    assert!(matches!(l.address, Address::Ipv4(0)));
    assert_eq!(l.port, 0);
    assert_eq!(l.to_string(), "0.0.0.0:0");
}

#[test]
fn parses_wildcard_mask() {
    let m = NetLocationMask::from("any").unwrap();
    assert_eq!(m, NetLocationMask::any());
}

#[test]
fn parses_cidr_mask_with_port() {
    let m = NetLocationMask::from("10.0.0.0/8:22").unwrap();
    assert!(matches!(m.address, MaskAddress::V4(0x0a000000, 8)));
    assert_eq!(m.port, 22);
}

#[test]
fn rejects_malformed_masks() {
    assert!(NetLocationMask::from("10.0.0.0").is_err());
    assert!(NetLocationMask::from("10.0.0.0/33").is_err());
    assert!(NetLocationMask::from("10.0.0.0/8:70000").is_err());
    assert!(NetLocationMask::from("").is_err());
}

#[test]
fn mask_round_trips_and_matching_is_stable() {
    let m = NetLocationMask::from("10.0.0.0/8:22").unwrap();
    let text = m.to_string();
    assert_eq!(text, "10.0.0.0/8:22");
    let again = NetLocationMask::from(&text).unwrap();
    assert_eq!(m, again);
    let inside = NetLocation { address: Address::Ipv4(0x0a010203), port: 22 };
    let outside = NetLocation { address: Address::Ipv4(0x0b010203), port: 22 };
    assert_eq!(m.matches(&inside), again.matches(&inside));
    assert_eq!(m.matches(&outside), again.matches(&outside));
}

#[test]
fn cidr_matching_checks_prefix_and_port() {
    let m = NetLocationMask::from("10.0.0.0/8").unwrap();
    assert!(m.matches(&NetLocation { address: Address::Ipv4(0x0a010203), port: 22 }));
    assert!(m.matches(&NetLocation { address: Address::Ipv4(0x0affffff), port: 80 }));
    assert!(!m.matches(&NetLocation { address: Address::Ipv4(0x0b000000), port: 22 }));
    let with_port = NetLocationMask::from("10.0.0.0/8:22").unwrap();
    assert!(with_port.matches(&NetLocation { address: Address::Ipv4(0x0a010203), port: 22 }));
    assert!(!with_port.matches(&NetLocation { address: Address::Ipv4(0x0a010203), port: 23 }));
}

#[test]
fn hostname_matches_only_the_wildcard() {
    let any = NetLocationMask::any();
    let cidr = NetLocationMask::from("10.0.0.0/8").unwrap();
    let host = NetLocation { address: Address::Hostname("example.test".to_owned()), port: 80 };
    assert!(any.matches(&host));
    assert!(!cidr.matches(&host));
}

#[test]
fn ipv6_mask_round_trips() {
    let m = NetLocationMask::from("[2001:0db8:0000:0000:0000:0000:0000:0000]/32").unwrap();
    assert!(matches!(m.address, MaskAddress::V6(_, 32)));
    assert_eq!(m.port, 0);
    let text = m.to_string();
    assert_eq!(text, "[2001:0db8:0000:0000:0000:0000:0000:0000]/32");
    assert_eq!(NetLocationMask::from(&text).unwrap(), m);
}

#[test]
fn hostname_location_round_trips() {
    let l = NetLocation { address: Address::Hostname("example.test".to_owned()), port: 80 };
    let text = l.to_string();
    assert_eq!(text, "example.test:80");
    let back = NetLocation::from_str(&text, None).unwrap();
    match back.address {
        Address::Hostname(h) => assert_eq!(h, "example.test"),
        _ => panic!("expected a hostname"),
    }
    assert_eq!(back.port, 80);
}
