use search_devices::addr::{ipv4_to_string, parse_cidr, parse_ipv4, CidrBlock};
use search_devices::errors::ScanError;

#[test]
fn test_parse_ipv4_accepts_valid_addresses() {
    assert_eq!(parse_ipv4("192.168.0.1"), Some(0xC0A8_0001));
    assert_eq!(parse_ipv4("0.0.0.0"), Some(0));
    assert_eq!(parse_ipv4("255.255.255.255"), Some(0xFFFF_FFFF));
    assert_eq!(parse_ipv4("10.0.0.5"), Some(0x0A00_0005));
}

#[test]
fn test_parse_ipv4_rejects_malformed_addresses() {
    assert_eq!(parse_ipv4("not-an-ip"), None);
    assert_eq!(parse_ipv4(""), None);
    assert_eq!(parse_ipv4("1.2.3"), None);
    assert_eq!(parse_ipv4("1.2.3.4.5"), None);
    assert_eq!(parse_ipv4("256.1.1.1"), None);
    assert_eq!(parse_ipv4("1.2.3.04"), None);
    assert_eq!(parse_ipv4("1.2.3.4 "), None);
}

#[test]
fn test_ipv4_to_string_renders_dotted_decimal() {
    assert_eq!(ipv4_to_string(0xC0A8_0001), "192.168.0.1");
    assert_eq!(ipv4_to_string(0), "0.0.0.0");
    assert_eq!(ipv4_to_string(0xFFFF_FFFF), "255.255.255.255");
}

#[test]
fn test_parse_cidr_valid_block() {
    let b = parse_cidr("192.168.1.0/24").unwrap();
    assert_eq!(b.addr, 0xC0A8_0100);
    assert_eq!(b.prefix, 24);
    assert_eq!(ipv4_to_string(b.network()), "192.168.1.0");
    assert_eq!(ipv4_to_string(b.broadcast()), "192.168.1.255");
}

#[test]
fn test_parse_cidr_invalid_specs() {
    for bad in ["192.168.1.0", "192.168.1.0/33", "foo/24", "192.168.1.0/x", "", "/24"] {
        match parse_cidr(bad) {
            Err(ScanError::InvalidSpec(t)) => assert_eq!(t, bad),
            Ok(_) => panic!("accepted an invalid block"),
        }
    }
}

#[test]
fn test_host_addresses_exclude_network_and_broadcast() {
    let b = parse_cidr("10.0.0.0/29").unwrap();
    let hosts = b.host_addresses();
    // 8 addresses in the block, minus network and broadcast
    assert_eq!(hosts.len(), 6);
    assert_eq!(hosts[0], b.network() + 1);
    assert_eq!(hosts[5], b.broadcast() - 1);
    assert!(!hosts.contains(&b.network()));
    assert!(!hosts.contains(&b.broadcast()));
    for w in hosts.windows(2) {
        assert!(w[0] < w[1]);
    }
}

#[test]
fn test_host_addresses_of_host_bits_block() {
    // host bits in the address do not shift the enumerated range
    let b = parse_cidr("192.168.1.77/30").unwrap();
    let hosts = b.host_addresses();
    assert_eq!(hosts.len(), 2);
    assert_eq!(ipv4_to_string(hosts[0]), "192.168.1.77");
    assert_eq!(ipv4_to_string(hosts[1]), "192.168.1.78");
}

#[test]
fn test_host_addresses_of_tiny_blocks_are_empty() {
    let b31 = parse_cidr("10.0.0.0/31").unwrap();
    assert_eq!(b31.host_addresses().len(), 0);
    let b32 = parse_cidr("10.0.0.1/32").unwrap();
    assert_eq!(b32.host_addresses().len(), 0);
}

#[test]
fn test_host_addresses_of_full_byte_block() {
    let b = CidrBlock { addr: 0x0A00_0100, prefix: 24 };
    let hosts = b.host_addresses();
    assert_eq!(hosts.len(), 254);
    assert_eq!(ipv4_to_string(hosts[0]), "10.0.1.1");
    assert_eq!(ipv4_to_string(hosts[253]), "10.0.1.254");
}
