use fabric_tunnel::addr::{
    decode_base64, decode_key, extract_ipv4_addr, find_ipv4, key_from_decoded,
    parse_allowed_ips, parse_endpoint, parse_ipv4, Cidr, Endpoint, Ipv4, KeyError,
};

fn ip(a: u8, b: u8, c: u8, d: u8) -> Ipv4 {
    Ipv4 { a, b, c, d }
}

#[test]
fn extract_ipv4_finds_embedded_address() {
    assert_eq!(
        extract_ipv4_addr("10.0.0.5:51820 some text"),
        Some("10.0.0.5".to_string())
    );
}

#[test]
fn extract_ipv4_reports_absence() {
    assert_eq!(extract_ipv4_addr("no ip here"), None);
    assert_eq!(extract_ipv4_addr(""), None);
}

#[test]
fn extract_ipv4_skips_leading_text() {
    assert_eq!(
        extract_ipv4_addr("server at 192.168.1.254, port 1"),
        Some("192.168.1.254".to_string())
    );
}

#[test]
fn find_ipv4_gives_octets() {
    assert_eq!(find_ipv4("10.0.0.5:51820 some text"), Some(ip(10, 0, 0, 5)));
    assert_eq!(find_ipv4("nothing"), None);
}

#[test]
fn parse_ipv4_accepts_dotted_quads() {
    assert_eq!(parse_ipv4("10.0.0.5"), Some(ip(10, 0, 0, 5)));
    assert_eq!(parse_ipv4("255.255.255.255"), Some(ip(255, 255, 255, 255)));
    assert_eq!(parse_ipv4("0.0.0.0"), Some(ip(0, 0, 0, 0)));
}

#[test]
fn parse_ipv4_rejects_malformed_text() {
    assert_eq!(parse_ipv4(""), None);
    assert_eq!(parse_ipv4("1.2.3"), None);
    assert_eq!(parse_ipv4("1.2.3.4.5"), None);
    assert_eq!(parse_ipv4("256.0.0.1"), None);
    assert_eq!(parse_ipv4("01.0.0.1"), None);
    assert_eq!(parse_ipv4("1..2.3"), None);
    assert_eq!(parse_ipv4("a.b.c.d"), None);
    assert_eq!(parse_ipv4(" 1.2.3.4"), None);
    assert_eq!(parse_ipv4("1000.2.3.4"), None);
}

#[test]
fn parse_endpoint_reads_address_and_port() {
    assert_eq!(
        parse_endpoint("203.0.113.7:51820"),
        Some(Endpoint::V4 { ip: ip(203, 0, 113, 7), port: 51820 })
    );
    assert_eq!(
        parse_endpoint("1.2.3.4:65535"),
        Some(Endpoint::V4 { ip: ip(1, 2, 3, 4), port: 65535 })
    );
}

#[test]
fn parse_endpoint_rejects_bad_ports_and_hosts() {
    assert_eq!(parse_endpoint("1.2.3.4"), None);
    assert_eq!(parse_endpoint("1.2.3.4:"), None);
    assert_eq!(parse_endpoint("1.2.3.4:65536"), None);
    assert_eq!(parse_endpoint("1.2.3:80"), None);
    assert_eq!(parse_endpoint("1.2.3.4:8x"), None);
    assert_eq!(parse_endpoint("1.2.3.4:99999999999"), None);
}

#[test]
fn parse_endpoint_accepts_leading_zeros_in_port() {
    assert_eq!(
        parse_endpoint("1.2.3.4:000080"),
        Some(Endpoint::V4 { ip: ip(1, 2, 3, 4), port: 80 })
    );
    assert_eq!(
        parse_endpoint("1.2.3.4:0000000000065535"),
        Some(Endpoint::V4 { ip: ip(1, 2, 3, 4), port: 65535 })
    );
}

#[test]
fn parse_endpoint_reads_bracketed_ipv6() {
    let addr6: u128 = 0x2001_0db8_0000_0000_0000_0000_0000_0001;
    assert_eq!(
        parse_endpoint("[2001:db8::1]:51820"),
        Some(Endpoint::V6 { addr6, port: 51820 })
    );
    assert_eq!(parse_endpoint("[::1]:1"), Some(Endpoint::V6 { addr6: 1, port: 1 }));
    assert_eq!(parse_endpoint("[::ffff:1.2.3.4]:7").map(|_| ()), Some(()));
}

#[test]
fn parse_endpoint_rejects_malformed_ipv6() {
    assert_eq!(parse_endpoint("2001:db8::1:51820"), None);
    assert_eq!(parse_endpoint("[2001:db8::1]"), None);
    assert_eq!(parse_endpoint("[2001:db8::1]51820"), None);
    assert_eq!(parse_endpoint("[2001:db8::1:51820"), None);
    assert_eq!(parse_endpoint("[1.2.3.4]:80"), None);
    assert_eq!(parse_endpoint("[::/0]:80"), None);
    assert_eq!(parse_endpoint("[]:80"), None);
    assert_eq!(parse_endpoint("[::1]:65536"), None);
}

#[test]
fn decode_key_accepts_thirty_two_bytes() {
    let text = "AQIDBAUGBwgJCgsMDQ4PEBESExQVFhcYGRobHB0eHyA=";
    let key = decode_key(text).unwrap();
    assert_eq!(key, (1u8..=32).collect::<Vec<u8>>());
}

#[test]
fn decode_key_rejects_wrong_length() {
    assert_eq!(decode_key("AQID"), Err(KeyError::Length));
    assert_eq!(key_from_decoded(Some(vec![0u8; 31])), Err(KeyError::Length));
    assert_eq!(key_from_decoded(Some(vec![7u8; 32])), Ok(vec![7u8; 32]));
}

#[test]
fn decode_key_rejects_bad_base64() {
    assert_eq!(decode_key("not base64!"), Err(KeyError::Encoding));
    assert_eq!(key_from_decoded(None), Err(KeyError::Encoding));
}

#[test]
fn decode_base64_decodes() {
    assert_eq!(decode_base64("aGVsbG8="), Some(b"hello".to_vec()));
    assert_eq!(decode_base64("%%%"), None);
}

#[test]
fn parse_allowed_ips_reads_blocks() {
    let list = vec!["0.0.0.0/0".to_string(), "10.8.0.0/24".to_string(), "::/0".to_string()];
    let nets = parse_allowed_ips(&list).unwrap();
    assert_eq!(
        nets,
        vec![
            Cidr::V4 { addr: ip(0, 0, 0, 0), prefix: 0 },
            Cidr::V4 { addr: ip(10, 8, 0, 0), prefix: 24 },
            Cidr::V6 { addr6: 0, prefix: 0 },
        ]
    );
}

#[test]
fn parse_allowed_ips_reports_first_bad_entry() {
    let list = vec!["10.0.0.0/8".to_string(), "bogus".to_string(), "x".to_string()];
    assert_eq!(parse_allowed_ips(&list), Err(1));
    let list = vec!["10.0.0.0/33".to_string()];
    assert_eq!(parse_allowed_ips(&list), Err(0));
    assert_eq!(parse_allowed_ips(&Vec::new()), Ok(Vec::new()));
}
