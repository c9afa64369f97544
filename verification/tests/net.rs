use atlasip::net::{clean_targets, ip_to_ptr_name, is_hostname, is_ip, is_public_ip, parse_ip_str, IpAddr};
use atlasip::server::sanitize_listen_addr;

fn ip(s: &str) -> IpAddr {
    parse_ip_str(s).expect("valid address")
}

#[test]
fn test_private_rfc1918_is_not_public() {
    assert!(!is_public_ip(&ip("192.168.1.1")));
}

#[test]
fn test_public_ip_is_public() {
    assert!(is_public_ip(&ip("8.8.8.8")));
}

#[test]
fn test_loopback_is_not_public() {
    assert!(!is_public_ip(&ip("127.0.0.1")));
}

#[test]
fn test_multicast_is_not_public() {
    assert!(!is_public_ip(&ip("224.0.0.1")));
}

#[test]
fn test_documentation_block_is_not_public() {
    assert!(!is_public_ip(&ip("192.0.2.1")));
}

#[test]
fn test_10_block_is_not_public() {
    assert!(!is_public_ip(&ip("10.0.0.1")));
}

#[test]
fn test_172_16_block_is_not_public() {
    assert!(!is_public_ip(&ip("172.16.0.1")));
    assert!(!is_public_ip(&ip("172.31.255.255")));
    assert!(is_public_ip(&ip("172.32.0.0")));
}

#[test]
fn test_link_local_is_not_public() {
    assert!(!is_public_ip(&ip("169.254.0.1")));
}

#[test]
fn test_test_net2_is_not_public() {
    assert!(!is_public_ip(&ip("198.51.100.5")));
}

#[test]
fn test_test_net3_is_not_public() {
    assert!(!is_public_ip(&ip("203.0.113.10")));
}

#[test]
fn test_reserved_240_is_not_public() {
    assert!(!is_public_ip(&ip("240.0.0.1")));
}

#[test]
fn test_ipv6_public() {
    assert!(is_public_ip(&ip("2001:4860:4860::8888")));
}

#[test]
fn test_ipv6_loopback_is_not_public() {
    assert!(!is_public_ip(&ip("::1")));
}

#[test]
fn test_ipv6_link_local_is_not_public() {
    assert!(!is_public_ip(&ip("fe80::1")));
}

#[test]
fn ipv6_documentation_block_is_not_public() {
    assert!(!is_public_ip(&ip("2001:db8::1")));
    assert!(is_public_ip(&ip("2001:db7::1")));
}

#[test]
fn test_ipv6_unique_local_is_not_public() {
    assert!(!is_public_ip(&ip("fc00::1")));
}

#[test]
fn only_the_listed_ranges_are_filtered() {
    for a in ["255.255.255.255", "239.1.1.1", "ff02::1", "fe80::abcd", "fd12::1", "2001:db8::1", "2001:db8:ffff::"] {
        assert!(!is_public_ip(&ip(a)), "{a} must not be public");
    }
    // Ranges the filter does not list stay public.
    for a in ["0.0.0.0", "100.64.0.1", "192.0.0.1", "198.18.0.1", "::", "2001:db9::1", "fec0::1"] {
        assert!(is_public_ip(&ip(a)), "{a} must be public");
    }
}

#[test]
fn parse_ip_matches_std_forms() {
    assert!(matches!(parse_ip_str("1.2.3.4"), Some(IpAddr::V4([1, 2, 3, 4]))));
    assert!(matches!(parse_ip_str("::ffff:1.2.3.4"), Some(IpAddr::V6(_))));
    assert!(parse_ip_str("01.2.3.4").is_none());
    assert!(parse_ip_str("1.2.3").is_none());
    assert!(parse_ip_str("256.1.1.1").is_none());
    assert!(parse_ip_str("1:2:3:4:5:6:7:8:9").is_none());
    assert!(parse_ip_str("").is_none());
}

#[test]
fn test_clean_targets_dedup() {
    assert_eq!(clean_targets("8.8.8.8\n8.8.8.8\n1.1.1.1"), vec!["8.8.8.8", "1.1.1.1"]);
}

#[test]
fn test_clean_targets_comma_and_newline() {
    assert_eq!(clean_targets("8.8.8.8,1.1.1.1\nexample.com"), vec!["8.8.8.8", "1.1.1.1", "example.com"]);
}

#[test]
fn test_clean_targets_trim_blanks() {
    assert_eq!(clean_targets("  8.8.8.8  \n\n  \n1.1.1.1"), vec!["8.8.8.8", "1.1.1.1"]);
}

#[test]
fn test_clean_targets_skips_private_ip() {
    assert_eq!(clean_targets("8.8.8.8\n192.168.1.1\n1.1.1.1"), vec!["8.8.8.8", "1.1.1.1"]);
}

#[test]
fn test_clean_targets_keeps_hostname() {
    assert_eq!(clean_targets("example.com\nlocalhost"), vec!["example.com", "localhost"]);
}

#[test]
fn clean_targets_of_nothing() {
    assert!(clean_targets("").is_empty());
    assert!(clean_targets(",\n ,").is_empty());
}

#[test]
fn test_is_ip() {
    assert!(is_ip("8.8.8.8"));
    assert!(is_ip("2001:4860:4860::8888"));
    assert!(!is_ip("example.com"));
    assert!(!is_ip("not-an-ip"));
}

#[test]
fn test_is_hostname() {
    assert!(is_hostname("example.com"));
    assert!(!is_hostname("8.8.8.8"));
}

#[test]
fn test_ip_to_ptr_name_ipv4() {
    assert_eq!(ip_to_ptr_name("8.8.8.8").unwrap(), "8.8.8.8.in-addr.arpa");
    assert_eq!(ip_to_ptr_name("1.2.3.4").unwrap(), "4.3.2.1.in-addr.arpa");
}

#[test]
fn test_ip_to_ptr_name_ipv6() {
    let ptr = ip_to_ptr_name("2001:db8::1").unwrap();
    assert!(ptr.ends_with(".ip6.arpa"), "unexpected: {ptr}");
    assert_eq!(ptr, "1.0.0.0.0.0.0.0.0.0.0.0.0.0.0.0.0.0.0.0.0.0.0.0.8.b.d.0.1.0.0.2.ip6.arpa");
}

#[test]
fn test_ip_to_ptr_name_invalid() {
    assert!(ip_to_ptr_name("not-an-ip").is_none());
}

#[test]
fn listen_addr_is_kept_on_loopback() {
    assert_eq!(sanitize_listen_addr("127.0.0.1:9000"), "127.0.0.1:9000");
    assert_eq!(sanitize_listen_addr("127.1.2.3:80"), "127.1.2.3:80");
    assert_eq!(sanitize_listen_addr("::1:8080"), "::1:8080");
    assert_eq!(sanitize_listen_addr("0.0.0.0:9090"), "127.0.0.1:9090");
    assert_eq!(sanitize_listen_addr("example.com:1"), "127.0.0.1:1");
    assert_eq!(sanitize_listen_addr("no-port"), "127.0.0.1:8080");
}
