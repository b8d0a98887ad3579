use pw_core::client_ip::{ClientIpExtractor, RequestHeaders};
use pw_core::config::{IpLimitEntry, IpLimitsConfig};
use pw_core::ip::IpAddress;

fn v4(a: u8, b: u8, c: u8, d: u8) -> IpAddress {
    IpAddress::from_v4_octets(a, b, c, d)
}

fn v6(g: [u16; 8]) -> IpAddress {
    IpAddress::from_v6_groups(g)
}

fn headers(forwarded_for: Option<&str>, real_ip: Option<&str>) -> RequestHeaders {
    RequestHeaders {
        x_forwarded_for: forwarded_for.map(|s| s.to_string()),
        x_real_ip: real_ip.map(|s| s.to_string()),
    }
}

fn no_headers() -> RequestHeaders {
    headers(None, None)
}

#[test]
fn test_extract_client_ip_from_connection() {
    let connection_ip = v4(192, 168, 1, 100);

    let result = ClientIpExtractor::extract_client_ip(&no_headers(), connection_ip, None);
    assert_eq!(result, connection_ip);
}

#[test]
fn test_extract_client_ip_from_x_forwarded_for() {
    let h = headers(Some("203.0.113.195, 198.51.100.178"), None);
    let connection_ip = v4(192, 168, 1, 100);

    let result = ClientIpExtractor::extract_client_ip(&h, connection_ip, None);
    assert_eq!(result, v4(203, 0, 113, 195));
}

#[test]
fn test_extract_client_ip_from_x_real_ip() {
    let h = headers(None, Some("203.0.113.195"));
    let connection_ip = v4(192, 168, 1, 100);

    let result = ClientIpExtractor::extract_client_ip(&h, connection_ip, None);
    assert_eq!(result, v4(203, 0, 113, 195));
}

#[test]
fn test_x_forwarded_for_takes_precedence_over_x_real_ip() {
    let h = headers(Some("203.0.113.195"), Some("198.51.100.178"));
    let connection_ip = v4(192, 168, 1, 100);

    let result = ClientIpExtractor::extract_client_ip(&h, connection_ip, None);
    assert_eq!(result, v4(203, 0, 113, 195));
}

#[test]
fn test_invalid_x_forwarded_for_falls_back_to_x_real_ip() {
    let h = headers(Some("invalid-ip"), Some("203.0.113.195"));
    let connection_ip = v4(192, 168, 1, 100);

    let result = ClientIpExtractor::extract_client_ip(&h, connection_ip, None);
    assert_eq!(result, v4(203, 0, 113, 195));
}

#[test]
fn test_invalid_headers_fall_back_to_connection_ip() {
    let h = headers(Some("invalid-ip"), Some("also-invalid"));
    let connection_ip = v4(192, 168, 1, 100);

    let result = ClientIpExtractor::extract_client_ip(&h, connection_ip, None);
    assert_eq!(result, connection_ip);
}

#[test]
fn test_ipv6_addresses() {
    let h = headers(Some("2001:db8::1"), None);
    let connection_ip = v6([0x2001, 0xdb8, 0, 0, 0, 0, 0, 0x2]);

    let result = ClientIpExtractor::extract_client_ip(&h, connection_ip, None);
    assert_eq!(result, v6([0x2001, 0xdb8, 0, 0, 0, 0, 0, 0x1]));
}

#[test]
fn test_parse_forwarded_for_multiple_ips() {
    let result = ClientIpExtractor::parse_forwarded_for("203.0.113.195, 198.51.100.178, 192.168.1.1");
    assert_eq!(result, Some(v4(203, 0, 113, 195)));
}

#[test]
fn test_parse_forwarded_for_single_ip() {
    let result = ClientIpExtractor::parse_forwarded_for("203.0.113.195");
    assert_eq!(result, Some(v4(203, 0, 113, 195)));
}

#[test]
fn test_parse_forwarded_for_with_whitespace() {
    let result = ClientIpExtractor::parse_forwarded_for("  203.0.113.195  , 198.51.100.178");
    assert_eq!(result, Some(v4(203, 0, 113, 195)));
}

#[test]
fn test_parse_forwarded_for_invalid_ip() {
    let result = ClientIpExtractor::parse_forwarded_for("invalid-ip, 198.51.100.178");
    assert_eq!(result, None);
}

#[test]
fn test_is_valid_ip_format() {
    assert!(ClientIpExtractor::is_valid_ip_format("192.168.1.1"));
    assert!(ClientIpExtractor::is_valid_ip_format("2001:db8::1"));
    assert!(ClientIpExtractor::is_valid_ip_format("::1"));
    assert!(ClientIpExtractor::is_valid_ip_format("127.0.0.1"));

    assert!(!ClientIpExtractor::is_valid_ip_format(""));
    assert!(!ClientIpExtractor::is_valid_ip_format("not-an-ip"));
    assert!(!ClientIpExtractor::is_valid_ip_format("999.999.999.999"));
    assert!(!ClientIpExtractor::is_valid_ip_format("192.168.1"));
    assert!(!ClientIpExtractor::is_valid_ip_format("a".repeat(46).as_str()));
}

#[test]
fn test_security_header_validation() {
    let h = headers(Some("0.0.0.0<script>alert('xss')</script>"), None);
    let connection_ip = v4(192, 168, 1, 100);

    let result = ClientIpExtractor::extract_client_ip(&h, connection_ip, None);
    assert_eq!(result, connection_ip);
}

#[test]
fn test_empty_header_values() {
    let h = headers(Some(""), Some(""));
    let connection_ip = v4(192, 168, 1, 100);

    let result = ClientIpExtractor::extract_client_ip(&h, connection_ip, None);
    assert_eq!(result, connection_ip);
}

#[test]
fn test_extremely_long_forwarded_for_header() {
    let long_header = format!("{}, 192.168.1.1", "1.1.1.1,".repeat(1000));
    let h = headers(Some(long_header.as_str()), None);
    let connection_ip = v4(192, 168, 1, 100);

    let result = ClientIpExtractor::extract_client_ip(&h, connection_ip, None);
    assert_eq!(result, v4(1, 1, 1, 1));
}

#[test]
fn test_forwarded_for_with_ports() {
    let h = headers(Some("203.0.113.195:8080, 198.51.100.178:9000"), None);
    let connection_ip = v4(192, 168, 1, 100);

    // Should fail to parse and fall back to connection IP
    let result = ClientIpExtractor::extract_client_ip(&h, connection_ip, None);
    assert_eq!(result, connection_ip);
}

#[test]
fn test_ipv6_in_headers() {
    let h = headers(Some("2001:db8::8a2e:370:0:7334"), None);
    let connection_ip = v6([0x2001, 0xdb8, 0, 0, 0, 0, 0, 0x1]);

    let result = ClientIpExtractor::extract_client_ip(&h, connection_ip, None);
    assert_eq!(result, v6([0x2001, 0xdb8, 0, 0, 0x8a2e, 0x370, 0, 0x7334]));
}

#[test]
fn test_mixed_ipv4_ipv6_in_forwarded_for() {
    let h = headers(Some("203.0.113.195, 2001:db8::1, 198.51.100.178"), None);
    let connection_ip = v4(192, 168, 1, 100);

    // Should pick the first valid IP
    let result = ClientIpExtractor::extract_client_ip(&h, connection_ip, None);
    assert_eq!(result, v4(203, 0, 113, 195));
}

#[test]
fn test_x_real_ip_with_ipv6() {
    let h = headers(None, Some("2001:db8::1"));
    let connection_ip = v4(192, 168, 1, 100);

    let result = ClientIpExtractor::extract_client_ip(&h, connection_ip, None);
    assert_eq!(result, v6([0x2001, 0xdb8, 0, 0, 0, 0, 0, 0x1]));
}

#[test]
fn test_forwarded_for_with_brackets_ipv6() {
    let h = headers(Some("[2001:db8::1]:8080"), None);
    let connection_ip = v4(192, 168, 1, 100);

    // Should fail to parse (includes port) and fall back
    let result = ClientIpExtractor::extract_client_ip(&h, connection_ip, None);
    assert_eq!(result, connection_ip);
}

#[test]
fn test_malicious_injection_attempts() {
    let malicious_payloads = vec![
        "192.168.1.1; DROP TABLE users;--",
        "../../../etc/passwd",
        "file:///etc/passwd",
        "192.168.1.1 extra_data",
    ];

    let connection_ip = v4(192, 168, 1, 100);

    for payload in malicious_payloads {
        let h = headers(Some(payload), None);
        let result = ClientIpExtractor::extract_client_ip(&h, connection_ip, None);
        assert_eq!(result, connection_ip, "Failed for payload: {}", payload);
    }
}

#[test]
fn test_header_with_control_characters() {
    let h = headers(Some("192.168.1.1\x01"), None);
    let connection_ip = v4(192, 168, 1, 100);

    let result = ClientIpExtractor::extract_client_ip(&h, connection_ip, None);
    assert_eq!(result, connection_ip);
}

#[test]
fn test_private_ip_addresses_in_headers() {
    let test_cases = vec![
        ("10.0.0.1", v4(10, 0, 0, 1)),
        ("172.16.0.1", v4(172, 16, 0, 1)),
        ("192.168.1.1", v4(192, 168, 1, 1)),
        ("127.0.0.1", v4(127, 0, 0, 1)),
        ("::1", v6([0, 0, 0, 0, 0, 0, 0, 1])),
        ("fc00::1", v6([0xfc00, 0, 0, 0, 0, 0, 0, 1])),
    ];

    let connection_ip = v4(203, 0, 113, 1);

    for (ip_str, expected_ip) in test_cases {
        let h = headers(Some(ip_str), None);
        let result = ClientIpExtractor::extract_client_ip(&h, connection_ip, None);
        assert_eq!(result, expected_ip, "Failed for IP: {}", ip_str);
    }
}

#[test]
fn test_is_valid_ip_format_comprehensive() {
    // Valid IPv4 addresses
    let valid_ipv4 = vec![
        "0.0.0.0",
        "127.0.0.1",
        "192.168.1.1",
        "255.255.255.255",
        "203.0.113.195",
    ];

    for ip in valid_ipv4 {
        assert!(ClientIpExtractor::is_valid_ip_format(ip), "Should be valid: {}", ip);
    }

    // Valid IPv6 addresses
    let valid_ipv6 = vec![
        "::1",
        "2001:db8::1",
        "2001:db8:85a3::8a2e:370:7334",
        "::ffff:192.0.2.1",
    ];

    for ip in valid_ipv6 {
        assert!(ClientIpExtractor::is_valid_ip_format(ip), "Should be valid: {}", ip);
    }

    // Invalid formats
    let invalid = vec![
        "",
        " ",
        "not-an-ip",
        "999.999.999.999",
        "192.168.1",
        "192.168.1.1.1",
        "192.168.1.256",
        "::gggg::",
        "2001:db8::1::2",   // Double ::
        "192.168.1.1:8080", // With port
        "[2001:db8::1]",    // With brackets
        "fe80::1%lo0",      // Zone identifier
    ];

    for ip in invalid {
        assert!(!ClientIpExtractor::is_valid_ip_format(ip), "Should be invalid: {}", ip);
    }
}

#[test]
fn test_performance_with_many_forwarded_ips() {
    let many_ips: Vec<String> = (1..=100).map(|i| format!("192.168.1.{}", i)).collect();
    let forwarded_header = many_ips.join(", ");
    let h = headers(Some(forwarded_header.as_str()), None);

    let connection_ip = v4(10, 0, 0, 1);

    let result = ClientIpExtractor::extract_client_ip(&h, connection_ip, None);
    assert_eq!(result, v4(192, 168, 1, 1)); // First IP
}

fn trust_config(trusted_proxies: Vec<&str>) -> IpLimitsConfig {
    IpLimitsConfig {
        enabled: true,
        whitelist: vec![],
        trusted_proxies: trusted_proxies.into_iter().map(|s| s.to_string()).collect(),
    }
}

#[test]
fn test_trusted_proxy_exact_match() {
    let h = headers(Some("203.0.113.195"), None);
    let connection_ip = v4(10, 0, 0, 1);
    let config = trust_config(vec!["10.0.0.1"]);

    let result = ClientIpExtractor::extract_client_ip(&h, connection_ip, Some(&config));
    // Should trust the proxy and use forwarded IP
    assert_eq!(result, v4(203, 0, 113, 195));
}

#[test]
fn test_trusted_proxy_cidr_match() {
    let h = headers(Some("203.0.113.195"), None);
    let connection_ip = v4(10, 0, 0, 50);
    let config = trust_config(vec!["10.0.0.0/8"]);

    let result = ClientIpExtractor::extract_client_ip(&h, connection_ip, Some(&config));
    // Should trust the proxy (in CIDR range) and use forwarded IP
    assert_eq!(result, v4(203, 0, 113, 195));
}

#[test]
fn test_untrusted_proxy_ignores_headers() {
    let h = headers(Some("203.0.113.195"), None);
    let connection_ip = v4(192, 168, 1, 100);
    let config = trust_config(vec!["10.0.0.1"]);

    let result = ClientIpExtractor::extract_client_ip(&h, connection_ip, Some(&config));
    // Should NOT trust proxy (different IP) and use connection IP
    assert_eq!(result, connection_ip);
}

#[test]
fn test_empty_trusted_proxies_secure_default() {
    let h = headers(Some("203.0.113.195"), None);
    let connection_ip = v4(192, 168, 1, 100);
    let config = trust_config(vec![]); // Empty = secure by default

    let result = ClientIpExtractor::extract_client_ip(&h, connection_ip, Some(&config));
    // Should NOT trust any proxy (secure by default) and use connection IP
    assert_eq!(result, connection_ip);
}

#[test]
fn test_disabled_ip_limits_trusts_headers() {
    let h = headers(Some("203.0.113.195"), None);
    let connection_ip = v4(192, 168, 1, 100);
    let config = IpLimitsConfig {
        enabled: false, // Disabled
        whitelist: vec![],
        trusted_proxies: vec![], // Even though empty, should trust because disabled
    };

    let result = ClientIpExtractor::extract_client_ip(&h, connection_ip, Some(&config));
    // Should trust headers because IP limits are disabled
    assert_eq!(result, v4(203, 0, 113, 195));
}

#[test]
fn test_no_ip_limits_config_trusts_headers() {
    let h = headers(Some("203.0.113.195"), None);
    let connection_ip = v4(192, 168, 1, 100);

    let result = ClientIpExtractor::extract_client_ip(&h, connection_ip, None);
    // Should trust headers (backward compatibility)
    assert_eq!(result, v4(203, 0, 113, 195));
}

#[test]
fn test_ipv6_trusted_proxy() {
    let h = headers(Some("203.0.113.195"), None);
    let connection_ip = v6([0x2001, 0xdb8, 0, 0, 0, 0, 0, 0x1]);
    let config = trust_config(vec!["2001:db8::1"]);

    let result = ClientIpExtractor::extract_client_ip(&h, connection_ip, Some(&config));
    // Should trust IPv6 proxy and use forwarded IP
    assert_eq!(result, v4(203, 0, 113, 195));
}

#[test]
fn test_trusted_proxy_ipv6_cidr() {
    let h = headers(Some("203.0.113.195"), None);
    let connection_ip = v6([0x2001, 0xdb8, 0, 0, 0, 0, 0, 0x100]);
    let config = trust_config(vec!["2001:db8::/32"]);

    let result = ClientIpExtractor::extract_client_ip(&h, connection_ip, Some(&config));
    // Should trust IPv6 proxy (in CIDR range) and use forwarded IP
    assert_eq!(result, v4(203, 0, 113, 195));
}

#[test]
fn test_trusted_proxy_mismatch() {
    let h = headers(Some("203.0.113.195"), None);
    let connection_ip = v4(172, 16, 0, 1);
    let config = trust_config(vec!["10.0.0.0/8", "192.168.0.0/16"]);

    let result = ClientIpExtractor::extract_client_ip(&h, connection_ip, Some(&config));
    // Should NOT trust proxy (not in any trusted range) and use connection IP
    assert_eq!(result, connection_ip);
}

#[test]
fn test_multiple_trusted_proxies() {
    let h = headers(Some("203.0.113.195"), None);
    let config = trust_config(vec!["10.0.0.1", "172.16.0.0/12", "192.168.1.100"]);

    // Test first trusted proxy
    let connection_ip = v4(10, 0, 0, 1);
    let result = ClientIpExtractor::extract_client_ip(&h, connection_ip, Some(&config));
    assert_eq!(result, v4(203, 0, 113, 195));

    // Test CIDR range
    let connection_ip = v4(172, 20, 0, 50);
    let result = ClientIpExtractor::extract_client_ip(&h, connection_ip, Some(&config));
    assert_eq!(result, v4(203, 0, 113, 195));

    // Test third trusted proxy
    let connection_ip = v4(192, 168, 1, 100);
    let result = ClientIpExtractor::extract_client_ip(&h, connection_ip, Some(&config));
    assert_eq!(result, v4(203, 0, 113, 195));

    // Test untrusted IP
    let connection_ip = v4(198, 51, 100, 1);
    let result = ClientIpExtractor::extract_client_ip(&h, connection_ip, Some(&config));
    assert_eq!(result, connection_ip); // Should use connection IP
}

#[test]
fn test_matches_ip_or_cidr() {
    // Exact IPv4 match
    let ip = v4(192, 168, 1, 100);
    assert!(ClientIpExtractor::matches_ip_or_cidr(&ip, "192.168.1.100"));
    assert!(!ClientIpExtractor::matches_ip_or_cidr(&ip, "192.168.1.101"));

    // IPv4 CIDR match
    assert!(ClientIpExtractor::matches_ip_or_cidr(&ip, "192.168.1.0/24"));
    assert!(ClientIpExtractor::matches_ip_or_cidr(&ip, "192.168.0.0/16"));
    assert!(!ClientIpExtractor::matches_ip_or_cidr(&ip, "10.0.0.0/8"));

    // Exact IPv6 match
    let ipv6 = v6([0x2001, 0xdb8, 0, 0, 0, 0, 0, 0x1]);
    assert!(ClientIpExtractor::matches_ip_or_cidr(&ipv6, "2001:db8::1"));
    assert!(!ClientIpExtractor::matches_ip_or_cidr(&ipv6, "2001:db8::2"));

    // IPv6 CIDR match
    assert!(ClientIpExtractor::matches_ip_or_cidr(&ipv6, "2001:db8::/32"));
    assert!(!ClientIpExtractor::matches_ip_or_cidr(&ipv6, "2001:db9::/32"));

    // Invalid patterns
    assert!(!ClientIpExtractor::matches_ip_or_cidr(&ip, "invalid"));
    assert!(!ClientIpExtractor::matches_ip_or_cidr(&ip, ""));
}

#[test]
fn test_trusted_proxy_with_x_real_ip() {
    let h = headers(None, Some("203.0.113.195"));
    let connection_ip = v4(10, 0, 0, 1);
    let config = trust_config(vec!["10.0.0.1"]);

    let result = ClientIpExtractor::extract_client_ip(&h, connection_ip, Some(&config));
    // Should trust proxy and use X-Real-IP
    assert_eq!(result, v4(203, 0, 113, 195));
}

#[test]
fn test_untrusted_proxy_ignores_x_real_ip() {
    let h = headers(None, Some("203.0.113.195"));
    let connection_ip = v4(192, 168, 1, 100);
    let config = trust_config(vec!["10.0.0.1"]);

    let result = ClientIpExtractor::extract_client_ip(&h, connection_ip, Some(&config));
    // Should NOT trust proxy and use connection IP
    assert_eq!(result, connection_ip);
}

#[test]
fn test_spoofing_attack_prevention() {
    // Simulate an attacker trying to spoof a whitelisted IP
    let h = headers(Some("192.168.1.100"), None); // Whitelisted IP
    let attacker_ip = v4(203, 0, 113, 50); // Attacker's real IP

    let config = IpLimitsConfig {
        enabled: true,
        whitelist: vec![IpLimitEntry {
            ip: "192.168.1.100".to_string(),
            message_max_length: Some(8192),
            file_max_size: Some(104857600),
        }],
        trusted_proxies: vec!["10.0.0.1".to_string()], // Only trust this proxy
    };

    let result = ClientIpExtractor::extract_client_ip(&h, attacker_ip, Some(&config));
    // Attack prevented: should use attacker's real IP, not the spoofed one
    assert_eq!(result, attacker_ip);
    assert_ne!(result, v4(192, 168, 1, 100));
}

#[test]
fn scenario_disabled_policy_trusts_forwarded_for() {
    // Policy disabled, X-Forwarded-For 203.0.113.5, connection 192.168.1.1:
    // the forwarded address wins.
    let h = headers(Some("203.0.113.5"), None);
    let config = IpLimitsConfig {
        enabled: false,
        whitelist: vec![],
        trusted_proxies: vec![],
    };
    let result = ClientIpExtractor::extract_client_ip(&h, v4(192, 168, 1, 1), Some(&config));
    assert_eq!(result, v4(203, 0, 113, 5));
}

#[test]
fn scenario_trusted_peer_takes_first_forwarded_token() {
    // Policy enabled with trusted proxy 10.0.0.1, connection 10.0.0.1,
    // X-Forwarded-For "203.0.113.5, 9.9.9.9": the first token wins.
    let h = headers(Some("203.0.113.5, 9.9.9.9"), None);
    let config = trust_config(vec!["10.0.0.1"]);
    let result = ClientIpExtractor::extract_client_ip(&h, v4(10, 0, 0, 1), Some(&config));
    assert_eq!(result, v4(203, 0, 113, 5));
}

#[test]
fn scenario_untrusted_peer_keeps_connection_address() {
    // Same policy, connection 172.16.0.5 (untrusted): headers are ignored.
    let h = headers(Some("203.0.113.5, 9.9.9.9"), None);
    let config = trust_config(vec!["10.0.0.1"]);
    let result = ClientIpExtractor::extract_client_ip(&h, v4(172, 16, 0, 5), Some(&config));
    assert_eq!(result, v4(172, 16, 0, 5));
}
