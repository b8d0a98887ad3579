use pw_core::config::{AppConfig, IpLimitEntry, IpLimitsConfig};
use pw_core::ip::parse_ip;
use pw_core::limits::LimitsService;

fn create_test_config() -> AppConfig {
    AppConfig {
        listen: "0.0.0.0:8080".to_string(),
        log_level: "info".to_string(),
        log_target: "stdout".to_string(),
        message_max_length: 1024,
        file_upload_enabled: true,
        file_max_size: 10485760,
        encrypted_message_max_length: Some(15485760),
        redis_url: "redis://localhost".to_string(),
        ip_limits: None,
    }
}

fn create_test_config_with_limits() -> AppConfig {
    let mut config = create_test_config();
    config.ip_limits = Some(IpLimitsConfig {
        enabled: true,
        whitelist: vec![
            IpLimitEntry {
                ip: "192.168.1.100".to_string(),
                message_max_length: Some(8192),
                file_max_size: Some(104857600),
            },
            IpLimitEntry {
                ip: "10.0.0.0/8".to_string(),
                message_max_length: Some(4096),
                file_max_size: None,
            },
            IpLimitEntry {
                ip: "172.16.1.5".to_string(),
                message_max_length: None,
                file_max_size: Some(209715200),
            },
        ],
        trusted_proxies: vec![],
    });
    config
}

#[test]
fn test_disabled_ip_limits() {
    let config = create_test_config();
    let service = LimitsService::new(&config);

    let limits = service.get_limits_for_ip("192.168.1.100");
    assert_eq!(limits.message_max_length, 1024);
    assert_eq!(limits.file_max_size, 10485760);
    assert_eq!(limits.encrypted_message_max_length, 15485760);
}

#[test]
fn test_exact_ip_match() {
    let config = create_test_config_with_limits();
    let service = LimitsService::new(&config);

    let limits = service.get_limits_for_ip("192.168.1.100");
    assert_eq!(limits.message_max_length, 8192);
    assert_eq!(limits.file_max_size, 104857600);

    // The encrypted ceiling is derived from the matched rule's effective
    // values by the fixed 1.35 overhead factor.
    let expected_encrypted = 104857600 * 27 / 20;
    assert_eq!(limits.encrypted_message_max_length, expected_encrypted);
}

#[test]
fn test_cidr_match() {
    let config = create_test_config_with_limits();
    let service = LimitsService::new(&config);

    let limits = service.get_limits_for_ip("10.1.2.3");
    assert_eq!(limits.message_max_length, 4096);
    assert_eq!(limits.file_max_size, 10485760); // default

    let expected_encrypted = 10485760 * 27 / 20;
    assert_eq!(limits.encrypted_message_max_length, expected_encrypted);
}

#[test]
fn test_partial_override() {
    let config = create_test_config_with_limits();
    let service = LimitsService::new(&config);

    let limits = service.get_limits_for_ip("172.16.1.5");
    assert_eq!(limits.message_max_length, 1024); // default
    assert_eq!(limits.file_max_size, 209715200);
    assert_eq!(limits.encrypted_message_max_length, 209715200 * 27 / 20);
}

#[test]
fn test_no_match() {
    let config = create_test_config_with_limits();
    let service = LimitsService::new(&config);

    let limits = service.get_limits_for_ip("203.0.113.1");
    assert_eq!(limits.message_max_length, 1024);
    assert_eq!(limits.file_max_size, 10485760);
    assert_eq!(limits.encrypted_message_max_length, 15485760);
}

#[test]
fn test_invalid_ip() {
    let config = create_test_config_with_limits();
    let service = LimitsService::new(&config);

    let limits = service.get_limits_for_ip("invalid-ip");
    assert_eq!(limits.message_max_length, 1024);
    assert_eq!(limits.file_max_size, 10485760);
    assert_eq!(limits.encrypted_message_max_length, 15485760);
}

#[test]
fn test_ip_matching_edge_cases() {
    let config = create_test_config();
    let service = LimitsService::new(&config);

    // Test IPv6
    assert!(!service.matches_ip(&parse_ip("2001:db8::1").unwrap(), "192.168.1.0/24"));

    // Test CIDR boundary
    assert!(service.matches_ip(&parse_ip("192.168.1.1").unwrap(), "192.168.1.0/24"));
    assert!(!service.matches_ip(&parse_ip("192.168.2.1").unwrap(), "192.168.1.0/24"));

    // Test exact match
    assert!(service.matches_ip(&parse_ip("192.168.1.100").unwrap(), "192.168.1.100"));
    assert!(!service.matches_ip(&parse_ip("192.168.1.101").unwrap(), "192.168.1.100"));
}

#[test]
fn service_test_ipv6_addresses() {
    let config = create_test_config_with_limits();
    let service = LimitsService::new(&config);

    // IPv6 addresses should not match IPv4 rules
    let limits = service.get_limits_for_ip("2001:db8::1");
    assert_eq!(limits.message_max_length, 1024); // default
    assert_eq!(limits.file_max_size, 10485760); // default
}

#[test]
fn test_ipv6_cidr_matching() {
    let mut config = create_test_config();
    config.ip_limits = Some(IpLimitsConfig {
        enabled: true,
        whitelist: vec![IpLimitEntry {
            ip: "2001:db8::/32".to_string(),
            message_max_length: Some(16384),
            file_max_size: Some(209715200),
        }],
        trusted_proxies: vec![],
    });
    let service = LimitsService::new(&config);

    // Should match IPv6 CIDR
    let limits = service.get_limits_for_ip("2001:db8::1");
    assert_eq!(limits.message_max_length, 16384);
    assert_eq!(limits.file_max_size, 209715200);

    // Should not match different IPv6 network
    let limits = service.get_limits_for_ip("2001:db9::1");
    assert_eq!(limits.message_max_length, 1024); // default
}

#[test]
fn test_priority_of_matching_rules() {
    let mut config = create_test_config();
    config.ip_limits = Some(IpLimitsConfig {
        enabled: true,
        whitelist: vec![
            IpLimitEntry {
                ip: "192.168.0.0/16".to_string(),
                message_max_length: Some(2048),
                file_max_size: Some(52428800),
            },
            IpLimitEntry {
                ip: "192.168.1.100".to_string(),
                message_max_length: Some(8192),
                file_max_size: Some(104857600),
            },
        ],
        trusted_proxies: vec![],
    });
    let service = LimitsService::new(&config);

    // First match should win (broader rule comes first)
    let limits = service.get_limits_for_ip("192.168.1.100");
    assert_eq!(limits.message_max_length, 2048); // from /16 rule
    assert_eq!(limits.file_max_size, 52428800); // from /16 rule
}

#[test]
fn test_malformed_ip_addresses() {
    let config = create_test_config_with_limits();
    let service = LimitsService::new(&config);

    let test_cases = vec![
        "not.an.ip.address",
        "999.999.999.999",
        "192.168.1",
        "192.168.1.256",
        "",
        "   ",
        "192.168.1.1 extra",
        "::gggg::",
    ];

    for invalid_ip in test_cases {
        let limits = service.get_limits_for_ip(invalid_ip);
        assert_eq!(limits.message_max_length, 1024, "Failed for IP: {}", invalid_ip);
        assert_eq!(limits.file_max_size, 10485760, "Failed for IP: {}", invalid_ip);
        assert_eq!(
            limits.encrypted_message_max_length, 15485760,
            "Failed for IP: {}",
            invalid_ip
        );
    }
}

#[test]
fn test_boundary_cidr_matches() {
    let mut config = create_test_config();
    config.ip_limits = Some(IpLimitsConfig {
        enabled: true,
        whitelist: vec![IpLimitEntry {
            ip: "192.168.1.0/24".to_string(),
            message_max_length: Some(4096),
            file_max_size: Some(52428800),
        }],
        trusted_proxies: vec![],
    });
    let service = LimitsService::new(&config);

    // First IP in range
    let limits = service.get_limits_for_ip("192.168.1.0");
    assert_eq!(limits.message_max_length, 4096);

    // Last IP in range
    let limits = service.get_limits_for_ip("192.168.1.255");
    assert_eq!(limits.message_max_length, 4096);

    // Just outside range
    let limits = service.get_limits_for_ip("192.168.2.0");
    assert_eq!(limits.message_max_length, 1024); // default

    let limits = service.get_limits_for_ip("192.168.0.255");
    assert_eq!(limits.message_max_length, 1024); // default
}

#[test]
fn test_multiple_cidr_rules() {
    let mut config = create_test_config();
    config.ip_limits = Some(IpLimitsConfig {
        enabled: true,
        whitelist: vec![
            IpLimitEntry {
                ip: "10.0.0.0/8".to_string(),
                message_max_length: Some(2048),
                file_max_size: None,
            },
            IpLimitEntry {
                ip: "172.16.0.0/12".to_string(),
                message_max_length: Some(4096),
                file_max_size: Some(104857600),
            },
            IpLimitEntry {
                ip: "192.168.0.0/16".to_string(),
                message_max_length: None,
                file_max_size: Some(209715200),
            },
        ],
        trusted_proxies: vec![],
    });
    let service = LimitsService::new(&config);

    // Test each network
    let limits = service.get_limits_for_ip("10.1.2.3");
    assert_eq!(limits.message_max_length, 2048);
    assert_eq!(limits.file_max_size, 10485760); // default

    let limits = service.get_limits_for_ip("172.16.5.10");
    assert_eq!(limits.message_max_length, 4096);
    assert_eq!(limits.file_max_size, 104857600);

    let limits = service.get_limits_for_ip("192.168.10.20");
    assert_eq!(limits.message_max_length, 1024); // default
    assert_eq!(limits.file_max_size, 209715200);
}

#[test]
fn test_invalid_cidr_notation_in_config() {
    let mut config = create_test_config();
    config.ip_limits = Some(IpLimitsConfig {
        enabled: true,
        whitelist: vec![
            IpLimitEntry {
                ip: "192.168.1.0/33".to_string(), // Invalid CIDR - mask too high
                message_max_length: Some(8192),
                file_max_size: Some(104857600),
            },
            IpLimitEntry {
                ip: "not.a.cidr/24".to_string(), // Invalid CIDR - malformed IP
                message_max_length: Some(4096),
                file_max_size: Some(52428800),
            },
            IpLimitEntry {
                ip: "192.168.1.100".to_string(), // Valid exact IP
                message_max_length: Some(2048),
                file_max_size: Some(26214400),
            },
        ],
        trusted_proxies: vec![],
    });
    let service = LimitsService::new(&config);

    // Invalid CIDR rules should not match anything
    let limits = service.get_limits_for_ip("192.168.1.50");
    assert_eq!(limits.message_max_length, 1024); // default

    // Valid rule should still work
    let limits = service.get_limits_for_ip("192.168.1.100");
    assert_eq!(limits.message_max_length, 2048);
    assert_eq!(limits.file_max_size, 26214400);
}

#[test]
fn test_service_cloning() {
    let config = create_test_config_with_limits();
    let service = LimitsService::new(&config);
    let cloned_service = service.clone();

    // Both services should behave identically
    let limits1 = service.get_limits_for_ip("192.168.1.100");
    let limits2 = cloned_service.get_limits_for_ip("192.168.1.100");

    assert_eq!(limits1.message_max_length, limits2.message_max_length);
    assert_eq!(limits1.file_max_size, limits2.file_max_size);
    assert_eq!(
        limits1.encrypted_message_max_length,
        limits2.encrypted_message_max_length
    );
}

#[test]
fn test_empty_whitelist() {
    let mut config = create_test_config();
    config.ip_limits = Some(IpLimitsConfig {
        enabled: true,
        whitelist: vec![],
        trusted_proxies: vec![],
    });
    let service = LimitsService::new(&config);

    // Should return defaults for any IP
    let limits = service.get_limits_for_ip("192.168.1.100");
    assert_eq!(limits.message_max_length, 1024);
    assert_eq!(limits.file_max_size, 10485760);
    assert_eq!(limits.encrypted_message_max_length, 15485760);
}

#[test]
fn test_logging_behavior_disabled_ip_limits() {
    let config = create_test_config();
    let service = LimitsService::new(&config);

    let limits = service.get_limits_for_ip("192.168.1.100");
    assert_eq!(limits.message_max_length, 1024);
}

#[test]
fn test_logging_behavior_custom_limits_applied() {
    let config = create_test_config_with_limits();
    let service = LimitsService::new(&config);

    let limits = service.get_limits_for_ip("192.168.1.100");
    assert_eq!(limits.message_max_length, 8192);
    assert_eq!(limits.file_max_size, 104857600);
}

#[test]
fn test_logging_behavior_no_match() {
    let config = create_test_config_with_limits();
    let service = LimitsService::new(&config);

    let limits = service.get_limits_for_ip("203.0.113.1");
    assert_eq!(limits.message_max_length, 1024);
}

#[test]
fn test_logging_behavior_invalid_ip() {
    let config = create_test_config_with_limits();
    let service = LimitsService::new(&config);

    let limits = service.get_limits_for_ip("invalid-ip");
    assert_eq!(limits.message_max_length, 1024);
}

#[test]
fn whitelist_override_derives_encrypted_ceiling() {
    // Whitelist {ip: 192.168.1.100, messageMaxLength: 8192} over defaults
    // {messageMaxLength: 1024, fileMaxSize: 10485760}: message length comes
    // from the rule, file size from the defaults, and the encrypted ceiling
    // is max(8192, 10485760) grown by the 1.35 overhead factor.
    let mut config = create_test_config();
    config.encrypted_message_max_length = None;
    config.ip_limits = Some(IpLimitsConfig {
        enabled: true,
        whitelist: vec![IpLimitEntry {
            ip: "192.168.1.100".to_string(),
            message_max_length: Some(8192),
            file_max_size: None,
        }],
        trusted_proxies: vec![],
    });
    let service = LimitsService::new(&config);

    let limits = service.get_limits_for_ip("192.168.1.100");
    assert_eq!(limits.message_max_length, 8192);
    assert_eq!(limits.file_max_size, 10485760);
    assert_eq!(limits.encrypted_message_max_length, 10485760 * 27 / 20);
    assert_eq!(limits.encrypted_message_max_length, 14155776);
}

#[test]
fn undersized_encrypted_override_is_not_honored() {
    // A configured encrypted ceiling below the larger plain ceiling would
    // let the encrypted ceiling undercut the limits it is meant to cover;
    // such an override is ignored and the derivation applies.
    let mut config = create_test_config();
    config.encrypted_message_max_length = Some(5000);
    let service = LimitsService::new(&config);

    let limits = service.get_limits_for_ip("203.0.113.1");
    assert_eq!(limits.encrypted_message_max_length, 14155776);

    // An override at or above the larger plain ceiling is kept verbatim.
    config.encrypted_message_max_length = Some(10485760);
    let service = LimitsService::new(&config);
    let limits = service.get_limits_for_ip("203.0.113.1");
    assert_eq!(limits.encrypted_message_max_length, 10485760);
}

#[test]
fn encrypted_ceiling_dominates_plain_ceilings() {
    // Every resolution keeps the encrypted ceiling at least as large as
    // both plain ceilings, whichever rule matched.
    let config = create_test_config_with_limits();
    let service = LimitsService::new(&config);
    for ip in ["192.168.1.100", "10.1.2.3", "172.16.1.5", "203.0.113.1", "bad"] {
        let limits = service.get_limits_for_ip(ip);
        assert!(limits.encrypted_message_max_length >= limits.message_max_length as u64);
        assert!(limits.encrypted_message_max_length >= limits.file_max_size);
    }
}

#[test]
fn derived_default_encrypted_ceiling_without_override() {
    let mut config = create_test_config();
    config.encrypted_message_max_length = None;
    let service = LimitsService::new(&config);

    let limits = service.get_limits_for_ip("203.0.113.1");
    assert_eq!(limits.encrypted_message_max_length, 14155776);
}

#[test]
fn encrypted_limit_is_exact_ceiling() {
    // ceil(v * 27 / 20): an input not divisible by 20 rounds up.
    assert_eq!(LimitsService::calculate_encrypted_message_limit(0, 21), 29);
    assert_eq!(LimitsService::calculate_encrypted_message_limit(0, 20), 27);
    assert_eq!(LimitsService::calculate_encrypted_message_limit(1024, 0), 1383);
    assert_eq!(
        LimitsService::calculate_encrypted_message_limit(1024, 10485760),
        14155776
    );
    assert_eq!(
        LimitsService::calculate_encrypted_message_limit(u16::MAX, 0),
        (65535 * 27 + 19) / 20
    );
    // The derivation saturates rather than overflowing.
    assert_eq!(
        LimitsService::calculate_encrypted_message_limit(0, u64::MAX),
        u64::MAX
    );
}

#[test]
fn max_body_limit_covers_every_resolution() {
    let config = create_test_config_with_limits();
    let service = LimitsService::new(&config);
    let ceiling = service.compute_max_body_limit();

    for ip in [
        "192.168.1.100",
        "10.1.2.3",
        "172.16.1.5",
        "203.0.113.1",
        "2001:db8::1",
        "not-an-ip",
    ] {
        let limits = service.get_limits_for_ip(ip);
        assert!(
            limits.encrypted_message_max_length <= ceiling,
            "ceiling {} below resolution {} for {}",
            ceiling,
            limits.encrypted_message_max_length,
            ip
        );
    }
    // The largest rule here is the 172.16.1.5 entry's file size.
    assert_eq!(ceiling, 209715200 * 27 / 20);
}

#[test]
fn body_limit_as_usize_adds_margin() {
    let config = create_test_config();
    let service = LimitsService::new(&config);
    // Defaults only: the ceiling is the configured encrypted limit plus 5%.
    assert_eq!(service.compute_max_body_limit(), 15485760);
    assert_eq!(service.body_limit_as_usize(), (15485760 * 21 + 19) / 20);
}
