use aubo_rs::utils::{
    determine_request_type, normalize_url,
    extract_tld, format_duration_seconds, is_subdomain_of, matches_wildcard_pattern,
    wildcard_regex_source, MemoryUtils, NetworkUtils, StringUtils, TimeUtils, ValidationUtils,
};

#[test]
fn test_is_subdomain_of() {
    assert!(is_subdomain_of("sub.example.com", "example.com"));
    assert!(is_subdomain_of("example.com", "example.com"));
    assert!(!is_subdomain_of("example.com", "sub.example.com"));
}

#[test]
fn suffix_without_dot_is_no_subdomain() {
    assert!(!is_subdomain_of("badexample.com", "example.com"));
}

#[test]
fn test_memory_utils() {
    assert_eq!(MemoryUtils::format_bytes(1024), "1.00 KB");
    assert_eq!(MemoryUtils::format_bytes(1048576), "1.00 MB");
}

#[test]
fn format_bytes_units_and_rounding() {
    assert_eq!(MemoryUtils::format_bytes(0), "0 B");
    assert_eq!(MemoryUtils::format_bytes(1023), "1023 B");
    assert_eq!(MemoryUtils::format_bytes(1536), "1.50 KB");
    assert_eq!(MemoryUtils::format_bytes(1100), "1.07 KB");
    assert_eq!(MemoryUtils::format_bytes(5 * 1073741824), "5.00 GB");
    assert_eq!(MemoryUtils::format_bytes(3 * 1099511627776), "3.00 TB");
    assert_eq!(MemoryUtils::format_bytes(2048 * 1099511627776), "2048.00 TB");
    assert_eq!(MemoryUtils::format_bytes(u64::MAX), format!("{:.2} TB", u64::MAX as f64 / 1099511627776.0));
}

#[test]
fn duration_text_leaves_out_leading_zero_units() {
    assert_eq!(format_duration_seconds(0), "0s");
    assert_eq!(format_duration_seconds(59), "59s");
    assert_eq!(format_duration_seconds(61), "1m 1s");
    assert_eq!(format_duration_seconds(3600), "1h 0m 0s");
    assert_eq!(format_duration_seconds(90061), "1d 1h 1m 1s");
    assert_eq!(TimeUtils::duration_to_string(std::time::Duration::from_secs(3725)), "1h 2m 5s");
}

#[test]
fn clock_readings_are_after_the_epoch() {
    assert!(TimeUtils::now_seconds() > 1_600_000_000);
    assert!(TimeUtils::now_millis() > 1_600_000_000_000);
}

#[test]
fn tld_is_the_last_label() {
    assert_eq!(extract_tld("sub.example.com"), Some("com".to_string()));
    assert_eq!(extract_tld("localhost"), Some("localhost".to_string()));
    assert_eq!(extract_tld("example."), Some("".to_string()));
}

#[test]
fn contains_any_ignores_case() {
    assert!(StringUtils::contains_any("https://Example.com/ADS", &["ads"]));
    assert!(StringUtils::contains_any("tracker", &["x", "TRACK"]));
    assert!(!StringUtils::contains_any("clean", &["ads", "track"]));
    assert!(!StringUtils::contains_any("anything", &[]));
}

#[test]
fn truncate_keeps_short_text_and_cuts_long_text() {
    assert_eq!(StringUtils::truncate("hello", 5), "hello");
    assert_eq!(StringUtils::truncate("hello world", 8), "hello...");
    assert_eq!(StringUtils::truncate("hello", 2), "...");
}

#[test]
fn private_addresses_by_prefix() {
    assert!(NetworkUtils::is_private_ip("192.168.1.1"));
    assert!(NetworkUtils::is_private_ip("10.0.0.1"));
    assert!(NetworkUtils::is_private_ip("172.16.0.1"));
    assert!(NetworkUtils::is_private_ip("127.0.0.1"));
    assert!(NetworkUtils::is_private_ip("localhost"));
    assert!(!NetworkUtils::is_private_ip("8.8.8.8"));
    assert!(!NetworkUtils::is_private_ip("localhost2"));
}

#[test]
fn filter_rule_validation() {
    assert!(ValidationUtils::is_valid_filter_rule("||example.com^"));
    assert!(!ValidationUtils::is_valid_filter_rule("# comment"));
    assert!(!ValidationUtils::is_valid_filter_rule("   \t"));
    assert!(!ValidationUtils::is_valid_filter_rule(&"a".repeat(1001)));
    assert!(ValidationUtils::is_valid_filter_rule(&"a".repeat(1000)));
}

#[test]
fn wildcard_source_escapes_dots() {
    assert_eq!(wildcard_regex_source("*.ads.?"), r"^.*\.ads\..$");
    assert!(matches_wildcard_pattern("https://x.ads.com", "https://*.ads.com"));
    assert!(!matches_wildcard_pattern("https://x.adsxcom", "https://*.ads.com"));
    assert!(!matches_wildcard_pattern("a", "(*"));
}

#[test]
fn utils_test_extract_domain() {
    assert_eq!(aubo_rs::utils::extract_domain("https://example.com/path").unwrap(), "example.com");
    assert_eq!(aubo_rs::utils::extract_domain("http://sub.example.com").unwrap(), "sub.example.com");
}

#[test]
fn utils_extract_domain_errors() {
    match aubo_rs::utils::extract_domain("example.com") {
        Err(aubo_rs::error::AuboError::Url { input }) => assert_eq!(input, "example.com"),
        other => panic!("unexpected {:?}", other),
    }
    match aubo_rs::utils::extract_domain("mailto:a@b.c") {
        Err(aubo_rs::error::AuboError::Generic { message }) => {
            assert_eq!(message, "No host found in URL: mailto:a@b.c")
        }
        other => panic!("unexpected {:?}", other),
    }
}

#[test]
fn test_determine_request_type() {
    assert_eq!(determine_request_type("https://example.com/style.css", None), "stylesheet");
    assert_eq!(determine_request_type("https://example.com/script.js", None), "script");
    assert_eq!(determine_request_type("https://example.com/image.png", None), "image");
}

#[test]
fn request_type_from_content_type_first() {
    assert_eq!(determine_request_type("https://example.com/a.css", Some("Image/PNG")), "image");
    assert_eq!(determine_request_type("https://example.com/a", Some("audio/ogg")), "media");
    assert_eq!(determine_request_type("https://example.com/a", Some("application/javascript")), "script");
    assert_eq!(determine_request_type("https://example.com/a.WOFF2", Some("text/plain")), "font");
    assert_eq!(determine_request_type("https://example.com/feed.xml", None), "xmlhttprequest");
    assert_eq!(determine_request_type("https://example.com/", None), "other");
    assert_eq!(determine_request_type("not a url", None), "other");
}

#[test]
fn test_validation_utils() {
    assert!(ValidationUtils::is_valid_url("https://example.com"));
    assert!(ValidationUtils::is_valid_domain("example.com"));
    assert!(ValidationUtils::is_valid_filter_rule("||example.com^"));
    assert!(!ValidationUtils::is_valid_filter_rule("# comment"));
}

#[test]
fn invalid_urls_and_domains() {
    assert!(!ValidationUtils::is_valid_url("example.com"));
    assert!(!ValidationUtils::is_valid_domain(""));
    assert!(!ValidationUtils::is_valid_domain("-bad.com"));
    assert!(!ValidationUtils::is_valid_domain("a..b"));
    assert!(!ValidationUtils::is_valid_domain(&"a".repeat(254)));
}

#[test]
fn ports_and_https() {
    assert_eq!(NetworkUtils::extract_port("https://example.com:8443/x"), Some(8443));
    assert_eq!(NetworkUtils::extract_port("https://example.com/x"), None);
    assert_eq!(NetworkUtils::extract_port("nonsense"), None);
    assert!(NetworkUtils::is_https("https://example.com"));
    assert!(!NetworkUtils::is_https("http://example.com"));
}

#[test]
fn tracking_parameters_are_removed() {
    assert_eq!(
        StringUtils::clean_tracking_params("https://example.com/p?utm_source=x&id=5&fbclid=y").unwrap(),
        "https://example.com/p?id=5"
    );
    assert_eq!(
        StringUtils::clean_tracking_params("https://example.com/p?utm_source=x&gclid=1").unwrap(),
        "https://example.com/p"
    );
    assert_eq!(
        StringUtils::clean_tracking_params("https://example.com/p").unwrap(),
        "https://example.com/p"
    );
    assert!(StringUtils::clean_tracking_params("no url").is_err());
}

#[test]
fn urls_are_normalized() {
    assert_eq!(
        normalize_url("https://Example.com/Path?b=2&a=1#frag").unwrap(),
        "https://example.com/path?a=1&b=2"
    );
    assert_eq!(normalize_url("https://example.com/x#y").unwrap(), "https://example.com/x");
    assert!(normalize_url("nope").is_err());
}
