use aubo_rs::engine::{extract_domain, FilterEngine};
use aubo_rs::filters::{parse_filter_content, ParsedRule};
use aubo_rs::config::FilterListType;

fn create_test_engine() -> FilterEngine {
    FilterEngine::new()
}

fn strings(v: &[&str]) -> Vec<String> {
    v.iter().map(|s| s.to_string()).collect()
}

#[test]
fn test_filter_engine_creation() {
    let engine = create_test_engine();
    assert!(engine.should_block("https://googleadservices.com/", "http", "test"));
    assert!(!engine.should_block("https://github.com/", "http", "test"));
}

#[test]
fn test_domain_blocking() {
    let engine = create_test_engine();

    assert!(engine.should_block("https://googleadservices.com/ads", "http", "test"));
    assert!(engine.should_block("https://doubleclick.net/track", "http", "test"));

    assert!(!engine.should_block("https://github.com/user/repo", "http", "test"));
    assert!(!engine.should_block("https://stackoverflow.com/questions", "http", "test"));
}

#[test]
fn test_pattern_blocking() {
    let engine = create_test_engine();

    assert!(engine.should_block("https://example.com/ads/banner.js", "http", "test"));
    assert!(engine.should_block("https://example.com/analytics.js", "http", "test"));
    assert!(engine.should_block("https://tracking.example.com", "http", "test"));

    assert!(!engine.should_block("https://example.com/content.js", "http", "test"));
    assert!(!engine.should_block("https://example.com/api/data", "http", "test"));
}

#[test]
fn test_whitelist_priority() {
    let engine = create_test_engine();
    assert!(!engine.should_block("https://github.com/ads/something", "http", "test"));
}

#[test]
fn engine_test_extract_domain() {
    assert_eq!(extract_domain("https://example.com/path"), Some("example.com".to_string()));
    assert_eq!(extract_domain("http://sub.example.com"), Some("sub.example.com".to_string()));
    assert_eq!(extract_domain("example.com"), Some("example.com".to_string()));
    assert_eq!(extract_domain("invalid://"), None);
}

#[test]
fn test_performance_blocking() {
    let engine = create_test_engine();
    let start = std::time::Instant::now();
    for i in 0..1000 {
        let url = format!("https://example{}.com/path", i);
        engine.should_block(&url, "http", "test");
    }
    let duration = start.elapsed();
    println!("1000 requests processed in {:?}", duration);
    assert!(duration.as_millis() < 100, "Performance test failed: took {:?}", duration);
}

#[test]
fn extract_domain_edge_cases() {
    // no scheme separator: the text before the first slash
    assert_eq!(extract_domain("example.com/path/x"), Some("example.com".to_string()));
    assert_eq!(extract_domain(""), Some("".to_string()));
    assert_eq!(extract_domain("invalid-url"), Some("invalid-url".to_string()));
    // a scheme separator that does not parse: no host
    assert_eq!(extract_domain("://invalid"), None);
    // a URL without a host
    assert_eq!(extract_domain("mailto:someone@example.com"), None);
}

fn scenario_engine() -> FilterEngine {
    FilterEngine::with_rules(
        &strings(&["googleadservices.com", "doubleclick.net"]),
        &strings(&["github.com"]),
        &strings(&["ads", "analytics", "tracking"]),
    )
}

#[test]
fn seeded_scenario_verdicts() {
    let engine = scenario_engine();
    assert!(engine.should_block("https://googleadservices.com/x", "http", "app"));
    assert!(!engine.should_block("https://github.com/ads/x", "http", "app"));
    assert!(engine.should_block("https://example.com/ads/banner.js", "http", "app"));
    assert!(!engine.should_block("https://example.com/api", "http", "app"));
}

#[test]
fn allow_domain_beats_block_domain_and_pattern() {
    let engine = FilterEngine::with_rules(
        &strings(&["github.com"]),
        &strings(&["github.com"]),
        &strings(&["tracking"]),
    );
    assert!(!engine.should_block("https://github.com/tracking", "http", "app"));
}

#[test]
fn block_domain_without_pattern() {
    let engine = scenario_engine();
    assert!(engine.should_block("https://doubleclick.net/clean", "http", "app"));
    // a subdomain is a different host
    assert!(!engine.should_block("https://www.doubleclick.net/clean", "http", "app"));
}

#[test]
fn seeded_domains_are_normalized() {
    let engine = FilterEngine::with_rules(
        &strings(&["DoubleClick.NET."]),
        &strings(&["GitHub.com"]),
        &strings(&[]),
    );
    assert!(engine.should_block("https://doubleclick.net/x", "http", "app"));
    assert!(!engine.should_block("https://github.com/ads", "http", "app"));
    // the request's host is looked up as extracted
    assert!(!engine.should_block("https://doubleclick.net./x", "http", "app"));
    assert!(!engine.should_block("DOUBLECLICK.NET", "http", "app"));
    assert!(engine.should_block("doubleclick.net/x", "http", "app"));
}

#[test]
fn malformed_urls_default_to_allow() {
    let engine = scenario_engine();
    assert!(!engine.should_block("", "http", "app"));
    assert!(!engine.should_block("invalid-url", "http", "app"));
    assert!(!engine.should_block("://invalid", "http", "app"));
    // without a host the patterns still apply
    assert!(engine.should_block("://ads", "http", "app"));
}

#[test]
fn pattern_match_is_case_sensitive() {
    let engine = scenario_engine();
    assert!(!engine.should_block("https://example.com/ADS", "http", "app"));
}

#[test]
fn wildcard_patterns_match_the_whole_url() {
    let engine = FilterEngine::with_rules(
        &strings(&[]),
        &strings(&[]),
        &strings(&["https://*.example.com/banner?.js"]),
    );
    assert!(engine.should_block("https://cdn.example.com/banner1.js", "http", "app"));
    assert!(!engine.should_block("https://cdn.example.com/banner12.js", "http", "app"));
    assert!(!engine.should_block("xhttps://cdn.example.com/banner1.js", "http", "app"));
}

#[test]
fn uncompilable_wildcard_pattern_matches_nothing() {
    let engine = FilterEngine::with_rules(&strings(&[]), &strings(&[]), &strings(&["(*"]));
    assert!(!engine.should_block("(abc", "http", "app"));
}

#[test]
fn loaded_rules_replace_patterns() {
    let mut engine = scenario_engine();
    let rules: Vec<ParsedRule> =
        parse_filter_content("! comment\nbanner\n@@tracking\n", FilterListType::EasyList);
    engine.load_rules(&strings(&["ads"]), &rules);
    assert!(engine.should_block("https://example.com/banner.png", "http", "app"));
    assert!(engine.should_block("https://example.com/ads", "http", "app"));
    // the old pattern is gone, allow rules do not block
    assert!(!engine.should_block("https://example.com/tracking", "http", "app"));
    assert!(!engine.should_block("https://example.com/analytics", "http", "app"));
    // domain sets are kept
    assert!(engine.should_block("https://doubleclick.net/", "http", "app"));
}

#[test]
fn decision_from_a_given_host() {
    let engine = scenario_engine();
    assert!(engine.decide_for_host(Some("doubleclick.net"), "https://x/clean", "http", "app"));
    assert!(!engine.decide_for_host(Some("github.com"), "https://x/ads", "http", "app"));
    assert!(engine.decide_for_host(None, "https://x/ads", "http", "app"));
    assert!(!engine.decide_for_host(None, "https://x/clean", "http", "app"));
}
