use aubo_rs::config::{HookConfig, HookFunction};
use aubo_rs::engine::FilterEngine;
use aubo_rs::error::HookError;
use aubo_rs::hooks::{NetworkHooks, RequestContext};
use aubo_rs::stats::StatsCollector;

type Resolve = fn(&str, &str) -> Option<u64>;
type Install = fn(u64) -> Result<u64, HookError>;
type Remove = fn(u64) -> Result<(), HookError>;

fn resolve_all_but_gethostbyname(_library: &str, name: &str) -> Option<u64> {
    match name {
        "getaddrinfo" => Some(0x1000),
        "connect" => Some(0x3000),
        _ => None,
    }
}

fn install_ok(addr: u64) -> Result<u64, HookError> {
    Ok(addr + 1)
}

fn remove_ok(_handle: u64) -> Result<(), HookError> {
    Ok(())
}

fn remove_fail(_handle: u64) -> Result<(), HookError> {
    Err(HookError::RemovalFailed { function: "x".to_string(), reason: "busy".to_string() })
}

fn hooks() -> NetworkHooks {
    NetworkHooks::new(HookConfig::default(), FilterEngine::new(), StatsCollector::new())
}

fn installed(h: &NetworkHooks) -> Vec<(String, bool)> {
    h.hook_records().iter().map(|r| (r.name.clone(), r.installed)).collect()
}

fn ctx(url: &str, domain: &str) -> RequestContext {
    RequestContext {
        url: url.to_string(),
        domain: domain.to_string(),
        request_type: "http".to_string(),
        origin_process: "com.example.app".to_string(),
        timestamp: 0,
        ip_address: None,
    }
}

#[test]
fn one_unresolved_symbol_leaves_two_installed() {
    let mut h = hooks();
    let r = h.install_hooks(Some((resolve_all_but_gethostbyname as Resolve, install_ok as Install)));
    assert!(r.is_ok());
    assert_eq!(
        installed(&h),
        vec![("getaddrinfo".to_string(), true), ("connect".to_string(), true)]
    );
    assert_eq!(h.get_active_hook_count(), 2);
    assert_eq!(h.hook_records()[1].original_fn, 0x3001);
}

#[test]
fn no_collaborator_installs_nothing() {
    let mut h = hooks();
    match h.install_hooks(None::<(Resolve, Install)>) {
        Err(HookError::InstallationFailed { function, .. }) => assert_eq!(function, "all"),
        other => panic!("unexpected {:?}", other),
    }
    assert_eq!(h.get_active_hook_count(), 0);
    match h.uninstall_hooks(None::<Remove>) {
        Err(HookError::RemovalFailed { function, .. }) => assert_eq!(function, "all"),
        other => panic!("unexpected {:?}", other),
    }
}

#[test]
fn disabled_hooks_install_nothing() {
    let mut config = HookConfig::default();
    config.enabled = false;
    let mut h = NetworkHooks::new(config, FilterEngine::new(), StatsCollector::new());
    assert!(h.install_hooks(Some((resolve_all_but_gethostbyname as Resolve, install_ok as Install))).is_ok());
    assert_eq!(h.get_active_hook_count(), 0);
}

#[test]
fn disabled_descriptor_is_skipped() {
    let mut config = HookConfig::default();
    config.hook_functions[0].enabled = false;
    let mut h = NetworkHooks::new(config, FilterEngine::new(), StatsCollector::new());
    h.install_hooks(Some((resolve_all_but_gethostbyname as Resolve, install_ok as Install))).unwrap();
    assert_eq!(installed(&h), vec![("connect".to_string(), true)]);
}

#[test]
fn uninstall_twice_is_the_same_as_once() {
    let mut h = hooks();
    h.install_hooks(Some((resolve_all_but_gethostbyname as Resolve, install_ok as Install))).unwrap();
    h.uninstall_hooks(Some(remove_ok as Remove)).unwrap();
    let once = installed(&h);
    assert_eq!(once, vec![("getaddrinfo".to_string(), false), ("connect".to_string(), false)]);
    h.uninstall_hooks(Some(remove_ok as Remove)).unwrap();
    assert_eq!(installed(&h), once);
}

#[test]
fn failed_removal_stays_installed() {
    let mut h = hooks();
    h.install_hooks(Some((resolve_all_but_gethostbyname as Resolve, install_ok as Install))).unwrap();
    assert!(h.uninstall_hooks(Some(remove_fail as Remove)).is_ok());
    assert_eq!(h.get_active_hook_count(), 2);
    h.uninstall_hooks(Some(remove_ok as Remove)).unwrap();
    assert_eq!(h.get_active_hook_count(), 0);
}

#[test]
fn record_install_replaces_same_name() {
    let mut h = hooks();
    let desc = HookFunction {
        name: "connect".to_string(),
        library: "libc.so".to_string(),
        enabled: true,
        priority: 1,
    };
    h.record_install(&desc, Ok(7)).unwrap();
    h.record_install(&desc, Ok(9)).unwrap();
    let err = HookError::SymbolNotFound { symbol: "connect".to_string(), library: "libc.so".to_string() };
    assert_eq!(h.record_install(&desc, Err(err.clone())), Err(err));
    assert_eq!(h.hook_records().len(), 1);
    assert_eq!(h.hook_records()[0].original_fn, 9);
}

#[test]
fn analyze_request_counts_and_decides() {
    let mut h = hooks();
    assert!(h.analyze_request(&ctx("https://googleadservices.com/x", "googleadservices.com")));
    assert!(!h.analyze_request(&ctx("https://example.com/api", "example.com")));
    assert!(h.analyze_request(&ctx("https://example.com/ads/1", "example.com")));
    assert!(!h.analyze_request(&ctx("", "")));
    assert_eq!(h.get_stats(), (4, 2));
    let stats = h.stats().get_stats();
    assert_eq!(stats.total_requests, 4);
    assert_eq!(stats.blocked_requests, 2);
    assert_eq!(stats.allowed_requests, 2);
    assert_eq!(stats.domains_blocked.get("example.com"), Some(1));
    assert_eq!(stats.domains_blocked.get("googleadservices.com"), Some(1));
    assert_eq!(stats.request_types.get("http"), Some(4));
}

#[test]
fn interleaved_analyze_requests_lose_nothing() {
    // ten callers share the lifecycle behind a lock, each issuing 100 requests
    let shared = std::sync::Arc::new(std::sync::Mutex::new(hooks()));
    let callers: Vec<_> = (0..10).map(|_| std::sync::Arc::clone(&shared)).collect();
    for i in 0..100 {
        for (t, caller) in callers.iter().enumerate() {
            let url = format!("https://test{}.com/path{}", t, i);
            caller.lock().unwrap().analyze_request(&ctx(&url, "test.com"));
        }
    }
    let h = shared.lock().unwrap();
    let stats = h.stats().get_stats();
    assert_eq!(stats.total_requests, 1000);
    assert_eq!(stats.blocked_requests + stats.allowed_requests, 1000);
    assert_eq!(h.get_stats().0, 1000);
}

#[test]
fn record_removal_only_uninstalls_on_success() {
    let mut h = hooks();
    h.install_hooks(Some((resolve_all_but_gethostbyname as Resolve, install_ok as Install))).unwrap();
    let err = HookError::RemovalFailed { function: "x".to_string(), reason: "busy".to_string() };
    assert_eq!(h.record_removal(0, Err(err.clone())), Err(err));
    assert!(h.hook_records()[0].installed);
    assert_eq!(h.record_removal(0, Ok(())), Ok(()));
    assert!(!h.hook_records()[0].installed);
    assert_eq!(h.hook_records()[0].original_fn, 0x1001);
    // a record already uninstalled stays so
    assert_eq!(h.record_removal(0, Ok(())), Ok(()));
    assert!(!h.hook_records()[0].installed);
    assert!(h.hook_records()[1].installed);
}
