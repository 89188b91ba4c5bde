use aubo_rs::config::HookConfig;
use aubo_rs::engine::FilterEngine;
use aubo_rs::error::HookError;
use aubo_rs::{
    get_active_hook_count, get_loaded_filter_count, handle_companion_connection, initialize,
    should_block_request, shutdown, AuboSystem,
};

type Resolve = fn(&str, &str) -> Option<u64>;
type Install = fn(u64) -> Result<u64, HookError>;
type Remove = fn(u64) -> Result<(), HookError>;

fn start_system() -> Option<AuboSystem> {
    let mut slot = None;
    let system = AuboSystem::new(HookConfig::default(), FilterEngine::new());
    initialize(&mut slot, system, None::<(Resolve, Install)>).unwrap();
    slot
}

#[test]
fn test_system_initialization_and_shutdown() {
    let mut slot = None;
    let system = AuboSystem::new(HookConfig::default(), FilterEngine::new());
    let result = initialize(&mut slot, system, None::<(Resolve, Install)>);
    assert!(result.is_ok(), "Failed to initialize aubo-rs: {:?}", result);
    let result = shutdown(&mut slot, None::<Remove>);
    assert!(result.is_ok(), "Failed to shutdown aubo-rs: {:?}", result);
    assert!(slot.is_none());
}

#[test]
fn test_basic_blocking_functionality() {
    let mut slot = start_system();
    assert!(should_block_request(&slot, "https://googleadservices.com/ads/test", "http", "com.example.app"));
    assert!(should_block_request(&slot, "https://doubleclick.net/track", "http", "com.example.app"));
    assert!(!should_block_request(&slot, "https://github.com/user/repo", "http", "com.example.app"));
    assert!(!should_block_request(&slot, "https://stackoverflow.com/questions", "http", "com.example.app"));
    shutdown(&mut slot, None::<Remove>).unwrap();
}

#[test]
fn test_pattern_based_blocking() {
    let mut slot = start_system();
    assert!(should_block_request(&slot, "https://example.com/ads/banner.js", "http", "com.example.app"));
    assert!(should_block_request(&slot, "https://analytics.example.com", "http", "com.example.app"));
    assert!(should_block_request(&slot, "https://tracking.service.com/pixel", "http", "com.example.app"));
    assert!(!should_block_request(&slot, "https://example.com/api/content", "http", "com.example.app"));
    shutdown(&mut slot, None::<Remove>).unwrap();
}

#[test]
fn test_performance_requirements() {
    let mut slot = start_system();
    let test_urls = vec![
        "https://example.com/content",
        "https://googleadservices.com/ads",
        "https://github.com/user/repo",
        "https://doubleclick.net/track",
        "https://analytics.example.com",
        "https://stackoverflow.com/questions",
        "https://tracking.service.com",
        "https://clean.example.com/api",
    ];
    let iterations = 1000;
    let start = std::time::Instant::now();
    for i in 0..iterations {
        let url = &test_urls[i % test_urls.len()];
        should_block_request(&slot, url, "http", "com.example.app");
    }
    let duration = start.elapsed();
    let avg_per_request = duration / iterations as u32;
    println!("Average processing time per request: {:?}", avg_per_request);
    assert!(
        avg_per_request < std::time::Duration::from_millis(1),
        "Performance requirement not met: {:?} per request",
        avg_per_request
    );
    shutdown(&mut slot, None::<Remove>).unwrap();
}

#[test]
fn test_concurrent_requests() {
    let slot = std::sync::Arc::new(start_system());
    let request_count = std::sync::atomic::AtomicUsize::new(0);
    let blocked_count = std::sync::atomic::AtomicUsize::new(0);
    let callers: Vec<_> = (0..10).map(|_| std::sync::Arc::clone(&slot)).collect();
    for i in 0..100 {
        for (thread_id, caller) in callers.iter().enumerate() {
            let url = format!("https://test{}.com/path{}", thread_id, i);
            let blocked = should_block_request(caller, &url, "http", "com.example.app");
            request_count.fetch_add(1, std::sync::atomic::Ordering::SeqCst);
            if blocked {
                blocked_count.fetch_add(1, std::sync::atomic::Ordering::SeqCst);
            }
        }
    }
    let total_requests = request_count.load(std::sync::atomic::Ordering::SeqCst);
    let total_blocked = blocked_count.load(std::sync::atomic::Ordering::SeqCst);
    println!("Processed {} concurrent requests, blocked {}", total_requests, total_blocked);
    assert_eq!(total_requests, 1000);
    // "path" holds no pattern and no host is listed: nothing is blocked
    assert_eq!(total_blocked, 0);
}

#[test]
fn test_memory_usage() {
    let mut slot = start_system();
    for i in 0..10000 {
        let url = format!("https://test{}.com/path", i % 100);
        should_block_request(&slot, &url, "http", "com.example.app");
    }
    shutdown(&mut slot, None::<Remove>).unwrap();
}

#[test]
fn test_filter_engine_edge_cases() {
    let mut slot = start_system();
    assert!(!should_block_request(&slot, "", "http", "com.example.app"));
    assert!(!should_block_request(&slot, "invalid-url", "http", "com.example.app"));
    assert!(!should_block_request(&slot, "://invalid", "http", "com.example.app"));
    let long_url = format!("https://example.com/{}", "a".repeat(1000));
    should_block_request(&slot, &long_url, "http", "com.example.app");
    shutdown(&mut slot, None::<Remove>).unwrap();
}

#[test]
fn no_running_instance_blocks_nothing() {
    let slot: Option<AuboSystem> = None;
    assert!(!should_block_request(&slot, "https://doubleclick.net/", "http", "app"));
    assert!(handle_companion_connection(3).is_ok());
}

#[test]
fn second_initialize_keeps_the_running_instance() {
    let mut slot = start_system();
    let other = AuboSystem::new(
        HookConfig::default(),
        FilterEngine::with_rules(&vec![], &vec![], &vec![]),
    );
    assert!(initialize(&mut slot, other, None::<(Resolve, Install)>).is_ok());
    assert!(should_block_request(&slot, "https://doubleclick.net/track", "http", "app"));
    assert!(slot.as_ref().unwrap().stats().get_stats().total_requests == 0);
}

#[test]
fn stop_uninstalls_through_the_collaborator() {
    fn resolve(_l: &str, _n: &str) -> Option<u64> {
        Some(1)
    }
    fn install(a: u64) -> Result<u64, HookError> {
        Ok(a)
    }
    fn remove(_h: u64) -> Result<(), HookError> {
        Ok(())
    }
    let mut system = AuboSystem::new(HookConfig::default(), FilterEngine::new());
    system.start(Some((resolve as Resolve, install as Install))).unwrap();
    assert_eq!(system.network_hooks().get_active_hook_count(), 3);
    system.stop(Some(remove as Remove)).unwrap();
    assert!(system.is_shutting_down());
    assert_eq!(system.network_hooks().get_active_hook_count(), 0);
}

#[test]
fn status_counts() {
    let mut slot = start_system();
    assert_eq!(get_loaded_filter_count(&slot), 12);
    assert_eq!(get_active_hook_count(&slot), 0);
    shutdown(&mut slot, None::<Remove>).unwrap();
    assert_eq!(get_loaded_filter_count(&slot), 0);
}

#[test]
fn shutdown_hands_back_the_stopped_instance() {
    fn resolve(_l: &str, _n: &str) -> Option<u64> {
        Some(1)
    }
    fn install(a: u64) -> Result<u64, HookError> {
        Ok(a)
    }
    fn remove(_h: u64) -> Result<(), HookError> {
        Ok(())
    }
    let mut slot = None;
    let system = AuboSystem::new(HookConfig::default(), FilterEngine::new());
    initialize(&mut slot, system, Some((resolve as Resolve, install as Install))).unwrap();
    assert_eq!(get_active_hook_count(&slot), 3);
    let stopped = shutdown(&mut slot, Some(remove as Remove)).unwrap().unwrap();
    assert!(slot.is_none());
    assert!(stopped.is_shutting_down());
    assert_eq!(stopped.network_hooks().get_active_hook_count(), 0);
    assert!(shutdown(&mut slot, None::<Remove>).unwrap().is_none());
}
