use aubo_rs::stats::StatsCollector;

#[test]
fn test_stats_collector_creation() {
    let collector = StatsCollector::new();
    let stats = collector.get_stats();

    assert_eq!(stats.total_requests, 0);
    assert_eq!(stats.blocked_requests, 0);
    assert_eq!(stats.allowed_requests, 0);
    assert!(stats.domains_blocked.is_empty());
    assert!(stats.request_types.is_empty());
}

#[test]
fn test_recording_blocked_requests() {
    let mut collector = StatsCollector::new();

    collector.record_blocked_request("example.com", "http");
    collector.record_blocked_request("ads.google.com", "http");
    collector.record_blocked_request("example.com", "https");

    let stats = collector.get_stats();

    assert_eq!(stats.total_requests, 3);
    assert_eq!(stats.blocked_requests, 3);
    assert_eq!(stats.allowed_requests, 0);
    assert_eq!(stats.domains_blocked.get("example.com"), Some(2));
    assert_eq!(stats.domains_blocked.get("ads.google.com"), Some(1));
    assert_eq!(stats.request_types.get("http"), Some(2));
    assert_eq!(stats.request_types.get("https"), Some(1));
}

#[test]
fn test_recording_allowed_requests() {
    let mut collector = StatsCollector::new();

    collector.record_allowed_request("github.com", "https");
    collector.record_allowed_request("stackoverflow.com", "https");

    let stats = collector.get_stats();

    assert_eq!(stats.total_requests, 2);
    assert_eq!(stats.blocked_requests, 0);
    assert_eq!(stats.allowed_requests, 2);
    assert!(stats.domains_blocked.is_empty());
    assert_eq!(stats.request_types.get("https"), Some(2));
}

#[test]
fn test_mixed_requests() {
    let mut collector = StatsCollector::new();

    collector.record_blocked_request("ads.example.com", "http");
    collector.record_allowed_request("api.example.com", "https");
    collector.record_blocked_request("tracking.example.com", "http");
    collector.record_allowed_request("cdn.example.com", "https");

    let stats = collector.get_stats();

    assert_eq!(stats.total_requests, 4);
    assert_eq!(stats.blocked_requests, 2);
    assert_eq!(stats.allowed_requests, 2);
    assert_eq!(stats.domains_blocked.len(), 2);
    assert_eq!(stats.request_types.get("http"), Some(2));
    assert_eq!(stats.request_types.get("https"), Some(2));
}

#[test]
fn test_concurrent_stats_recording() {
    // ten workers share one collector behind a lock; their recordings interleave
    let collector = std::sync::Arc::new(std::sync::Mutex::new(StatsCollector::new()));
    let workers: Vec<_> = (0..10).map(|_| std::sync::Arc::clone(&collector)).collect();

    for i in 0..100 {
        for (thread_id, worker) in workers.iter().enumerate() {
            let domain = format!("domain{}.com", thread_id);
            let mut c = worker.lock().unwrap();
            if i % 2 == 0 {
                c.record_blocked_request(&domain, "http");
            } else {
                c.record_allowed_request(&domain, "https");
            }
        }
    }

    let stats = collector.lock().unwrap().get_stats();

    assert_eq!(stats.total_requests, 1000);
    assert_eq!(stats.blocked_requests, 500);
    assert_eq!(stats.allowed_requests, 500);
    assert_eq!(stats.domains_blocked.len(), 10);
    assert_eq!(stats.request_types.get("http"), Some(500));
    assert_eq!(stats.request_types.get("https"), Some(500));
}

#[test]
fn test_performance_metrics_initialization() {
    let collector = StatsCollector::new();
    let stats = collector.get_stats();

    assert_eq!(stats.performance_metrics.avg_processing_time_us, 0);
    assert_eq!(stats.performance_metrics.memory_usage_bytes, 0);
    assert_eq!(stats.performance_metrics.cpu_usage_centipercent, 0);
}

#[test]
fn test_stats_start_stop_collection() {
    let mut collector = StatsCollector::new();

    assert!(collector.start_collection().is_ok());
    assert!(collector.stop_collection().is_ok());
}

#[test]
fn test_domain_counting_accuracy() {
    let mut collector = StatsCollector::new();
    let domain = "example.com";

    for _ in 0..5 {
        collector.record_blocked_request(domain, "http");
    }

    let stats = collector.get_stats();
    assert_eq!(stats.domains_blocked.get(domain), Some(5));
    assert_eq!(stats.total_requests, 5);
    assert_eq!(stats.blocked_requests, 5);
}

#[test]
fn test_request_type_counting() {
    let mut collector = StatsCollector::new();

    collector.record_blocked_request("example.com", "http");
    collector.record_blocked_request("example.com", "https");
    collector.record_blocked_request("example.com", "websocket");
    collector.record_allowed_request("github.com", "http");
    collector.record_allowed_request("github.com", "https");

    let stats = collector.get_stats();

    assert_eq!(stats.request_types.get("http"), Some(2));
    assert_eq!(stats.request_types.get("https"), Some(2));
    assert_eq!(stats.request_types.get("websocket"), Some(1));
}

#[test]
fn stopped_collector_counts_nothing() {
    let mut collector = StatsCollector::new();
    collector.record_blocked_request("a.com", "http");
    collector.stop_collection().unwrap();
    collector.record_blocked_request("a.com", "http");
    collector.record_allowed_request("b.com", "http");
    let stats = collector.get_stats();
    assert_eq!(stats.total_requests, 1);
    assert_eq!(stats.domains_blocked.get("a.com"), Some(1));
    collector.start_collection().unwrap();
    collector.record_allowed_request("b.com", "http");
    assert_eq!(collector.get_stats().total_requests, 2);
}

#[test]
fn interleaved_recordings_add_up() {
    let mut collector = StatsCollector::new();
    collector.start_collection().unwrap();
    let n = 37;
    for i in 0..n {
        if i % 3 == 0 {
            collector.record_blocked_request("x.com", "script");
        } else {
            collector.record_allowed_request("y.com", "image");
        }
    }
    let stats = collector.get_stats();
    assert_eq!(stats.total_requests, n);
    assert_eq!(stats.blocked_requests + stats.allowed_requests, n);
    assert_eq!(stats.blocked_requests, 13);
    assert_eq!(stats.domains_blocked.get("y.com"), None);
}

#[test]
fn reset_clears_counters_and_keeps_switch() {
    let mut collector = StatsCollector::new();
    collector.record_blocked_request("a.com", "http");
    collector.update_performance_metrics(12, 4096, 150);
    assert_eq!(collector.get_stats().performance_metrics.memory_usage_bytes, 4096);
    collector.reset();
    let stats = collector.get_stats();
    assert_eq!(stats.total_requests, 0);
    assert!(stats.domains_blocked.is_empty());
    collector.record_allowed_request("a.com", "http");
    assert_eq!(collector.get_stats().allowed_requests, 1);
}
