use vstd::prelude::*;

use crate::error::ConfigError;
use crate::text::str_eq;

verus! {

/// Relies on `Duration::from_secs`: a span of whole seconds.
pub assume_specification[ core::time::Duration::from_secs ](secs: u64) -> core::time::Duration;

/// Relies on `Duration::from_millis`: a span of whole milliseconds.
pub assume_specification[ core::time::Duration::from_millis ](
    millis: u64,
) -> core::time::Duration;

/// Relies on `Clone` for `Duration`, a `Copy` type: the clone is the same span.
pub assume_specification[ <core::time::Duration as Clone>::clone ](
    d: &core::time::Duration,
) -> (r: core::time::Duration)
    ensures
        r == *d,
;

/// The formats a filter list can be written in.
#[derive(Clone, Copy, PartialEq, Eq, Debug)]
pub enum FilterListType {
    /// EasyList format
    EasyList,
    /// AdGuard format (read as EasyList)
    AdGuard,
    /// uBlock Origin format (read as EasyList)
    UBlockOrigin,
    /// One domain or pattern per line
    Custom,
    /// Hosts file format
    Hosts,
}

/// One filter list to load: where it comes from and how it is written.
#[derive(Clone, Debug)]
pub struct FilterListConfig {
    /// Filter list name
    pub name: String,
    /// Where the list is fetched from
    pub url: String,
    /// Format of the list
    pub list_type: FilterListType,
    /// Enable/disable this filter list
    pub enabled: bool,
    /// Update interval override for this list
    pub update_interval: Option<core::time::Duration>,
    /// Priority (higher priority lists are checked first)
    pub priority: u32,
}

/// One network function to intercept.
#[derive(Clone, Debug)]
pub struct HookFunction {
    /// Function name to hook
    pub name: String,
    /// Library containing the function
    pub library: String,
    /// Enable/disable this hook
    pub enabled: bool,
    /// Hook priority
    pub priority: u32,
}

impl HookFunction {
    /// A copy of this descriptor.
    pub fn duplicate(&self) -> (r: Self)
        ensures
            r.name@ == self.name@,
            r.library@ == self.library@,
            r.enabled == self.enabled,
            r.priority == self.priority,
    {
        HookFunction {
            name: self.name.clone(),
            library: self.library.clone(),
            enabled: self.enabled,
            priority: self.priority,
        }
    }
}

/// Network hooking configuration.
#[derive(Clone, Debug)]
pub struct HookConfig {
    /// Enable/disable network hooks
    pub enabled: bool,
    /// Target processes to hook (empty means hook all)
    pub target_processes: Vec<String>,
    /// Exclude processes from hooking
    pub exclude_processes: Vec<String>,
    /// Network functions to hook, in the order they are installed
    pub hook_functions: Vec<HookFunction>,
    /// Enable deep packet inspection
    pub deep_inspection: bool,
    /// Maximum request size to analyze (in bytes)
    pub max_request_size: usize,
    /// Request analysis timeout
    pub analysis_timeout: core::time::Duration,
}

/// Statistics collection configuration.
#[derive(Clone, Debug)]
pub struct StatsConfig {
    /// Enable/disable statistics collection
    pub enabled: bool,
    /// Statistics file path
    pub stats_file: String,
    /// Statistics collection interval
    pub collection_interval: core::time::Duration,
    /// Statistics retention period
    pub retention_period: core::time::Duration,
    /// Enable detailed request logging
    pub detailed_logging: bool,
    /// Maximum log entries to keep
    pub max_log_entries: usize,
    /// Enable performance metrics
    pub performance_metrics: bool,
}

/// Logging configuration.
#[derive(Clone, Debug)]
pub struct LoggingConfig {
    /// Log level (error, warn, info, debug, trace)
    pub level: String,
    /// Log file path
    pub log_file: Option<String>,
    /// Maximum log file size (in MB)
    pub max_file_size: u64,
    /// Number of log files to keep
    pub max_files: u32,
    /// Enable console logging
    pub console: bool,
    /// Enable structured logging (JSON)
    pub structured: bool,
}

fn hook_function(name: &str, priority: u32) -> (r: HookFunction)
    ensures
        r.name@ == name@,
        r.library@ == "libc.so"@,
        r.enabled,
        r.priority == priority,
{
    HookFunction { name: name.to_string(), library: "libc.so".to_string(), enabled: true, priority }
}

impl Default for HookConfig {
    /// Hooks on, the three resolver and socket entry points of libc, kernel
    /// threads excluded.
    fn default() -> (r: Self)
        ensures
            r.enabled,
            r.hook_functions@.len() == 3,
            r.hook_functions@[0].name@ == "getaddrinfo"@,
            r.hook_functions@[1].name@ == "gethostbyname"@,
            r.hook_functions@[2].name@ == "connect"@,
            forall|i: int|
                0 <= i < 3 ==> #[trigger] r.hook_functions@[i].enabled
                    && r.hook_functions@[i].library@ == "libc.so"@,
    {
        let mut exclude: Vec<String> = Vec::new();
        exclude.push("kernel".to_string());
        exclude.push("init".to_string());
        exclude.push("kthreadd".to_string());
        let mut hooks: Vec<HookFunction> = Vec::new();
        hooks.push(hook_function("getaddrinfo", 100));
        hooks.push(hook_function("gethostbyname", 90));
        hooks.push(hook_function("connect", 80));
        HookConfig {
            enabled: true,
            target_processes: Vec::new(),
            exclude_processes: exclude,
            hook_functions: hooks,
            deep_inspection: true,
            max_request_size: 1024 * 1024,
            analysis_timeout: core::time::Duration::from_millis(100),
        }
    }
}

impl Default for StatsConfig {
    fn default() -> (r: Self)
        ensures
            r.enabled,
            r.stats_file@ == "/data/adb/aubo-rs/stats.json"@,
            r.max_log_entries == 10000,
    {
        StatsConfig {
            enabled: true,
            stats_file: "/data/adb/aubo-rs/stats.json".to_string(),
            collection_interval: core::time::Duration::from_secs(60),
            retention_period: core::time::Duration::from_secs(7 * 24 * 60 * 60),
            detailed_logging: false,
            max_log_entries: 10000,
            performance_metrics: true,
        }
    }
}

/// The log levels a configuration may name.
pub open spec fn is_log_level(s: Seq<char>) -> bool {
    s == "error"@ || s == "warn"@ || s == "info"@ || s == "debug"@ || s == "trace"@
}

impl Default for LoggingConfig {
    fn default() -> (r: Self)
        ensures
            r.level@ == "info"@,
            !r.console,
    {
        LoggingConfig {
            level: "info".to_string(),
            log_file: Some("/data/adb/aubo-rs/aubo-rs.log".to_string()),
            max_file_size: 10,
            max_files: 5,
            console: false,
            structured: false,
        }
    }
}

impl LoggingConfig {
    /// Whether `level` is one of the five log levels.
    pub fn has_valid_level(&self) -> (r: bool)
        ensures
            r == is_log_level(self.level@),
    {
        let l = self.level.as_str();
        str_eq(l, "error") || str_eq(l, "warn") || str_eq(l, "info") || str_eq(l, "debug")
            || str_eq(l, "trace")
    }
}

fn invalid(key: &str, value: String) -> (r: ConfigError)
    ensures
        r matches ConfigError::InvalidValue { key: k, value: v } && k@ == key@ && v == value,
{
    ConfigError::InvalidValue { key: key.to_string(), value }
}

/// The integer limits and the log level of a configuration, checked in
/// this order: memory limit, rule limit, worker threads, log level. The
/// first that is out of range is named in the error.
pub fn validate_settings(
    max_memory_mb: u64,
    max_rules: usize,
    worker_threads: usize,
    logging: &LoggingConfig,
) -> (r: Result<(), ConfigError>)
    ensures
        r is Ok <==> (max_memory_mb != 0 && max_rules != 0 && worker_threads != 0 && is_log_level(
            logging.level@,
        )),
        max_memory_mb == 0 ==> (r matches Err(ConfigError::InvalidValue { key, .. })
            && key@ == "general.max_memory_mb"@),
        max_memory_mb != 0 && max_rules == 0 ==> (r matches Err(
            ConfigError::InvalidValue { key, .. },
        ) && key@ == "filters.max_rules"@),
        max_memory_mb != 0 && max_rules != 0 && worker_threads == 0 ==> (r matches Err(
            ConfigError::InvalidValue { key, .. },
        ) && key@ == "performance.worker_threads"@),
        max_memory_mb != 0 && max_rules != 0 && worker_threads != 0 && !is_log_level(
            logging.level@,
        ) ==> (r matches Err(ConfigError::InvalidValue { key, value }) && key@ == "logging.level"@
            && value@ == logging.level@),
{
    if max_memory_mb == 0 {
        return Err(invalid("general.max_memory_mb", "0".to_string()));
    }
    if max_rules == 0 {
        return Err(invalid("filters.max_rules", "0".to_string()));
    }
    if worker_threads == 0 {
        return Err(invalid("performance.worker_threads", "0".to_string()));
    }
    if !logging.has_valid_level() {
        return Err(invalid("logging.level", logging.level.clone()));
    }
    Ok(())
}

} // verus!
