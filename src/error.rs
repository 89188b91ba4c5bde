use vstd::prelude::*;

use crate::text::starts_with;
use crate::utils::{decimal, decimal_string};

verus! {

/// Errors of the configuration.
#[derive(Debug, Clone, PartialEq, Eq)]
pub enum ConfigError {
    InvalidValue { key: String, value: String },
    MissingRequired { key: String },
    FileNotFound { path: String },
    PermissionDenied { path: String },
    InvalidFormat { details: String },
}

/// Errors of filter-list ingestion.
#[derive(Debug, Clone, PartialEq, Eq)]
pub enum FilterError {
    DownloadFailed { name: String, url: String, reason: String },
    ParseError { name: String, reason: String },
    InvalidRule { rule: String, reason: String },
    CompilationFailed { reason: String },
    ListNotFound { name: String },
    UpdateFailed { reason: String },
}

/// Errors of installing and removing interception points.
#[derive(Debug, Clone, PartialEq, Eq)]
pub enum HookError {
    SymbolNotFound { symbol: String, library: String },
    InstallationFailed { function: String, reason: String },
    RemovalFailed { function: String, reason: String },
    MemoryProtection { reason: String },
    SignatureMismatch { function: String, expected: String, actual: String },
    AlreadyInstalled { function: String },
}

/// Errors of statistics persistence.
#[derive(Debug, Clone, PartialEq, Eq)]
pub enum StatsError {
    InitializationFailed { reason: String },
    WriteFailed { path: String, reason: String },
    ReadFailed { path: String, reason: String },
    Corruption { details: String },
}

/// Errors of the host loader.
#[derive(Debug, Clone, PartialEq, Eq)]
pub enum ZygiskError {
    NotAvailable,
    VersionMismatch { expected: u32, actual: u32 },
    ModuleLoadFailed { reason: String },
    CompanionConnectionFailed { reason: String },
    IpcError { reason: String },
    InjectionFailed { process: String, reason: String },
}

/// Any error of the library.
#[derive(Debug, Clone, PartialEq, Eq)]
pub enum AuboError {
    Config(ConfigError),
    Filter(FilterError),
    Hook(HookError),
    Stats(StatsError),
    Zygisk(ZygiskError),
    /// A text that does not parse as an absolute URL.
    Url { input: String },
    Generic { message: String },
    Initialization(String),
    Shutdown(String),
}

/// `a` followed by `b`.
fn cat(a: &str, b: &str) -> (r: String)
    ensures
        r@ == a@ + b@,
{
    let mut r = String::from_str(a);
    r.append(b);
    r
}

/// The four pieces one after the other.
fn cat4(a: &str, b: &str, c: &str, d: &str) -> (r: String)
    ensures
        r@ == a@ + b@ + c@ + d@,
{
    let mut r = String::from_str(a);
    r.append(b);
    r.append(c);
    r.append(d);
    r
}

/// The three pieces one after the other.
fn cat3(a: &str, b: &str, c: &str) -> (r: String)
    ensures
        r@ == a@ + b@ + c@,
{
    let mut r = String::from_str(a);
    r.append(b);
    r.append(c);
    r
}

/// The six pieces one after the other.
fn cat6(a: &str, b: &str, c: &str, d: &str, e: &str, f: &str) -> (r: String)
    ensures
        r@ == a@ + b@ + c@ + d@ + e@ + f@,
{
    let mut r = cat4(a, b, c, d);
    r.append(e);
    r.append(f);
    r
}

pub open spec fn config_text(e: ConfigError) -> Seq<char> {
    match e {
        ConfigError::InvalidValue { key, value } => "Invalid configuration value for '"@ + key@
            + "': "@ + value@,
        ConfigError::MissingRequired { key } => "Missing required configuration: "@ + key@,
        ConfigError::FileNotFound { path } => "Configuration file not found: "@ + path@,
        ConfigError::PermissionDenied { path } => "Permission denied accessing configuration file: "@
            + path@,
        ConfigError::InvalidFormat { details } => "Invalid configuration file format: "@ + details@,
    }
}

pub open spec fn filter_text(e: FilterError) -> Seq<char> {
    match e {
        FilterError::DownloadFailed { name, url, reason } => "Failed to download filter list '"@
            + name@ + "' from '"@ + url@ + "': "@ + reason@,
        FilterError::ParseError { name, reason } => "Failed to parse filter list '"@ + name@
            + "': "@ + reason@,
        FilterError::InvalidRule { rule, reason } => "Invalid filter rule: "@ + rule@ + " - "@
            + reason@,
        FilterError::CompilationFailed { reason } => "Failed to compile filter: "@ + reason@,
        FilterError::ListNotFound { name } => "Filter list not found: "@ + name@,
        FilterError::UpdateFailed { reason } => "Failed to update filters: "@ + reason@,
    }
}

pub open spec fn hook_text(e: HookError) -> Seq<char> {
    match e {
        HookError::SymbolNotFound { symbol, library } => "Symbol not found: "@ + symbol@ + " in "@
            + library@,
        HookError::InstallationFailed { function, reason } => "Failed to install hook for "@
            + function@ + ": "@ + reason@,
        HookError::RemovalFailed { function, reason } => "Failed to remove hook for "@ + function@
            + ": "@ + reason@,
        HookError::MemoryProtection { reason } => "Memory protection error: "@ + reason@,
        HookError::SignatureMismatch { function, expected, actual } =>
            "Function signature mismatch for "@ + function@ + ": expected "@ + expected@
            + ", got "@ + actual@,
        HookError::AlreadyInstalled { function } => "Hook already installed for function: "@
            + function@,
    }
}

pub open spec fn stats_text(e: StatsError) -> Seq<char> {
    match e {
        StatsError::InitializationFailed { reason } =>
            "Failed to initialize statistics collection: "@ + reason@,
        StatsError::WriteFailed { path, reason } => "Failed to write statistics to "@ + path@
            + ": "@ + reason@,
        StatsError::ReadFailed { path, reason } => "Failed to read statistics from "@ + path@
            + ": "@ + reason@,
        StatsError::Corruption { details } => "Statistics file corruption detected: "@ + details@,
    }
}

pub open spec fn zygisk_text(e: ZygiskError) -> Seq<char> {
    match e {
        ZygiskError::NotAvailable => "ZygiskNext is not available on this system"@,
        ZygiskError::VersionMismatch { expected, actual } =>
            "ZygiskNext API version mismatch: expected "@ + decimal(expected as nat) + ", got "@
            + decimal(actual as nat),
        ZygiskError::ModuleLoadFailed { reason } => "Failed to load ZygiskNext module: "@
            + reason@,
        ZygiskError::CompanionConnectionFailed { reason } =>
            "Failed to connect to companion module: "@ + reason@,
        ZygiskError::IpcError { reason } => "IPC communication error: "@ + reason@,
        ZygiskError::InjectionFailed { process, reason } => "Process injection failed for "@
            + process@ + ": "@ + reason@,
    }
}

/// The text each error reads as.
pub open spec fn error_text(e: AuboError) -> Seq<char> {
    match e {
        AuboError::Config(c) => "Configuration error: "@ + config_text(c),
        AuboError::Filter(f) => "Filter engine error: "@ + filter_text(f),
        AuboError::Hook(h) => "Network hook error: "@ + hook_text(h),
        AuboError::Stats(s) => "Statistics error: "@ + stats_text(s),
        AuboError::Zygisk(z) => "Zygisk error: "@ + zygisk_text(z),
        AuboError::Url { input } => "URL error: "@ + input@,
        AuboError::Generic { message } => "Generic error: "@ + message@,
        AuboError::Initialization(m) => "Initialization error: "@ + m@,
        AuboError::Shutdown(m) => "Shutdown error: "@ + m@,
    }
}

impl ConfigError {
    pub fn message(&self) -> (r: String)
        ensures
            r@ == config_text(*self),
    {
        let r = match self {
            ConfigError::InvalidValue { key, value } => cat4("Invalid configuration value for '", key.as_str(), "': ", value.as_str()),
            ConfigError::MissingRequired { key } => cat(
                "Missing required configuration: ",
                key.as_str(),
            ),
            ConfigError::FileNotFound { path } => cat("Configuration file not found: ", path.as_str()),
            ConfigError::PermissionDenied { path } => cat(
                "Permission denied accessing configuration file: ",
                path.as_str(),
            ),
            ConfigError::InvalidFormat { details } => cat(
                "Invalid configuration file format: ",
                details.as_str(),
            ),
        };
        assert(r@ =~= config_text(*self));
        r
    }
}

impl FilterError {
    pub fn message(&self) -> (r: String)
        ensures
            r@ == filter_text(*self),
    {
        let r = match self {
            FilterError::DownloadFailed { name, url, reason } => cat6("Failed to download filter list '", name.as_str(), "' from '", url.as_str(), "': ", reason.as_str()),
            FilterError::ParseError { name, reason } => cat4("Failed to parse filter list '", name.as_str(), "': ", reason.as_str()),
            FilterError::InvalidRule { rule, reason } => cat4("Invalid filter rule: ", rule.as_str(), " - ", reason.as_str()),
            FilterError::CompilationFailed { reason } => cat(
                "Failed to compile filter: ",
                reason.as_str(),
            ),
            FilterError::ListNotFound { name } => cat("Filter list not found: ", name.as_str()),
            FilterError::UpdateFailed { reason } => cat(
                "Failed to update filters: ",
                reason.as_str(),
            ),
        };
        assert(r@ =~= filter_text(*self));
        r
    }
}

impl HookError {
    pub fn message(&self) -> (r: String)
        ensures
            r@ == hook_text(*self),
    {
        let r = match self {
            HookError::SymbolNotFound { symbol, library } => cat4("Symbol not found: ", symbol.as_str(), " in ", library.as_str()),
            HookError::InstallationFailed { function, reason } => cat4("Failed to install hook for ", function.as_str(), ": ", reason.as_str()),
            HookError::RemovalFailed { function, reason } => cat4("Failed to remove hook for ", function.as_str(), ": ", reason.as_str()),
            HookError::MemoryProtection { reason } => cat(
                "Memory protection error: ",
                reason.as_str(),
            ),
            HookError::SignatureMismatch { function, expected, actual } => cat6("Function signature mismatch for ", function.as_str(), ": expected ", expected.as_str(), ", got ", actual.as_str()),
            HookError::AlreadyInstalled { function } => cat(
                "Hook already installed for function: ",
                function.as_str(),
            ),
        };
        assert(r@ =~= hook_text(*self));
        r
    }
}

impl StatsError {
    pub fn message(&self) -> (r: String)
        ensures
            r@ == stats_text(*self),
    {
        let r = match self {
            StatsError::InitializationFailed { reason } => cat(
                "Failed to initialize statistics collection: ",
                reason.as_str(),
            ),
            StatsError::WriteFailed { path, reason } => cat4("Failed to write statistics to ", path.as_str(), ": ", reason.as_str()),
            StatsError::ReadFailed { path, reason } => cat4("Failed to read statistics from ", path.as_str(), ": ", reason.as_str()),
            StatsError::Corruption { details } => cat(
                "Statistics file corruption detected: ",
                details.as_str(),
            ),
        };
        assert(r@ =~= stats_text(*self));
        r
    }
}

impl ZygiskError {
    pub fn message(&self) -> (r: String)
        ensures
            r@ == zygisk_text(*self),
    {
        let r = match self {
            ZygiskError::NotAvailable => String::from_str("ZygiskNext is not available on this system"),
            ZygiskError::VersionMismatch { expected, actual } => {
                let e = decimal_string(*expected as u64);
                let a = decimal_string(*actual as u64);
                cat4("ZygiskNext API version mismatch: expected ", e.as_str(), ", got ", a.as_str())
            },
            ZygiskError::ModuleLoadFailed { reason } => cat(
                "Failed to load ZygiskNext module: ",
                reason.as_str(),
            ),
            ZygiskError::CompanionConnectionFailed { reason } => cat(
                "Failed to connect to companion module: ",
                reason.as_str(),
            ),
            ZygiskError::IpcError { reason } => cat("IPC communication error: ", reason.as_str()),
            ZygiskError::InjectionFailed { process, reason } => cat4("Process injection failed for ", process.as_str(), ": ", reason.as_str()),
        };
        assert(r@ =~= zygisk_text(*self));
        r
    }
}

impl AuboError {
    /// The text this error reads as.
    pub fn message(&self) -> (r: String)
        ensures
            r@ == error_text(*self),
    {
        let r = match self {
            AuboError::Config(c) => cat("Configuration error: ", c.message().as_str()),
            AuboError::Filter(f) => cat("Filter engine error: ", f.message().as_str()),
            AuboError::Hook(h) => cat("Network hook error: ", h.message().as_str()),
            AuboError::Stats(s) => cat("Statistics error: ", s.message().as_str()),
            AuboError::Zygisk(z) => cat("Zygisk error: ", z.message().as_str()),
            AuboError::Url { input } => cat("URL error: ", input.as_str()),
            AuboError::Generic { message } => cat("Generic error: ", message.as_str()),
            AuboError::Initialization(m) => cat("Initialization error: ", m.as_str()),
            AuboError::Shutdown(m) => cat("Shutdown error: ", m.as_str()),
        };
        r
    }
}

#[verifier::external_type_specification]
#[verifier::external_body]
pub struct ExIoError(std::io::Error);

/// Relies on `Display` for `std::io::Error`: its text, which the platform
/// may word.
#[verifier::external_body]
fn io_error_text(e: &std::io::Error) -> String {
    e.to_string()
}

/// Puts an explanation in front of an error, turning it into a generic
/// error whose message is the explanation, `": "`, and the error's text.
pub trait ErrorContext<T>: Sized {
    /// Whether this is an error.
    spec fn is_failure(&self) -> bool;

    fn with_context<F: FnOnce() -> String>(self, f: F) -> (r: Result<T, AuboError>)
        requires
            self.is_failure() ==> f.requires(()),
        ensures
            r is Err <==> self.is_failure(),
            r is Err ==> r matches Err(AuboError::Generic { .. }),
    ;

    fn context(self, msg: &'static str) -> (r: Result<T, AuboError>)
        ensures
            r is Err <==> self.is_failure(),
            r is Err ==> (r matches Err(AuboError::Generic { message }) && starts_with(
                message@,
                msg@ + ": "@,
            )),
    ;
}

impl<T> ErrorContext<T> for Result<T, AuboError> {
    open spec fn is_failure(&self) -> bool {
        self is Err
    }

    fn with_context<F: FnOnce() -> String>(self, f: F) -> (r: Result<T, AuboError>) {
        match self {
            Ok(v) => Ok(v),
            Err(e) => {
                let c = f();
                let text = e.message();
                let message = cat3(c.as_str(), ": ", text.as_str());

                Err(AuboError::Generic { message })
            },
        }
    }

    fn context(self, msg: &'static str) -> (r: Result<T, AuboError>) {
        match self {
            Ok(v) => Ok(v),
            Err(e) => {
                let text = e.message();
                let message = cat3(msg, ": ", text.as_str());
                assert(message@.subrange(0, (msg@ + ": "@).len() as int) =~= msg@ + ": "@);
                assert(starts_with(message@, msg@ + ": "@));
                Err(AuboError::Generic { message })
            },
        }
    }
}

impl<T> ErrorContext<T> for Result<T, std::io::Error> {
    open spec fn is_failure(&self) -> bool {
        self is Err
    }

    fn with_context<F: FnOnce() -> String>(self, f: F) -> (r: Result<T, AuboError>) {
        match self {
            Ok(v) => Ok(v),
            Err(e) => {
                let c = f();
                let text = io_error_text(&e);
                let message = cat4(c.as_str(), ": ", "I/O error: ", text.as_str());

                Err(AuboError::Generic { message })
            },
        }
    }

    fn context(self, msg: &'static str) -> (r: Result<T, AuboError>) {
        match self {
            Ok(v) => Ok(v),
            Err(e) => {
                let text = io_error_text(&e);
                let message = cat4(msg, ": ", "I/O error: ", text.as_str());
                assert(message@.subrange(0, (msg@ + ": "@).len() as int) =~= msg@ + ": "@);
                assert(starts_with(message@, msg@ + ": "@));
                Err(AuboError::Generic { message })
            },
        }
    }
}

/// Builds a generic error.
pub fn generic_error(message: String) -> (r: AuboError)
    ensures
        r == (AuboError::Generic { message }),
{
    AuboError::Generic { message }
}

/// Builds an initialization error.
pub fn init_error(message: String) -> (r: AuboError)
    ensures
        r == AuboError::Initialization(message),
{
    AuboError::Initialization(message)
}

/// Builds a shutdown error.
pub fn shutdown_error(message: String) -> (r: AuboError)
    ensures
        r == AuboError::Shutdown(message),
{
    AuboError::Shutdown(message)
}

} // verus!
