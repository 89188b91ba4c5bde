//! A request policy engine for a system-wide content blocker: it turns an
//! intercepted URL into a block/allow verdict, ingests filter lists into the
//! rules that verdict consults, keeps request statistics, and tracks the
//! interception points that feed it.
pub mod config;
pub mod engine;
pub mod error;
pub mod filters;
pub mod hooks;
pub mod stats;
pub mod system;
pub mod text;
pub mod utils;

pub use system::{
    get_active_hook_count, get_loaded_filter_count, handle_companion_connection, initialize,
    should_block_request, shutdown, AuboSystem,
};
