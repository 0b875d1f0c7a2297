//! Cache orchestration engine for a game launcher.
//!
//! The library validates, downloads, repairs and deletes per-version asset
//! caches under strict concurrency control: a registry guarantees at most one
//! operation per (cache kind, version id) key, a throttle bounds how many
//! validations and downloads run at once, and a progress aggregator coalesces
//! per-item events into periodic snapshots for an observer.  All decision
//! logic lives here with verified contracts; filesystem, network and GUI work
//! is delegated to the surrounding application.

pub mod cache;
pub mod config;
pub mod endpoint;
pub mod errors;
pub mod ids;
pub mod launchcmd;
pub mod orchestrator;
pub mod progress;
pub mod registry;
pub mod servers;
pub mod state;
pub mod textutil;
pub mod throttle;
pub mod tokens;
pub mod upgrade;
pub mod versions;
