//! Developer-mode rebuild orchestrator for a two-stage (native + web) project.
//!
//! The core is the classification-and-scheduling subsystem: an event
//! classifier that decides which filesystem changes are relevant, and a
//! debounced single-flight build scheduler (backlog + worker state machine).
//! Around it stand the build-plan generators for the native and web stages,
//! project discovery, asset hashing, and the helpers of the preview server.
//! All I/O (process execution, filesystem access, the watch subscription)
//! is left to the binary that embeds this library.

pub mod asset_hasher;
pub mod backlog_builder;
pub mod cleaner;
pub mod exec;
pub mod project;
pub mod project_info;
pub mod runner;
pub mod rust_builder;
pub mod script_runner;
pub mod serve;
pub mod web_builder;
pub mod text;
pub mod time;
pub mod watch;
