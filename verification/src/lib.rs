//! Verified core of dloor: URL classification, configuration, download
//! requests and events, queue and history bookkeeping, error diagnosis and
//! the decisions of the command-line and terminal frontends.

pub mod text;
pub mod clock;
pub mod error;
pub mod platform;
pub mod diagnostics;
pub mod freshness;
pub mod transcode;
pub mod config;
pub mod download;
pub mod args;
pub mod deps;
pub mod history;
pub mod metadata;
pub mod queue;
pub mod progress;
pub mod cli;
pub mod job;
pub mod tui;
