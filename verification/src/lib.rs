//! Usage statistics for agentic coding tools: the verified core.
pub mod time;
pub mod types;
pub mod aggregate;
pub mod text;
pub mod hashing;
pub mod json;
pub mod analyzers;
pub mod analyzer;
pub mod config;
pub mod conversations;
pub mod notifications;
pub mod utils;
pub mod incremental;
pub mod tui;
pub mod daily_table;
pub mod cli_view;
pub mod watcher;
pub mod upload;
pub mod daily;
pub mod locations;
pub mod pricing;
pub mod warp;
