//! The per-tool analyzers: what each makes of its tool's records once they are read.
pub mod amazon_q;
pub mod codex_cli;
pub mod droid_cli;
pub mod kilo_code;
pub mod kiro_cli;
pub mod opencode;
pub mod qwen_code;
pub mod warp_dev;
