//! PlatformIO CLI argument construction and output parsing.
pub mod boards;
pub mod build_history;
pub mod build_outcome;
pub mod analysis;
pub mod check;
pub mod gates;
pub mod global_settings;
pub mod init;
pub mod packages;
pub mod pipeline;
pub mod registry;
pub mod run;
pub mod targets;
pub mod test;
