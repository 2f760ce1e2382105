//! What a profile is, what a scanned repo looks like, and which profiles apply to it.

pub mod config;
pub mod discover;
pub mod draft;
pub mod drift;
pub mod plugins;
pub mod scan_cache;
pub mod signal_detect;
