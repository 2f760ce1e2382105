//! What the rest shares: merging into JSON objects, and when to try again.

pub mod jsonmerge;
pub mod retry;
