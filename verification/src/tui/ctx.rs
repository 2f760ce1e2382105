//! Paths and names every view needs, resolved once at startup.

use vstd::prelude::*;

verus! {

/// Where things are on this machine, and what they are called. Holds no UI state.
#[derive(Debug)]
pub struct AppCtx {
    /// The home directory.
    pub home: String,
    /// The data root; schedules and caches live under it.
    pub data_root: String,
    /// The profiles configuration.
    pub cfg_path: String,
    /// The registry of installed plugins.
    pub registry_path: String,
    /// The directory the hub was launched from.
    pub cwd: String,
    /// What the assistant that drafts profiles is called.
    pub assistant: String,
    /// The program that runs the assistant.
    pub program: String,
}

} // verus!
