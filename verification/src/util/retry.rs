//! When to try again to start a program.

use vstd::prelude::*;

verus! {

/// The system's error number for an executable that is open for writing.
pub const TEXT_BUSY: i32 = 26;

/// How often a start is tried again.
pub const RETRIES: u32 = 100;

/// How long to wait before another try.
pub const PAUSE_MS: u64 = 5;

/// Whether to try once more after `failures` failures and one with this error number: a
/// program that was just written may still be busy for a moment, and nothing else passes.
pub fn again(failures: u32, error: Option<i32>) -> (r: bool)
    ensures
        r == (failures < RETRIES && error == Some(TEXT_BUSY)),
        r == (failures < 100 && error == Some(26i32)),
{
    match error {
        Some(e) => failures < RETRIES && e == TEXT_BUSY,
        None => false,
    }
}

} // verus!
