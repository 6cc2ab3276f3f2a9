//! The engine's fixed sizing constants.

use vstd::prelude::*;

verus! {

/// Directories one frontier is expected to hold at most.
pub const MAX_DIRS: usize = 18000;

/// Directories a whole run is expected to record at most.
pub const MAX_DIRS_ALL: usize = 2000000;

/// Files one volume is expected to hold at most.
pub const MAX_FILES: usize = 2000000;

/// Files a whole run is expected to record at most.
pub const MAX_FILES_ALL: usize = 10000000;

/// Directory expansions in flight at once under admission control.
pub const MAX_CONCURRENT_READS: usize = 100;

/// Files a benchmark fixture directory is filled with.
pub const MAX_TEMP_FILES: usize = 50000;

/// Fixture files created per batch on a rotating disk.
pub const MAX_TEMP_FILES_HDD_BATCH: usize = 16;

/// Default worker-thread count of the execution substrate.
pub const WORKER_THREADS: usize = 22;

/// Default blocking-thread count of the execution substrate.
pub const BLOCKING_THREADS: usize = 44;

} // verus!
