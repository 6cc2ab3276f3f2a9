//! Thread-pool sizing for the execution substrate, derived from the host's
//! logical core count.

use vstd::prelude::*;

verus! {

/// The core count actually used for sizing: a report of zero means four.
pub open spec fn effective_cores(cpu_cores: usize) -> usize {
    if cpu_cores == 0 {
        4
    } else {
        cpu_cores
    }
}

/// A host that reports zero cores is treated as having four.
pub fn get_number_of_cpu_cores() -> (r: usize)
    ensures
        1 <= r <= usize::MAX / 2,
{
    let reported = logical_core_count();
    let capped: usize = if reported > usize::MAX / 2 {
        usize::MAX / 2
    } else {
        reported
    };
    if capped == 0 {
        4
    } else {
        capped
    }
}

/// Worker- and blocking-thread counts for a given logical core count: one
/// tenth of the cores (rounded down) is set aside, the rest become worker
/// threads, and twice that many threads serve blocking calls.
pub fn size_threads(cpu_cores: usize) -> (r: (usize, usize))
    requires
        cpu_cores <= usize::MAX / 2,
    ensures
        r.0 == effective_cores(cpu_cores) - effective_cores(cpu_cores) / 10,
        r.1 == 2 * r.0,
{
    let cores: usize = if cpu_cores == 0 {
        4
    } else {
        cpu_cores
    };
    let worker_threads = cores - cores / 10;
    let blocking_threads = worker_threads * 2;
    (worker_threads, blocking_threads)
}

/// Thread counts for this host. The core count is whatever the machine
/// reports, so only the shape of the result is promised.
pub fn set_threads_count() -> (r: (usize, usize))
    ensures
        r.1 == 2 * r.0,
        r.0 >= 1,
{
    let cpu_cores = get_number_of_cpu_cores();
    size_threads(cpu_cores)
}

/// Relies on num_cpus::get for the host's logical core count; nothing is
/// assumed of the value it reports.
#[verifier::external_body]
fn logical_core_count() -> usize {
    num_cpus::get()
}

} // verus!
