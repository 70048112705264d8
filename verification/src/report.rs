//! The run result record: an immutable echo of the configuration plus
//! the measured duration and memory footprint, built once after all
//! workers have finished.

use vstd::prelude::*;

verus! {

/// The record a finished run emits. The read ratio is carried in
/// thousandths, as the workload discretizes it.
pub struct RunResult {
    pub runtime_label: String,
    pub model_label: String,
    pub thread_count: usize,
    pub effective_iterations: usize,
    pub keys: usize,
    pub read_ratio_millis: u64,
    pub seed: u64,
    pub duration_ms: u128,
    pub resident_memory_bytes: u64,
}

impl RunResult {
    /// Build the record; every field echoes its argument.
    pub fn new(
        runtime_label: String,
        model_label: String,
        thread_count: usize,
        effective_iterations: usize,
        keys: usize,
        read_ratio_millis: u64,
        seed: u64,
        duration_ms: u128,
        resident_memory_bytes: u64,
    ) -> (r: RunResult)
        ensures
            r.runtime_label == runtime_label,
            r.model_label == model_label,
            r.thread_count == thread_count,
            r.effective_iterations == effective_iterations,
            r.keys == keys,
            r.read_ratio_millis == read_ratio_millis,
            r.seed == seed,
            r.duration_ms == duration_ms,
            r.resident_memory_bytes == resident_memory_bytes,
    {
        RunResult {
            runtime_label,
            model_label,
            thread_count,
            effective_iterations,
            keys,
            read_ratio_millis,
            seed,
            duration_ms,
            resident_memory_bytes,
        }
    }
}

/// The runtime version label: the reported compiler version when one
/// is known, otherwise the word "unknown".
pub fn rustc_version_runtime(version: Option<&str>) -> (r: String)
    ensures
        match version {
            Some(s) => r@ == s@,
            None => r@ == "unknown"@,
        },
{
    match version {
        Some(s) => s.to_owned(),
        None => "unknown".to_owned(),
    }
}

} // verus!
