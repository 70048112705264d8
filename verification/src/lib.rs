//! A sharded key-value microbenchmark core: a deterministic random source,
//! a sharded counter store, and a workload planner, all with verified
//! contracts. Thread spawning, timing and reporting live outside the library.

pub mod report;
pub mod rng;
pub mod statm;
pub mod store;
pub mod workload;
