//! Control plane of a micro-VM serverless runtime: a request scheduler that
//! places function invocations onto a pool of lightweight VM workers under
//! strict memory constraints, with warm-instance reuse and eviction.
//!
//! The crate verifies the scheduling logic itself: the cluster resource
//! ledger, the function catalog, the idle/running worker pools with their
//! invariants, the admission-control and eviction algorithm, and the metrics
//! bookkeeping.  Process management and I/O (booting the hypervisor, pipes,
//! threads) live outside the library and interact with it through plain
//! values: worker ids, timestamps, byte buffers.

pub mod cluster;
pub mod config;
pub mod controller;
pub mod metrics;
pub mod pool;
pub mod request;
pub mod transport;
