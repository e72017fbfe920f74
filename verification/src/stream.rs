//! High-throughput positional I/O policy for SMB files: adaptive read-ahead, bounded range caching,
//! cancellation generations, and workload metrics.

pub mod broker;
pub mod video;

use vstd::prelude::*;

verus! {

/// Scheduling classes used by the stream request broker, the least urgent first.
#[derive(Clone, Copy, Debug, PartialEq, Eq, PartialOrd, Ord)]
pub enum IoPriority {
    Background,
    Transfer,
    SequentialPrefetch,
    Control,
    Interactive,
}

} // verus!
