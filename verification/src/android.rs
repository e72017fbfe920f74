//! Thin Android/JNI bridge: opaque handles, limits, recovery of reads, and the arguments and
//! results that cross the Java boundary.

pub mod engine;
pub mod jni;
pub mod reconnect;

use vstd::prelude::*;

verus! {

/// Marker for the first Android bridge API generation.
pub const API_VERSION: u32 = 1;

} // verus!
