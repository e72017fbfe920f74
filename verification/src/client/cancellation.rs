//! Generations of read work.

use vstd::prelude::*;

verus! {

/// Generation token used to invalidate in-flight SMB READ work.
///
/// Work remembers the generation that it was started in and is invalid once the token has moved
/// on. A token is not copied, so that none can go stale unseen: whoever shares one shares it by
/// reference. Advancing is synchronous; the actual SMB2 CANCEL packets are emitted by the READ engine so
/// transport ownership stays in one place.
#[derive(Debug, PartialEq, Eq, Structural)]
pub struct ReadCancellationToken {
    pub generation: u64,
}

impl ReadCancellationToken {
    /// A token in its first generation.
    pub fn new() -> (r: Self)
        ensures
            r.generation == 0,
    {
        ReadCancellationToken { generation: 0 }
    }

    /// The current generation.
    pub fn generation(&self) -> (r: u64)
        ensures
            r == self.generation,
    {
        self.generation
    }

    /// Whether work of a generation is still valid.
    pub fn is_current(&self, generation: u64) -> (r: bool)
        ensures
            r == (self.generation == generation),
    {
        self.generation == generation
    }

    /// Invalidates all work of the current generation and returns the next one.
    pub fn advance(&mut self) -> (r: u64)
        ensures
            r == final(self).generation,
            final(self).generation == next_generation(old(self).generation),
            final(self).generation != old(self).generation,
    {
        self.generation = self.generation.wrapping_add(1);
        self.generation
    }
}

/// The generation after another.
pub open spec fn next_generation(generation: u64) -> u64 {
    if generation == u64::MAX {
        0
    } else {
        (generation + 1) as u64
    }
}

impl Default for ReadCancellationToken {
    fn default() -> (r: Self)
        ensures
            r.generation == 0,
    {
        ReadCancellationToken::new()
    }
}

} // verus!
