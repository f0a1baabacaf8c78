//! The state that the org node keeps between runs.
use vstd::prelude::*;

verus! {

/// Node state.
#[derive(Debug, Clone, Copy, PartialEq, Eq)]
pub struct State {
    /// Timestamp of last successful sync.
    pub timestamp: u64,
}

impl Default for State {
    /// A node that never synced: timestamp 0.
    fn default() -> (r: Self)
        ensures
            r.timestamp == 0,
    {
        State { timestamp: 0 }
    }
}

impl State {
    /// Records the timestamp of a processed project: the state keeps the
    /// latest timestamp it has seen. Returns whether the state changed, in
    /// which case it is to be written back to the store.
    pub fn advance(&mut self, timestamp: u64) -> (changed: bool)
        ensures
            changed == (timestamp > old(self).timestamp),
            final(self).timestamp == if changed {
                timestamp
            } else {
                old(self).timestamp
            },
            final(self).timestamp >= old(self).timestamp,
            final(self).timestamp >= timestamp,
    {
        if timestamp > self.timestamp {
            self.timestamp = timestamp;
            true
        } else {
            false
        }
    }
}

} // verus!
