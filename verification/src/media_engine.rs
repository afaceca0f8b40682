//! Counters and state markers of the media engine.
use vstd::prelude::*;

verus! {

/// Packet counters of a media engine.
#[derive(Clone, Copy, Debug)]
pub struct Metrics {
    pub packets_received: u64,
    pub packets_dropped: u64,
    pub jitter_samples: u64,
}

impl Metrics {
    pub fn new() -> (m: Self)
        ensures
            m.packets_received == 0,
            m.packets_dropped == 0,
            m.jitter_samples == 0,
    {
        Metrics { packets_received: 0, packets_dropped: 0, jitter_samples: 0 }
    }
}

#[derive(Clone, Copy, Debug, PartialEq, Eq, Structural)]
pub enum MediaError {
    InvalidState,
}

impl MediaError {
    /// The message of the error.
    pub fn message(&self) -> (s: &'static str)
        ensures
            s@ == "invalid state transition"@,
    {
        "invalid state transition"
    }
}

} // verus!
