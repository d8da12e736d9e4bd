//! An output that never has anything to hand out.

use crate::lazybytes::Polled;
use vstd::prelude::*;

verus! {

pub struct RealtimeOutput {
    processed_bytes: usize,
}

impl RealtimeOutput {
    /// The number of bytes handed out so far.
    pub closed spec fn processed(&self) -> usize {
        self.processed_bytes
    }

    /// An output that has handed out nothing.
    pub fn new() -> (r: RealtimeOutput)
        ensures
            r.processed() == 0,
    {
        RealtimeOutput { processed_bytes: 0 }
    }

    /// There is never new data, and the output stays as it is.
    pub fn poll(&mut self) -> (r: Polled)
        ensures
            r is NoNewData,
            *final(self) == *old(self),
    {
        Polled::NoNewData
    }
}

} // verus!
