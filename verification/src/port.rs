//! NIC ports and their receive queues.

use vstd::prelude::*;

verus! {

/// An identifier for a NIC port.
#[derive(Clone, Copy, Debug, PartialEq, Eq, PartialOrd, Ord, Hash, Structural)]
pub struct PortId(pub u16);

impl PortId {
    /// The port ID as u16.
    pub fn raw(&self) -> (r: u16)
        ensures
            r == self.0,
    {
        self.0
    }
}

/// An identifier for a receive queue of a port.
#[derive(Clone, Copy, Debug, PartialEq, Eq, PartialOrd, Ord, Hash, Structural)]
pub struct RxQueueId(pub u16);

impl RxQueueId {
    /// The queue ID as u16.
    pub fn raw(&self) -> (r: u16)
        ensures
            r == self.0,
    {
        self.0
    }
}

/// What a receive queue is for.
#[derive(Clone, Copy, Debug, PartialEq, Eq, PartialOrd, Ord, Hash, Structural)]
pub enum RxQueueType {
    /// Its packets go through the pipeline.
    Receive,
    /// Its packets are counted and dropped.
    Sink,
}

/// A receive queue.
#[derive(Clone, Copy, Debug, PartialEq, Eq, PartialOrd, Ord, Hash, Structural)]
pub struct RxQueue {
    /// The port.
    pub pid: PortId,
    /// The queue on that port.
    pub qid: RxQueueId,
    /// What it is for.
    pub ty: RxQueueType,
}

} // verus!
