//! Identifiers of the cores that run the pipeline, and what the cores do.

pub mod datapath_budget;
pub mod logger;
pub mod monitor;
pub mod monitor_laws;
pub mod packet_tap;
pub mod port_stats;
pub mod rx_core;
pub mod rx_laws;
pub mod stats_laws;

use vstd::prelude::*;

use crate::text::{decimal, push_decimal};

verus! {

/// An identifier for a NUMA socket.
#[derive(Clone, Copy, Debug, PartialEq, Eq, PartialOrd, Ord, Hash, Structural)]
pub struct SocketId(pub u32);

impl SocketId {
    /// The socket ID in decimal.
    pub fn to_text(&self) -> (r: String)
        ensures
            r@ == decimal(self.0 as nat),
    {
        let mut out: String = String::new();
        push_decimal(&mut out, self.0 as u128);
        assert(out@ =~= decimal(self.0 as nat));
        out
    }

    /// The socket ID as u32.
    pub fn raw(&self) -> (r: u32)
        ensures
            r == self.0,
    {
        self.0
    }
}

/// An identifier for a core running the pipeline (sink, monitoring, or RX).
#[derive(Clone, Copy, Debug, PartialEq, Eq, PartialOrd, Ord, Hash, Structural)]
pub struct CoreId(pub u32);

impl CoreId {
    /// The core ID in decimal.
    pub fn to_text(&self) -> (r: String)
        ensures
            r@ == decimal(self.0 as nat),
    {
        let mut out: String = String::new();
        push_decimal(&mut out, self.0 as u128);
        assert(out@ =~= decimal(self.0 as nat));
        out
    }

    /// The core ID as u32.
    pub fn raw(&self) -> (r: u32)
        ensures
            r == self.0,
    {
        self.0
    }
}

} // verus!
