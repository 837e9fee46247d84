//! Flow classification and accounting for a packet-processing pipeline.
//!
//! The crate holds the decisions of the pipeline: how a connection is
//! identified and hashed, how a software flow table matches and evicts rules,
//! which hardware rules are installed and torn down, and how the receive loops
//! account for packets and cycles. Devices, clocks and files stay outside: the
//! functions here take what was read from them and say what to do next.

pub mod conn_fts;
pub mod conn_id;
pub mod conn_laws;
pub mod flow_drop;
pub mod flow_laws;
pub mod flow_model;
pub mod fx_hash;
pub mod fx_laws;
pub mod inbox;
pub mod lcore;
pub mod net;
pub mod offline;
pub mod offline_laws;
pub mod port;
pub mod stats;
pub mod sw_flow;
pub mod text;
pub mod text_laws;
pub mod time;
