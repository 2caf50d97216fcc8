//! A line-oriented chat relay: the join handshake, the channel registry and
//! the per-connection decisions, with their contracts.

pub mod channels;
pub mod error;
pub mod join;
pub mod laws;
pub mod server;
