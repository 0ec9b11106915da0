//! Decision logic of a keystroke relay: wire framing, key remapping,
//! reconnect bookkeeping and hub routing, each with a machine-checked contract.

pub mod client;
pub mod config;
pub mod frame;
pub mod keyboard;
pub mod protocol;
pub mod reconnectable_stream;
pub mod server;
