//! The decisions of a Lightning node that runs beside a Bitcoin full node.

pub mod events;
pub mod fees;
pub mod hex;
pub mod ibd;
pub mod keys;
pub mod log;
pub mod memory;
pub mod monitor;
pub mod network;
pub mod node;
pub mod outpoint;
pub mod table;
pub mod text;
