//! The TCP proxy of one outbound guest connection, as decisions over plain
//! values: the caller performs the I/O and hands back what came of it.

pub mod address;
pub mod chunk;
pub mod handshake_laws;
pub mod laws;
pub mod peek;
pub mod reader;
pub mod run_laws;
pub mod socks;
pub mod task;
pub mod tunnel;
