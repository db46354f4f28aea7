//! A minimal RPC mechanism over Unix domain sockets, verified at its core.
//!
//! The library holds the parts with real invariants: the wire codec that
//! frames requests and responses, the server's dispatch decisions, the
//! bounded connection pool's accounting, and the synchronous client's
//! reconnect-once policy. Socket I/O itself lives outside the library and
//! feeds these functions plain byte values.

pub mod codec;
pub mod dispatch;
pub mod pool;
pub mod sync_client;
