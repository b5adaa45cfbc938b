//! UDP proxy: per-source-address session map with idle timeout.
//!
//! UDP is connectionless so sessions are tracked by source address. Each session gets an
//! ephemeral upstream socket. Liveness is L3 only: keepalive and TCP_USER_TIMEOUT don't
//! apply to UDP.
//!
//! As for TCP, what is decided is decided here, and whoever holds the sockets performs the
//! actions and reports back.

pub mod open;
pub mod relay;
pub mod sessions;
