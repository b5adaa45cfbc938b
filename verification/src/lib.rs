//! oxiduct: a TCP/UDP proxy that cleans up after itself.
//!
//! What the proxy decides lives here, as values and steps over them; the program around
//! it holds the sockets, performs the actions that the steps ask for, and reports what
//! came of them.

pub mod addr;
pub mod cli;
pub mod clock;
pub mod config;
pub mod limits;
pub mod metrics;
pub mod proxy;
pub mod socket_opts;
pub mod supervisor;
pub mod text;
