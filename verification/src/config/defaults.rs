//! Built-in default tuning values, the single source of truth.

use vstd::prelude::*;

verus! {

pub const CONNECT_TIMEOUT_SECS: u64 = 3;

pub const KEEPALIVE_IDLE_SECS: u64 = 60;

pub const KEEPALIVE_INTERVAL_SECS: u64 = 10;

pub const KEEPALIVE_RETRIES: u32 = 6;

pub const USER_TIMEOUT_MS: u32 = 90_000;

pub const IDLE_TIMEOUT_SECS: u64 = 300;

pub const HALF_CLOSE_TIMEOUT_SECS: u64 = 30;

pub const SHUTDOWN_GRACE_SECS: u64 = 10;

/// Hard cap on simultaneous connections / UDP sessions per proxy. 0 = unlimited.
pub const MAX_CONNECTIONS: u32 = 32_000;

/// Hard cap on simultaneous connections / UDP sessions per source IP. 0 = unlimited.
pub const MAX_PER_IP: u32 = 320;

} // verus!
