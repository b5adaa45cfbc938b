//! Socket-level liveness options of TCP streams.
//!
//! Layers:
//!  L1 – SO_KEEPALIVE + TCP_KEEPIDLE / TCP_KEEPINTVL / TCP_KEEPCNT
//!  L2 – TCP_USER_TIMEOUT  (Linux/Android only)

use vstd::prelude::*;

use crate::config::ProxyConfig;

verus! {

/// The keepalive settings of a socket.
#[derive(Clone, Copy, Debug, PartialEq, Eq, Structural)]
pub struct Keepalive {
    /// Idle time before the first probe (seconds).
    pub time_secs: u64,
    /// Time between probes (seconds), unless it is the system's.
    pub interval_secs: Option<u64>,
    /// Probes before the connection is dropped, unless it is the system's number.
    pub retries: Option<u32>,
}

/// The options to set on a socket.
#[derive(Clone, Copy, Debug, PartialEq, Eq, Structural)]
pub struct TcpOptions {
    /// L1: keepalive, where it is to be switched on.
    pub keepalive: Option<Keepalive>,
    /// L2: TCP_USER_TIMEOUT (milliseconds), unless it is the system's.
    pub user_timeout_ms: Option<u32>,
}

/// A setting, where 0 leaves it to the system.
pub open spec fn unless_zero_u64(value: u64) -> Option<u64> {
    if value > 0 {
        Some(value)
    } else {
        None
    }
}

/// A setting, where 0 leaves it to the system.
pub open spec fn unless_zero_u32(value: u32) -> Option<u32> {
    if value > 0 {
        Some(value)
    } else {
        None
    }
}

/// The options that the configuration asks for.
pub open spec fn tcp_options_spec(cfg: ProxyConfig) -> TcpOptions {
    TcpOptions {
        keepalive: if cfg.keepalive_idle_secs > 0 {
            Some(
                Keepalive {
                    time_secs: cfg.keepalive_idle_secs,
                    interval_secs: unless_zero_u64(cfg.keepalive_interval_secs),
                    retries: unless_zero_u32(cfg.keepalive_retries),
                },
            )
        } else {
            None
        },
        user_timeout_ms: unless_zero_u32(cfg.user_timeout_ms),
    }
}

/// The options that the configuration asks for. Keepalive is off without an idle time,
/// whatever the other settings say.
pub fn tcp_options(cfg: &ProxyConfig) -> (r: TcpOptions)
    ensures
        r == tcp_options_spec(*cfg),
{
    let keepalive = if cfg.keepalive_idle_secs > 0 {
        let interval_secs = if cfg.keepalive_interval_secs > 0 {
            Some(cfg.keepalive_interval_secs)
        } else {
            None
        };
        let retries = if cfg.keepalive_retries > 0 {
            Some(cfg.keepalive_retries)
        } else {
            None
        };
        Some(Keepalive { time_secs: cfg.keepalive_idle_secs, interval_secs, retries })
    } else {
        None
    };
    let user_timeout_ms = if cfg.user_timeout_ms > 0 {
        Some(cfg.user_timeout_ms)
    } else {
        None
    };
    TcpOptions { keepalive, user_timeout_ms }
}

/// The options say what the configuration says: keepalive is switched on exactly where it
/// has an idle time, each setting is handed on as it is, and one that is 0 is left to the
/// system.
pub proof fn law_options_follow_the_configuration(cfg: ProxyConfig)
    ensures
        tcp_options_spec(cfg).keepalive is Some <==> cfg.keepalive_idle_secs > 0,
        tcp_options_spec(cfg).keepalive matches Some(k) ==> {
            &&& k.time_secs == cfg.keepalive_idle_secs
            &&& k.interval_secs is Some <==> cfg.keepalive_interval_secs > 0
            &&& k.interval_secs is Some ==> k.interval_secs->0 == cfg.keepalive_interval_secs
            &&& k.retries is Some <==> cfg.keepalive_retries > 0
            &&& k.retries is Some ==> k.retries->0 == cfg.keepalive_retries
        },
        tcp_options_spec(cfg).user_timeout_ms is Some <==> cfg.user_timeout_ms > 0,
        tcp_options_spec(cfg).user_timeout_ms matches Some(ms) ==> ms == cfg.user_timeout_ms,
{
}

} // verus!
