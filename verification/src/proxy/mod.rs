//! The proxies, one per configured listener.

pub mod proxy_protocol;
pub mod tcp;
pub mod udp;

use vstd::prelude::*;

use crate::config::ProxyConfig;
use crate::metrics::MetricEvent;

verus! {

/// What a proxy records when it starts.
pub open spec fn start_record(cfg: ProxyConfig) -> Seq<MetricEvent> {
    seq![
        MetricEvent::MaxConnections(cfg.max_connections as i64),
        MetricEvent::MaxPerIp(cfg.max_per_ip as i64),
    ]
}

/// What a proxy records when it starts: the configured limits, as gauges up front.
pub fn start_events(cfg: &ProxyConfig) -> (r: Vec<MetricEvent>)
    ensures
        r@ == start_record(*cfg),
        r@ == seq![
            MetricEvent::MaxConnections(cfg.max_connections as i64),
            MetricEvent::MaxPerIp(cfg.max_per_ip as i64),
        ],
{
    let events = vec![
        MetricEvent::MaxConnections(cfg.max_connections as i64),
        MetricEvent::MaxPerIp(cfg.max_per_ip as i64),
    ];
    assert(events@ =~= seq![
        MetricEvent::MaxConnections(cfg.max_connections as i64),
        MetricEvent::MaxPerIp(cfg.max_per_ip as i64),
    ]);
    events
}

/// The gauges show each configured limit as it is.
pub proof fn law_limits_are_published(cfg: ProxyConfig)
    ensures
        start_record(cfg).len() == 2,
        start_record(cfg)[0] matches MetricEvent::MaxConnections(n) && n == cfg.max_connections,
        start_record(cfg)[1] matches MetricEvent::MaxPerIp(n) && n == cfg.max_per_ip,
{
}

} // verus!
