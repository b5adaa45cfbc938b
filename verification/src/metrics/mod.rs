//! Prometheus metrics: what the proxies count, and the exporter's answers.
//!
//! No global recorder: a single `Metrics` is threaded through the proxies. What happens to
//! a connection is reported as `MetricEvent`s, and each event moves one series.
//!
//! Cardinality note: labels are limited to `proxy`, `protocol`, `direction` and a small
//! fixed set of `reason` values. Source IPs are deliberately NOT used as labels — that
//! would let any client blow up series cardinality.

pub mod families;
pub mod http;
mod keys;
pub mod labels;
pub mod store;

use vstd::prelude::*;

use crate::config::Protocol;
use crate::limits::Reject;
use crate::metrics::families::{
    counter_families, gauge_families, register_counters,
    register_gauges, ACTIVE, BYTES_TOTAL, CONNECTIONS_CLOSED,
    CONNECTIONS_REJECTED, CONNECTIONS_TOTAL, CONNECT_FAILURES, CONNECT_TIMEOUTS,
    LIMIT_MAX_CONNECTIONS, LIMIT_MAX_PER_IP,
};
use crate::metrics::store::MetricStore;
use crate::proxy::tcp::Dir;

verus! {

/// Why a connection or session ended.
#[derive(Clone, Copy, Debug, PartialEq, Eq, Structural)]
pub enum CloseReason {
    /// Both directions ended cleanly.
    Eof,
    /// Both directions ended, at least one of them with an error.
    Reset,
    /// No byte moved for the idle timeout.
    IdleTimeout,
    /// One direction ended and the other did not follow in time.
    HalfCloseTimeout,
    /// The proxy shut down.
    Shutdown,
}

impl CloseReason {
    /// The value of the `reason` label.
    pub open spec fn label_spec(self) -> Seq<char> {
        match self {
            CloseReason::Eof => "eof"@,
            CloseReason::Reset => "reset"@,
            CloseReason::IdleTimeout => "idle_timeout"@,
            CloseReason::HalfCloseTimeout => "half_close_timeout"@,
            CloseReason::Shutdown => "shutdown"@,
        }
    }

    /// The value of the `reason` label.
    pub fn label(self) -> (r: &'static str)
        ensures
            r@ == self.label_spec(),
    {
        match self {
            CloseReason::Eof => "eof",
            CloseReason::Reset => "reset",
            CloseReason::IdleTimeout => "idle_timeout",
            CloseReason::HalfCloseTimeout => "half_close_timeout",
            CloseReason::Shutdown => "shutdown",
        }
    }
}

/// The value of the `protocol` label.
pub open spec fn protocol_label_spec(protocol: Protocol) -> Seq<char> {
    match protocol {
        Protocol::Tcp => "tcp"@,
        Protocol::Udp => "udp"@,
    }
}

/// The value of the `protocol` label.
pub fn protocol_label(protocol: Protocol) -> (r: &'static str)
    ensures
        r@ == protocol_label_spec(protocol),
{
    match protocol {
        Protocol::Tcp => "tcp",
        Protocol::Udp => "udp",
    }
}

/// The value of the `reason` label of a rejected connection.
pub open spec fn reject_label_spec(reason: Reject) -> Seq<char> {
    match reason {
        Reject::Total => "total"@,
        Reject::PerIp => "per_ip"@,
    }
}

/// The value of the `reason` label of a rejected connection.
pub fn reject_label(reason: Reject) -> (r: &'static str)
    ensures
        r@ == reject_label_spec(reason),
{
    match reason {
        Reject::Total => "total",
        Reject::PerIp => "per_ip",
    }
}

/// What a proxy reports.
#[derive(Clone, Copy, Debug, PartialEq, Eq, Structural)]
pub enum MetricEvent {
    /// A connection was accepted, or a UDP session opened.
    Accepted(Protocol),
    /// The limiter refused a connection.
    Rejected(Reject),
    /// The upstream connect failed.
    ConnectFailed,
    /// The upstream connect timed out.
    ConnectTimedOut,
    /// So many bytes were relayed. With 0 bytes the series comes to exist.
    Relayed(Dir, u64),
    /// So many connections or sessions were closed. With 0 of them the series comes to
    /// exist.
    Closed(CloseReason, u64),
    /// So many connections or sessions are active.
    ActiveSet(i64),
    /// So many more connections or sessions are active.
    ActiveAdd(i64),
    /// The configured total cap.
    MaxConnections(i64),
    /// The configured per-IP cap.
    MaxPerIp(i64),
}

/// The series of all families.
pub struct MetricsView {
    /// Connections accepted / UDP sessions opened. Labels: proxy, protocol.
    pub connections_total: store::CounterSeries,
    /// Connections refused by the limiter. Labels: proxy, reason (total|per_ip).
    pub connections_rejected: store::CounterSeries,
    /// Upstream connect failures (TCP). Labels: proxy.
    pub connect_failures: store::CounterSeries,
    /// Upstream connect timeouts (TCP). Labels: proxy.
    pub connect_timeouts: store::CounterSeries,
    /// Bytes relayed. Labels: proxy, direction (up|down).
    pub bytes_total: store::CounterSeries,
    /// Connections/sessions closed. Labels: proxy, reason.
    pub connections_closed: store::CounterSeries,
    /// Currently active connections / sessions. Labels: proxy.
    pub active: store::GaugeSeries,
    /// Configured total cap (0 = unlimited). Labels: proxy.
    pub limit_max_connections: store::GaugeSeries,
    /// Configured per-IP cap (0 = unlimited). Labels: proxy.
    pub limit_max_per_ip: store::GaugeSeries,
}

/// The values of the labels of the series that an event of `proxy` moves.
pub open spec fn label_values(proxy: Seq<char>, event: MetricEvent) -> Seq<Seq<char>> {
    match event {
        MetricEvent::Accepted(protocol) => seq![proxy, protocol_label_spec(protocol)],
        MetricEvent::Rejected(reason) => seq![proxy, reject_label_spec(reason)],
        MetricEvent::Relayed(dir, _) => seq![proxy, dir.label_spec()],
        MetricEvent::Closed(reason, _) => seq![proxy, reason.label_spec()],
        _ => seq![proxy],
    }
}

impl MetricsView {
    /// All families without a series.
    pub open spec fn fresh() -> MetricsView {
        MetricsView {
            connections_total: Map::empty(),
            connections_rejected: Map::empty(),
            connect_failures: Map::empty(),
            connect_timeouts: Map::empty(),
            bytes_total: Map::empty(),
            connections_closed: Map::empty(),
            active: Map::empty(),
            limit_max_connections: Map::empty(),
            limit_max_per_ip: Map::empty(),
        }
    }

    /// The series of the counters, family by family.
    pub open spec fn counters(self) -> Seq<store::CounterSeries> {
        seq![
            self.connections_total,
            self.connections_rejected,
            self.connect_failures,
            self.connect_timeouts,
            self.bytes_total,
            self.connections_closed,
        ]
    }

    /// The series of the gauges, family by family.
    pub open spec fn gauges(self) -> Seq<store::GaugeSeries> {
        seq![self.active, self.limit_max_connections, self.limit_max_per_ip]
    }

    /// The metrics after `proxy` reported an event: one series moves.
    pub open spec fn after(self, proxy: Seq<char>, event: MetricEvent) -> MetricsView {
        let values = label_values(proxy, event);
        let key = store::series_key(values);
        match event {
            MetricEvent::Accepted(_) => MetricsView {
                connections_total: store::counted(self.connections_total, key, values, 1),
                ..self
            },
            MetricEvent::Rejected(_) => MetricsView {
                connections_rejected: store::counted(self.connections_rejected, key, values, 1),
                ..self
            },
            MetricEvent::ConnectFailed => MetricsView {
                connect_failures: store::counted(self.connect_failures, key, values, 1),
                ..self
            },
            MetricEvent::ConnectTimedOut => MetricsView {
                connect_timeouts: store::counted(self.connect_timeouts, key, values, 1),
                ..self
            },
            MetricEvent::Relayed(_, n) => MetricsView {
                bytes_total: store::counted(self.bytes_total, key, values, n),
                ..self
            },
            MetricEvent::Closed(_, n) => MetricsView {
                connections_closed: store::counted(self.connections_closed, key, values, n),
                ..self
            },
            MetricEvent::ActiveSet(n) => MetricsView {
                active: store::levelled(self.active, key, values, n),
                ..self
            },
            MetricEvent::ActiveAdd(n) => MetricsView {
                active: store::shifted(self.active, key, values, n),
                ..self
            },
            MetricEvent::MaxConnections(n) => MetricsView {
                limit_max_connections: store::levelled(self.limit_max_connections, key, values, n),
                ..self
            },
            MetricEvent::MaxPerIp(n) => MetricsView {
                limit_max_per_ip: store::levelled(self.limit_max_per_ip, key, values, n),
                ..self
            },
        }
    }

    /// The metrics after `proxy` reported some events, one after the other.
    pub open spec fn after_all(self, proxy: Seq<char>, events: Seq<MetricEvent>) -> MetricsView
        decreases events.len(),
    {
        if events.len() == 0 {
            self
        } else {
            self.after_all(proxy, events.drop_last()).after(proxy, events.last())
        }
    }

    /// The text that the exporter shows for these series.
    pub open spec fn text(self) -> Seq<u8> {
        store::exposition(counter_families(), self.counters(), gauge_families(), self.gauges())
    }
}

/// All metric families, registered against one private registry.
pub struct Metrics {
    store: MetricStore,
}

impl View for Metrics {
    type V = MetricsView;

    closed spec fn view(&self) -> MetricsView {
        let counters = store::counter_series(self.store);
        let gauges = store::gauge_series(self.store);
        MetricsView {
            connections_total: counters[0],
            connections_rejected: counters[1],
            connect_failures: counters[2],
            connect_timeouts: counters[3],
            bytes_total: counters[4],
            connections_closed: counters[5],
            active: gauges[0],
            limit_max_connections: gauges[1],
            limit_max_per_ip: gauges[2],
        }
    }
}

impl Metrics {
    /// All families are registered.
    pub closed spec fn wf(self) -> bool {
        &&& store::registered_counters(self.store) == counter_families()
        &&& store::counter_series(self.store).len() == counter_families().len()
        &&& store::registered_gauges(self.store) == gauge_families()
        &&& store::gauge_series(self.store).len() == gauge_families().len()
    }

    /// All families, registered and without a series.
    pub fn new() -> (r: Metrics)
        ensures
            r.wf(),
            r@ == MetricsView::fresh(),
    {
        proof {
            crate::metrics::families::lemma_texts();
            crate::metrics::families::lemma_families_are_acceptable();
            crate::metrics::keys::lemma_names_are_told_apart();
        }
        let mut store = MetricStore::new();
        assert(store::registered_counters(store) =~= counter_families().take(0));
        assert(store::registered_gauges(store) =~= gauge_families().take(0));
        register_counters(
            &mut store,
            CONNECTIONS_TOTAL,
            "oxiduct_connections_total",
            "Connections accepted / UDP sessions opened",
            &["proxy", "protocol"],
        );
        register_counters(
            &mut store,
            CONNECTIONS_REJECTED,
            "oxiduct_connections_rejected_total",
            "Connections refused by the connection limiter",
            &["proxy", "reason"],
        );
        register_counters(
            &mut store,
            CONNECT_FAILURES,
            "oxiduct_connect_failures_total",
            "Upstream TCP connect failures",
            &["proxy"],
        );
        register_counters(
            &mut store,
            CONNECT_TIMEOUTS,
            "oxiduct_connect_timeouts_total",
            "Upstream TCP connect timeouts",
            &["proxy"],
        );
        register_counters(
            &mut store,
            BYTES_TOTAL,
            "oxiduct_bytes_total",
            "Bytes relayed",
            &["proxy", "direction"],
        );
        register_counters(
            &mut store,
            CONNECTIONS_CLOSED,
            "oxiduct_connections_closed_total",
            "Connections / sessions closed, by reason",
            &["proxy", "reason"],
        );
        register_gauges(
            &mut store,
            ACTIVE,
            "oxiduct_active_connections",
            "Currently active connections / sessions",
            &["proxy"],
        );
        register_gauges(
            &mut store,
            LIMIT_MAX_CONNECTIONS,
            "oxiduct_max_connections",
            "Configured total connection cap (0 = unlimited)",
            &["proxy"],
        );
        register_gauges(
            &mut store,
            LIMIT_MAX_PER_IP,
            "oxiduct_max_per_ip",
            "Configured per-source-IP connection cap (0 = unlimited)",
            &["proxy"],
        );
        assert(store::registered_counters(store) =~= counter_families());
        assert(store::registered_gauges(store) =~= gauge_families());
        Metrics { store }
    }

    /// Move the series that an event of `proxy` is about.
    pub fn record(&mut self, proxy: &str, event: MetricEvent)
        requires
            old(self).wf(),
        ensures
            final(self).wf(),
            final(self)@ == old(self)@.after(proxy@, event),
    {
        proof {
            crate::metrics::families::lemma_texts();
        }
        match event {
            MetricEvent::Accepted(protocol) => {
                self.store.count(CONNECTIONS_TOTAL, &[proxy, protocol_label(protocol)], 1)
            },
            MetricEvent::Rejected(reason) => {
                self.store.count(CONNECTIONS_REJECTED, &[proxy, reject_label(reason)], 1)
            },
            MetricEvent::ConnectFailed => self.store.count(CONNECT_FAILURES, &[proxy], 1),
            MetricEvent::ConnectTimedOut => self.store.count(CONNECT_TIMEOUTS, &[proxy], 1),
            MetricEvent::Relayed(dir, n) => self.store.count(BYTES_TOTAL, &[proxy, dir.label()], n),
            MetricEvent::Closed(reason, n) => {
                self.store.count(CONNECTIONS_CLOSED, &[proxy, reason.label()], n)
            },
            MetricEvent::ActiveSet(n) => self.store.level(ACTIVE, &[proxy], n),
            MetricEvent::ActiveAdd(n) => self.store.shift(ACTIVE, &[proxy], n),
            MetricEvent::MaxConnections(n) => self.store.level(LIMIT_MAX_CONNECTIONS, &[proxy], n),
            MetricEvent::MaxPerIp(n) => self.store.level(LIMIT_MAX_PER_IP, &[proxy], n),
        }
    }

    /// Move the series that some events of `proxy` are about, one after the other.
    pub fn record_all(&mut self, proxy: &str, events: &Vec<MetricEvent>)
        requires
            old(self).wf(),
        ensures
            final(self).wf(),
            final(self)@ == old(self)@.after_all(proxy@, events@),
    {
        let mut i: usize = 0;
        while i < events.len()
            invariant
                i <= events.len(),
                self.wf(),
                self@ == old(self)@.after_all(proxy@, events@.take(i as int)),
            decreases events.len() - i,
        {
            assert(events@.take(i + 1).drop_last() =~= events@.take(i as int));
            self.record(proxy, events[i]);
            i += 1;
        }
        assert(events@.take(i as int) =~= events@);
    }

    /// Render the registry in Prometheus text exposition format.
    pub fn render(&self) -> (r: Vec<u8>)
        requires
            self.wf(),
        ensures
            r@ == self@.text(),
    {
        assert(store::counter_series(self.store) =~= self@.counters());
        assert(store::gauge_series(self.store) =~= self@.gauges());
        self.store.text()
    }
}

// ── Laws ─────────────────────────────────────────────────────────────────────

/// Whether two families of counters differ in the series with this key at most.
pub open spec fn counters_agree_beside(
    a: store::CounterSeries,
    b: store::CounterSeries,
    key: u64,
) -> bool {
    a.remove(key) == b.remove(key)
}

/// Whether two families of gauges differ in the series with this key at most.
pub open spec fn gauges_agree_beside(
    a: store::GaugeSeries,
    b: store::GaugeSeries,
    key: u64,
) -> bool {
    a.remove(key) == b.remove(key)
}

/// An event moves the series with its own labels and no other: every series under
/// another key is as it was, in every family.
pub proof fn law_series_are_isolated(v: MetricsView, proxy: Seq<char>, event: MetricEvent)
    ensures
        ({
            let key = store::series_key(label_values(proxy, event));
            let w = v.after(proxy, event);
            &&& forall|i: int|
                0 <= i < v.counters().len() ==> counters_agree_beside(
                    #[trigger] v.counters()[i],
                    w.counters()[i],
                    key,
                )
            &&& forall|i: int|
                0 <= i < v.gauges().len() ==> gauges_agree_beside(
                    #[trigger] v.gauges()[i],
                    w.gauges()[i],
                    key,
                )
        }),
{
    let key = store::series_key(label_values(proxy, event));
    let w = v.after(proxy, event);
    assert forall|i: int| 0 <= i < v.counters().len() implies counters_agree_beside(
        #[trigger] v.counters()[i],
        w.counters()[i],
        key,
    ) by {
        assert(v.counters()[i].remove(key) =~= w.counters()[i].remove(key));
    }
    assert forall|i: int| 0 <= i < v.gauges().len() implies gauges_agree_beside(
        #[trigger] v.gauges()[i],
        w.gauges()[i],
        key,
    ) by {
        assert(v.gauges()[i].remove(key) =~= w.gauges()[i].remove(key));
    }
}

/// How much an event adds to a counter.
pub open spec fn count_of(event: MetricEvent) -> u64 {
    match event {
        MetricEvent::Relayed(_, n) => n,
        MetricEvent::Closed(_, n) => n,
        _ => 1,
    }
}

/// Counters never fall and no series goes away, as long as no counter runs past the
/// largest `u64`.
pub proof fn law_counters_never_fall(v: MetricsView, proxy: Seq<char>, event: MetricEvent)
    requires
        forall|i: int, key: u64|
            0 <= i < v.counters().len() && (#[trigger] v.counters()[i]).contains_key(key)
                ==> #[trigger] v.counters()[i][key].1 + count_of(event) <= u64::MAX,
    ensures
        forall|i: int, key: u64|
            0 <= i < v.counters().len() && (#[trigger] v.counters()[i]).contains_key(key) ==> {
                let w = v.after(proxy, event);
                &&& w.counters()[i].contains_key(key)
                &&& w.counters()[i][key].0 == v.counters()[i][key].0
                &&& w.counters()[i][key].1 >= #[trigger] v.counters()[i][key].1
            },
{
}

/// A connection that comes and goes leaves the gauge of active connections where it was.
pub proof fn law_active_returns(v: MetricsView, proxy: Seq<char>)
    ensures
        ({
            let key = store::series_key(seq![proxy]);
            let w = v.after(proxy, MetricEvent::ActiveAdd(1)).after(
                proxy,
                MetricEvent::ActiveAdd((-1) as i64),
            );
            &&& w.active.contains_key(key)
            &&& w.active[key].1 == if v.active.contains_key(key) {
                v.active[key].1
            } else {
                0
            }
            &&& w.active.remove(key) == v.active.remove(key)
        }),
{
    let key = store::series_key(seq![proxy]);
    let w = v.after(proxy, MetricEvent::ActiveAdd(1)).after(proxy, MetricEvent::ActiveAdd((-1) as i64));
    assert(w.active.remove(key) =~= v.active.remove(key));
}

/// Setting a gauge twice is setting it once, to the later value.
pub proof fn law_active_keeps_the_last_setting(v: MetricsView, proxy: Seq<char>, a: i64, b: i64)
    ensures
        v.after(proxy, MetricEvent::ActiveSet(a)).after(proxy, MetricEvent::ActiveSet(b))
            == v.after(proxy, MetricEvent::ActiveSet(b)),
{
    let once = v.after(proxy, MetricEvent::ActiveSet(b));
    let twice = v.after(proxy, MetricEvent::ActiveSet(a)).after(proxy, MetricEvent::ActiveSet(b));
    assert(twice.active =~= once.active);
}

/// Whether a counter of a family grew by so much, from 0 where it did not exist, and
/// starts over past the largest `u64`; a new one gets these labels, an old one keeps its.
pub open spec fn counter_grew(
    old: store::CounterSeries,
    new: store::CounterSeries,
    values: Seq<Seq<char>>,
    by: int,
) -> bool {
    let key = store::series_key(values);
    let before = if old.contains_key(key) {
        old[key].1 as int
    } else {
        0
    };
    &&& new.contains_key(key)
    &&& new[key].0 == if old.contains_key(key) {
        old[key].0
    } else {
        values
    }
    &&& before + by <= u64::MAX ==> new[key].1 == before + by
    &&& before + by > u64::MAX ==> new[key].1 == before + by - 0x1_0000_0000_0000_0000
    &&& new.remove(key) == old.remove(key)
}

/// Whether a gauge of a family now stands at this level; a new one gets these labels, an
/// old one keeps its.
pub open spec fn gauge_stands(
    old: store::GaugeSeries,
    new: store::GaugeSeries,
    values: Seq<Seq<char>>,
    at: int,
) -> bool {
    let key = store::series_key(values);
    &&& new.contains_key(key)
    &&& new[key].0 == if old.contains_key(key) {
        old[key].0
    } else {
        values
    }
    &&& new[key].1 == at
    &&& new.remove(key) == old.remove(key)
}

/// What each event does to the metrics: the one series of its family that has the labels of
/// the event moves by what the event says, and every other family is as it was.
pub proof fn law_events_are_counted_exactly(v: MetricsView, proxy: Seq<char>, event: MetricEvent)
    ensures
        event matches MetricEvent::Accepted(protocol) ==> {
            let w = v.after(proxy, event);
            &&& counter_grew(v.connections_total, w.connections_total, seq![proxy, protocol_label_spec(protocol)], 1)
            &&& w.connections_rejected == v.connections_rejected
            &&& w.connect_failures == v.connect_failures
            &&& w.connect_timeouts == v.connect_timeouts
            &&& w.bytes_total == v.bytes_total
            &&& w.connections_closed == v.connections_closed
            &&& w.active == v.active
            &&& w.limit_max_connections == v.limit_max_connections
            &&& w.limit_max_per_ip == v.limit_max_per_ip
        },
        event matches MetricEvent::Rejected(reason) ==> {
            let w = v.after(proxy, event);
            &&& counter_grew(v.connections_rejected, w.connections_rejected, seq![proxy, reject_label_spec(reason)], 1)
            &&& w.connections_total == v.connections_total
            &&& w.connect_failures == v.connect_failures
            &&& w.connect_timeouts == v.connect_timeouts
            &&& w.bytes_total == v.bytes_total
            &&& w.connections_closed == v.connections_closed
            &&& w.active == v.active
            &&& w.limit_max_connections == v.limit_max_connections
            &&& w.limit_max_per_ip == v.limit_max_per_ip
        },
        event is ConnectFailed ==> {
            let w = v.after(proxy, event);
            &&& counter_grew(v.connect_failures, w.connect_failures, seq![proxy], 1)
            &&& w.connections_total == v.connections_total
            &&& w.connections_rejected == v.connections_rejected
            &&& w.connect_timeouts == v.connect_timeouts
            &&& w.bytes_total == v.bytes_total
            &&& w.connections_closed == v.connections_closed
            &&& w.active == v.active
            &&& w.limit_max_connections == v.limit_max_connections
            &&& w.limit_max_per_ip == v.limit_max_per_ip
        },
        event is ConnectTimedOut ==> {
            let w = v.after(proxy, event);
            &&& counter_grew(v.connect_timeouts, w.connect_timeouts, seq![proxy], 1)
            &&& w.connections_total == v.connections_total
            &&& w.connections_rejected == v.connections_rejected
            &&& w.connect_failures == v.connect_failures
            &&& w.bytes_total == v.bytes_total
            &&& w.connections_closed == v.connections_closed
            &&& w.active == v.active
            &&& w.limit_max_connections == v.limit_max_connections
            &&& w.limit_max_per_ip == v.limit_max_per_ip
        },
        event matches MetricEvent::Relayed(dir, n) ==> {
            let w = v.after(proxy, event);
            &&& counter_grew(v.bytes_total, w.bytes_total, seq![proxy, dir.label_spec()], n as int)
            &&& w.connections_total == v.connections_total
            &&& w.connections_rejected == v.connections_rejected
            &&& w.connect_failures == v.connect_failures
            &&& w.connect_timeouts == v.connect_timeouts
            &&& w.connections_closed == v.connections_closed
            &&& w.active == v.active
            &&& w.limit_max_connections == v.limit_max_connections
            &&& w.limit_max_per_ip == v.limit_max_per_ip
        },
        event matches MetricEvent::Closed(reason, n) ==> {
            let w = v.after(proxy, event);
            &&& counter_grew(v.connections_closed, w.connections_closed, seq![proxy, reason.label_spec()], n as int)
            &&& w.connections_total == v.connections_total
            &&& w.connections_rejected == v.connections_rejected
            &&& w.connect_failures == v.connect_failures
            &&& w.connect_timeouts == v.connect_timeouts
            &&& w.bytes_total == v.bytes_total
            &&& w.active == v.active
            &&& w.limit_max_connections == v.limit_max_connections
            &&& w.limit_max_per_ip == v.limit_max_per_ip
        },
        event matches MetricEvent::ActiveSet(n) ==> {
            let w = v.after(proxy, event);
            &&& gauge_stands(v.active, w.active, seq![proxy], n as int)
            &&& w.connections_total == v.connections_total
            &&& w.connections_rejected == v.connections_rejected
            &&& w.connect_failures == v.connect_failures
            &&& w.connect_timeouts == v.connect_timeouts
            &&& w.bytes_total == v.bytes_total
            &&& w.connections_closed == v.connections_closed
            &&& w.limit_max_connections == v.limit_max_connections
            &&& w.limit_max_per_ip == v.limit_max_per_ip
        },
        event matches MetricEvent::MaxConnections(n) ==> {
            let w = v.after(proxy, event);
            &&& gauge_stands(v.limit_max_connections, w.limit_max_connections, seq![proxy], n as int)
            &&& w.connections_total == v.connections_total
            &&& w.connections_rejected == v.connections_rejected
            &&& w.connect_failures == v.connect_failures
            &&& w.connect_timeouts == v.connect_timeouts
            &&& w.bytes_total == v.bytes_total
            &&& w.connections_closed == v.connections_closed
            &&& w.active == v.active
            &&& w.limit_max_per_ip == v.limit_max_per_ip
        },
        event matches MetricEvent::MaxPerIp(n) ==> {
            let w = v.after(proxy, event);
            &&& gauge_stands(v.limit_max_per_ip, w.limit_max_per_ip, seq![proxy], n as int)
            &&& w.connections_total == v.connections_total
            &&& w.connections_rejected == v.connections_rejected
            &&& w.connect_failures == v.connect_failures
            &&& w.connect_timeouts == v.connect_timeouts
            &&& w.bytes_total == v.bytes_total
            &&& w.connections_closed == v.connections_closed
            &&& w.active == v.active
            &&& w.limit_max_connections == v.limit_max_connections
        },
        event matches MetricEvent::ActiveAdd(n) ==> {
            let w = v.after(proxy, event);
            let key = store::series_key(seq![proxy]);
            let before = if v.active.contains_key(key) {
                v.active[key].1 as int
            } else {
                0
            };
            &&& i64::MIN <= before + n <= i64::MAX ==> gauge_stands(
                v.active,
                w.active,
                seq![proxy],
                before + n,
            )
            &&& before + n > i64::MAX ==> gauge_stands(
                v.active,
                w.active,
                seq![proxy],
                before + n - 0x1_0000_0000_0000_0000,
            )
            &&& before + n < i64::MIN ==> gauge_stands(
                v.active,
                w.active,
                seq![proxy],
                before + n + 0x1_0000_0000_0000_0000,
            )
            &&& w.connections_total == v.connections_total
            &&& w.connections_rejected == v.connections_rejected
            &&& w.connect_failures == v.connect_failures
            &&& w.connect_timeouts == v.connect_timeouts
            &&& w.bytes_total == v.bytes_total
            &&& w.connections_closed == v.connections_closed
            &&& w.limit_max_connections == v.limit_max_connections
            &&& w.limit_max_per_ip == v.limit_max_per_ip
        },
{
    let w = v.after(proxy, event);
    let key = store::series_key(label_values(proxy, event));
    assert(w.connections_total.remove(key) =~= v.connections_total.remove(key));
    assert(w.connections_rejected.remove(key) =~= v.connections_rejected.remove(key));
    assert(w.connect_failures.remove(key) =~= v.connect_failures.remove(key));
    assert(w.connect_timeouts.remove(key) =~= v.connect_timeouts.remove(key));
    assert(w.bytes_total.remove(key) =~= v.bytes_total.remove(key));
    assert(w.connections_closed.remove(key) =~= v.connections_closed.remove(key));
    assert(w.active.remove(key) =~= v.active.remove(key));
    assert(w.limit_max_connections.remove(key) =~= v.limit_max_connections.remove(key));
    assert(w.limit_max_per_ip.remove(key) =~= v.limit_max_per_ip.remove(key));
}

/// The labels are the documented ones.
pub proof fn law_labels_are_documented()
    ensures
        protocol_label_spec(Protocol::Tcp) == "tcp"@,
        protocol_label_spec(Protocol::Udp) == "udp"@,
        reject_label_spec(Reject::Total) == "total"@,
        reject_label_spec(Reject::PerIp) == "per_ip"@,
        Dir::Up.label_spec() == "up"@,
        Dir::Down.label_spec() == "down"@,
        CloseReason::Eof.label_spec() == "eof"@,
        CloseReason::Reset.label_spec() == "reset"@,
        CloseReason::IdleTimeout.label_spec() == "idle_timeout"@,
        CloseReason::HalfCloseTimeout.label_spec() == "half_close_timeout"@,
        CloseReason::Shutdown.label_spec() == "shutdown"@,
{
}

/// Events take effect one after the other, in order; no event has no effect, and before the
/// first one there is no series.
pub proof fn law_events_take_effect_in_order(
    v: MetricsView,
    proxy: Seq<char>,
    first: Seq<MetricEvent>,
    later: Seq<MetricEvent>,
)
    ensures
        v.after_all(proxy, Seq::empty()) == v,
        v.after_all(proxy, first + later) == v.after_all(proxy, first).after_all(proxy, later),
        forall|event: MetricEvent| #[trigger]
            v.after_all(proxy, seq![event]) == v.after(proxy, event),
        MetricsView::fresh().connections_total.dom() == Set::<u64>::empty(),
        MetricsView::fresh().connections_rejected.dom() == Set::<u64>::empty(),
        MetricsView::fresh().connect_failures.dom() == Set::<u64>::empty(),
        MetricsView::fresh().connect_timeouts.dom() == Set::<u64>::empty(),
        MetricsView::fresh().bytes_total.dom() == Set::<u64>::empty(),
        MetricsView::fresh().connections_closed.dom() == Set::<u64>::empty(),
        MetricsView::fresh().active.dom() == Set::<u64>::empty(),
        MetricsView::fresh().limit_max_connections.dom() == Set::<u64>::empty(),
        MetricsView::fresh().limit_max_per_ip.dom() == Set::<u64>::empty(),
    decreases later.len(),
{
    assert forall|event: MetricEvent| #[trigger]
        v.after_all(proxy, seq![event]) == v.after(proxy, event) by {
        assert(seq![event].drop_last() =~= Seq::<MetricEvent>::empty());
        reveal_with_fuel(MetricsView::after_all, 2);
    }
    if later.len() == 0 {
        assert(first + later =~= first);
    } else {
        assert((first + later).drop_last() =~= first + later.drop_last());
        law_events_take_effect_in_order(v, proxy, first, later.drop_last());
    }
    assert(MetricsView::fresh().connections_total.dom() =~= Set::<u64>::empty());
    assert(MetricsView::fresh().connections_rejected.dom() =~= Set::<u64>::empty());
    assert(MetricsView::fresh().connect_failures.dom() =~= Set::<u64>::empty());
    assert(MetricsView::fresh().connect_timeouts.dom() =~= Set::<u64>::empty());
    assert(MetricsView::fresh().bytes_total.dom() =~= Set::<u64>::empty());
    assert(MetricsView::fresh().connections_closed.dom() =~= Set::<u64>::empty());
    assert(MetricsView::fresh().active.dom() =~= Set::<u64>::empty());
    assert(MetricsView::fresh().limit_max_connections.dom() =~= Set::<u64>::empty());
    assert(MetricsView::fresh().limit_max_per_ip.dom() =~= Set::<u64>::empty());
}

} // verus!
