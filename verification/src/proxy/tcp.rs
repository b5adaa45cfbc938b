//! TCP proxy: admission + per-connection relay with layered liveness.
//!
//! Liveness layers per connection (both inbound and outbound sockets):
//!   L1 – SO_KEEPALIVE + TCP_KEEPIDLE / TCP_KEEPINTVL / TCP_KEEPCNT   (socket_opts)
//!   L2 – TCP_USER_TIMEOUT                                              (socket_opts, Linux)
//!   L3 – Application idle timeout  (no bytes either direction → kill)
//!   L4 – Half-close grace          (one side EOF → deadline on other)
//!
//! What a proxy decides is decided here, one event at a time; whoever holds the sockets
//! performs the action that comes back and reports the next event.

pub mod connection;
pub mod copy;
pub mod watchdog;

use vstd::prelude::*;

use crate::addr::{IpAddr, SocketAddr};
use crate::config::Protocol;
use crate::limits::{ConnLimits, Guard, LimitsOp, LimitsView, Reject};
use crate::metrics::MetricEvent;

verus! {

/// Identifies a relay direction (for completion signalling + logs).
#[derive(Clone, Copy, Debug, PartialEq, Eq, Structural)]
pub enum Dir {
    /// client → upstream
    Up,
    /// upstream → client
    Down,
}

impl Dir {
    /// The direction's name in metrics and logs.
    pub open spec fn label_spec(self) -> Seq<char> {
        match self {
            Dir::Up => "up"@,
            Dir::Down => "down"@,
        }
    }

    /// The direction's name in metrics and logs.
    pub fn label(self) -> (r: &'static str)
        ensures
            r@ == self.label_spec(),
    {
        match self {
            Dir::Up => "up",
            Dir::Down => "down",
        }
    }
}

/// How a direction's copy loop ended.
#[derive(Clone, Copy, Debug, PartialEq, Eq, Structural)]
pub enum End {
    /// Clean EOF (read returned 0).
    Eof,
    /// Read or write error — typically a reset connection.
    Error,
}

// ── Accept loop ──────────────────────────────────────────────────────────────

/// What happens to the listener.
#[derive(Clone, Copy, Debug, PartialEq, Eq, Structural)]
pub enum ListenEvent {
    /// The proxy shuts down.
    Shutdown,
    /// A client connected.
    Accepted(SocketAddr),
    /// Accepting a client failed.
    AcceptFailed,
}

/// What to do next.
pub enum ListenAction {
    /// Stop listening.
    Stop,
    /// Serve the client. The slot is to be released when its connection is over.
    Serve(Guard),
    /// Drop the client's socket: a limit is reached.
    Refuse(Reject),
    /// Go on listening.
    Continue,
}

/// The limiter after an event.
pub open spec fn served(v: LimitsView, event: ListenEvent) -> LimitsView {
    match event {
        ListenEvent::Accepted(peer) => v.step(LimitsOp::Acquire(peer.ip_spec())),
        _ => v,
    }
}

/// What an event adds to the metrics.
pub open spec fn serve_record(v: LimitsView, event: ListenEvent) -> Option<MetricEvent> {
    match event {
        ListenEvent::Accepted(peer) => match v.rejection(peer.ip_spec()) {
            Some(reason) => Some(MetricEvent::Rejected(reason)),
            None => Some(MetricEvent::Accepted(Protocol::Tcp)),
        },
        _ => None,
    }
}

/// Whether `action` is what is to be done on an event: only shutdown stops the loop, and
/// only a client that the limiter admits is served.
pub open spec fn is_serve_action(v: LimitsView, event: ListenEvent, action: ListenAction) -> bool {
    match event {
        ListenEvent::Shutdown => action is Stop,
        ListenEvent::AcceptFailed => action is Continue,
        ListenEvent::Accepted(peer) => match v.rejection(peer.ip_spec()) {
            Some(reason) => action == ListenAction::Refuse(reason),
            None => action matches ListenAction::Serve(guard) && v.grants(peer.ip_spec(), guard),
        },
    }
}

/// One step of the accept loop: admit or refuse a client, stop on shutdown, and go on after
/// a failed accept, which is non-fatal. Returns what to do next and what to record.
///
/// Without a total cap, the number of slots must stay one that the limiter can count.
pub fn serve_step(limits: &mut ConnLimits, event: ListenEvent) -> (r: (
    ListenAction,
    Option<MetricEvent>,
))
    requires
        old(limits)@.wf(),
        old(limits)@.max_total == 0 ==> served(old(limits)@, event).total <= u32::MAX,
    ensures
        final(limits)@.wf(),
        final(limits)@ == served(old(limits)@, event),
        is_serve_action(old(limits)@, event, r.0),
        r.1 == serve_record(old(limits)@, event),
{
    match event {
        ListenEvent::Shutdown => (ListenAction::Stop, None),
        ListenEvent::AcceptFailed => (ListenAction::Continue, None),
        ListenEvent::Accepted(peer) => match limits.try_acquire(peer.ip()) {
            Ok(guard) => (
                ListenAction::Serve(guard),
                Some(MetricEvent::Accepted(Protocol::Tcp)),
            ),
            Err(reason) => (ListenAction::Refuse(reason), Some(MetricEvent::Rejected(reason))),
        },
    }
}

// ── Laws ─────────────────────────────────────────────────────────────────────

/// What happens to a listener and to the connections that it serves.
pub enum ServeOp {
    /// An event of the listener.
    Listen(ListenEvent),
    /// A connection from the address is over.
    Over(IpAddr),
}

/// The limiter's part of a history.
pub open spec fn limits_ops(ops: Seq<ServeOp>) -> Seq<LimitsOp>
    decreases ops.len(),
{
    if ops.len() == 0 {
        Seq::empty()
    } else {
        let init = limits_ops(ops.drop_last());
        match ops.last() {
            ServeOp::Listen(ListenEvent::Accepted(peer)) => init.push(
                LimitsOp::Acquire(peer.ip_spec()),
            ),
            ServeOp::Listen(_) => init,
            ServeOp::Over(ip) => init.push(LimitsOp::Release(ip)),
        }
    }
}

/// The limiter after a history.
pub open spec fn served_all(v: LimitsView, ops: Seq<ServeOp>) -> LimitsView
    decreases ops.len(),
{
    if ops.len() == 0 {
        v
    } else {
        let before = served_all(v, ops.drop_last());
        match ops.last() {
            ServeOp::Listen(event) => served(before, event),
            ServeOp::Over(ip) => before.step(LimitsOp::Release(ip)),
        }
    }
}

/// How many clients connect in a history.
pub open spec fn clients(ops: Seq<ServeOp>) -> nat
    decreases ops.len(),
{
    if ops.len() == 0 {
        0
    } else {
        clients(ops.drop_last()) + if ops.last() matches ServeOp::Listen(event) && event
            is Accepted {
            1nat
        } else {
            0
        }
    }
}

/// How often a history records an event in the metrics.
pub open spec fn recorded(v: LimitsView, ops: Seq<ServeOp>, what: MetricEvent) -> nat
    decreases ops.len(),
{
    if ops.len() == 0 {
        0
    } else {
        recorded(v, ops.drop_last(), what) + if ops.last() matches ServeOp::Listen(event)
            && serve_record(served_all(v, ops.drop_last()), event) == Some(what) {
            1nat
        } else {
            0
        }
    }
}

/// Every client that connects is counted once: as accepted, or as rejected under one
/// reason.
pub proof fn law_every_client_is_counted_once(v: LimitsView, ops: Seq<ServeOp>)
    ensures
        clients(ops) == recorded(v, ops, MetricEvent::Accepted(Protocol::Tcp)) + recorded(
            v,
            ops,
            MetricEvent::Rejected(Reject::Total),
        ) + recorded(v, ops, MetricEvent::Rejected(Reject::PerIp)),
    decreases ops.len(),
{
    if ops.len() > 0 {
        law_every_client_is_counted_once(v, ops.drop_last());
    }
}

proof fn lemma_served_all_is_after(v: LimitsView, ops: Seq<ServeOp>)
    ensures
        served_all(v, ops) == v.after(limits_ops(ops)),
    decreases ops.len(),
{
    if ops.len() > 0 {
        lemma_served_all_is_after(v, ops.drop_last());
        let init = limits_ops(ops.drop_last());
        let all = limits_ops(ops);
        if all.len() > init.len() {
            assert(all.drop_last() =~= init);
        }
    }
}

/// Whatever clients come and go, the connections being handled, which are those admitted
/// and not yet over, never exceed the total cap, nor those of one address the cap per
/// address.
pub proof fn law_handled_connections_stay_within_caps(
    max_total: u32,
    max_per_ip: u32,
    ops: Seq<ServeOp>,
    ip: IpAddr,
)
    requires
        crate::limits::slots_fit(LimitsView::fresh(max_total, max_per_ip), limits_ops(ops)),
    ensures
        ({
            let start = LimitsView::fresh(max_total, max_per_ip);
            let handled = start.live(limits_ops(ops), None);
            let handled_of_ip = start.live(limits_ops(ops), Some(ip));
            &&& served_all(start, ops).wf()
            &&& served_all(start, ops).total == handled
            &&& served_all(start, ops).count(ip) == handled_of_ip
            &&& max_total > 0 ==> handled <= max_total
            &&& max_per_ip > 0 ==> handled_of_ip <= max_per_ip
        }),
{
    let start = LimitsView::fresh(max_total, max_per_ip);
    lemma_served_all_is_after(start, ops);
    crate::limits::law_caps_always_hold(max_total, max_per_ip, limits_ops(ops));
    crate::limits::law_counts_are_the_live_slots(max_total, max_per_ip, limits_ops(ops), ip);
    assert(start.after(limits_ops(ops)).count(ip) == start.live(limits_ops(ops), Some(ip)));
}

/// What the accept loop does with a client: it is served, and holds a slot in its own name
/// from then on, exactly while both caps leave room for it; otherwise it is refused for the
/// cap that is reached, and nothing changes. Nothing but shutdown stops the loop.
pub proof fn law_serving_is_exact(v: LimitsView, event: ListenEvent, action: ListenAction)
    requires
        is_serve_action(v, event, action),
    ensures
        action is Stop <==> event is Shutdown,
        action is Continue <==> event is AcceptFailed,
        !(event is Accepted) ==> served(v, event) == v && serve_record(v, event) is None,
        event matches ListenEvent::Accepted(peer) ==> {
            let room = (v.max_total == 0 || v.total < v.max_total) && (v.max_per_ip == 0 || v.count(
                peer.ip_spec(),
            ) < v.max_per_ip);
            &&& action is Serve <==> room
            &&& action is Refuse <==> !room
            &&& room ==> {
                &&& action->Serve_0.ip_spec() == peer.ip_spec()
                &&& served(v, event) == v.acquired(peer.ip_spec())
                &&& serve_record(v, event) == Some(MetricEvent::Accepted(Protocol::Tcp))
            }
            &&& !room ==> {
                &&& served(v, event) == v
                &&& serve_record(v, event) == Some(MetricEvent::Rejected(action->Refuse_0))
                &&& action->Refuse_0 == if v.max_total > 0 && v.total >= v.max_total {
                    Reject::Total
                } else {
                    Reject::PerIp
                }
            }
        },
{
}

} // verus!
