//! Opening a UDP session: resolve the target, bind an upstream socket, connect it.

use vstd::prelude::*;
use vstd::string::*;

use crate::addr::{Ipv4Addr, Ipv6Addr, SocketAddr};
use crate::metrics::MetricEvent;
use crate::proxy::tcp::Dir;

verus! {

/// Why a session could not be opened.
#[derive(Clone, Copy, Debug, PartialEq, Eq, Structural)]
pub enum OpenError {
    /// The lookup of the target failed.
    Lookup,
    /// The lookup of the target gave no address.
    NoAddress,
    /// Binding the upstream socket failed.
    Bind,
    /// Connecting the upstream socket took too long.
    ConnectTimeout,
    /// Connecting the upstream socket failed.
    Connect,
}

impl OpenError {
    /// The message for the log.
    pub open spec fn message_spec(self, target: Seq<char>) -> Seq<char> {
        match self {
            OpenError::Lookup => "DNS lookup "@ + target,
            OpenError::NoAddress => "no address resolved for "@ + target,
            OpenError::Bind => "UDP upstream bind"@,
            OpenError::ConnectTimeout => "UDP connect timeout"@,
            OpenError::Connect => "UDP connect"@,
        }
    }

    /// The message for the log.
    pub fn message(self, target: &str) -> (r: String)
        ensures
            r@ == self.message_spec(target@),
    {
        match self {
            OpenError::Lookup => "DNS lookup ".to_owned().concat(target),
            OpenError::NoAddress => "no address resolved for ".to_owned().concat(target),
            OpenError::Bind => "UDP upstream bind".to_owned(),
            OpenError::ConnectTimeout => "UDP connect timeout".to_owned(),
            OpenError::Connect => "UDP connect".to_owned(),
        }
    }
}

/// What opening a session waits for.
#[derive(Clone, Copy, Debug, PartialEq, Eq, Structural)]
pub enum OpenStep {
    /// The lookup of the target.
    Resolve,
    /// The bind of the upstream socket, whose target this is.
    Bind { target: SocketAddr },
    /// The connect of the upstream socket.
    Connect { target: SocketAddr },
    /// Nothing: the session is open.
    Opened,
    /// Nothing: the session could not be opened.
    Failed(OpenError),
}

/// What came of a step.
pub enum OpenEvent {
    /// The lookup gave these addresses.
    Resolved(Vec<SocketAddr>),
    /// The lookup failed.
    LookupFailed,
    /// The upstream socket is bound.
    Bound,
    /// The bind failed.
    BindFailed,
    /// The upstream socket is connected.
    Connected,
    /// The connect failed.
    ConnectFailed,
    /// The connect took too long.
    ConnectTimedOut,
}

/// Where to bind the upstream socket: any address and port of the target's family.
pub open spec fn bind_addr_spec(target: SocketAddr) -> SocketAddr {
    match target {
        SocketAddr::V4 { .. } => SocketAddr::V4 { ip: Ipv4Addr { bits: 0 }, port: 0 },
        SocketAddr::V6 { .. } => SocketAddr::V6 {
            ip: Ipv6Addr { bits: 0 },
            port: 0,
            flowinfo: 0,
            scope_id: 0,
        },
    }
}

/// Where to bind the upstream socket: any address and port of the target's family.
pub fn bind_addr(target: SocketAddr) -> (r: SocketAddr)
    ensures
        r == bind_addr_spec(target),
{
    match target {
        SocketAddr::V4 { .. } => SocketAddr::V4 { ip: Ipv4Addr { bits: 0 }, port: 0 },
        SocketAddr::V6 { .. } => SocketAddr::V6 {
            ip: Ipv6Addr { bits: 0 },
            port: 0,
            flowinfo: 0,
            scope_id: 0,
        },
    }
}

impl OpenStep {
    /// The next step. The first address that the lookup gave is the target. An event that
    /// the step does not wait for changes nothing.
    pub open spec fn after(self, event: OpenEvent) -> OpenStep {
        match (self, event) {
            (OpenStep::Resolve, OpenEvent::Resolved(addrs)) => if addrs@.len() > 0 {
                OpenStep::Bind { target: addrs@[0] }
            } else {
                OpenStep::Failed(OpenError::NoAddress)
            },
            (OpenStep::Resolve, OpenEvent::LookupFailed) => OpenStep::Failed(OpenError::Lookup),
            (OpenStep::Bind { target }, OpenEvent::Bound) => OpenStep::Connect { target },
            (OpenStep::Bind { .. }, OpenEvent::BindFailed) => OpenStep::Failed(OpenError::Bind),
            (OpenStep::Connect { .. }, OpenEvent::Connected) => OpenStep::Opened,
            (OpenStep::Connect { .. }, OpenEvent::ConnectFailed) => OpenStep::Failed(
                OpenError::Connect,
            ),
            (OpenStep::Connect { .. }, OpenEvent::ConnectTimedOut) => OpenStep::Failed(
                OpenError::ConnectTimeout,
            ),
            _ => self,
        }
    }

    /// What an outcome adds to the metrics.
    pub open spec fn reported(self, event: OpenEvent) -> Seq<MetricEvent> {
        if self != OpenStep::Opened && self.after(event) == OpenStep::Opened {
            seq![MetricEvent::Relayed(Dir::Up, 0), MetricEvent::Relayed(Dir::Down, 0)]
        } else {
            Seq::empty()
        }
    }

    /// Take the outcome of a step in. Returns the next step and what to record: the two
    /// byte counts of a session come to exist when it is open.
    pub fn next(self, event: OpenEvent) -> (r: (OpenStep, Vec<MetricEvent>))
        ensures
            r.0 == self.after(event),
            r.1@ == self.reported(event),
            r.1@ == (if self != OpenStep::Opened && self.after(event) == OpenStep::Opened {
                seq![MetricEvent::Relayed(Dir::Up, 0), MetricEvent::Relayed(Dir::Down, 0)]
            } else {
                Seq::empty()
            }),
    {
        match (self, event) {
            (OpenStep::Resolve, OpenEvent::Resolved(addrs)) => {
                if addrs.len() > 0 {
                    (OpenStep::Bind { target: addrs[0] }, Vec::new())
                } else {
                    (OpenStep::Failed(OpenError::NoAddress), Vec::new())
                }
            },
            (OpenStep::Resolve, OpenEvent::LookupFailed) => {
                (OpenStep::Failed(OpenError::Lookup), Vec::new())
            },
            (OpenStep::Bind { target }, OpenEvent::Bound) => {
                (OpenStep::Connect { target }, Vec::new())
            },
            (OpenStep::Bind { .. }, OpenEvent::BindFailed) => {
                (OpenStep::Failed(OpenError::Bind), Vec::new())
            },
            (OpenStep::Connect { .. }, OpenEvent::Connected) => {
                let events = vec![
                    MetricEvent::Relayed(Dir::Up, 0),
                    MetricEvent::Relayed(Dir::Down, 0),
                ];
                assert(events@ =~= seq![
                    MetricEvent::Relayed(Dir::Up, 0),
                    MetricEvent::Relayed(Dir::Down, 0),
                ]);
                (OpenStep::Opened, events)
            },
            (OpenStep::Connect { .. }, OpenEvent::ConnectFailed) => {
                (OpenStep::Failed(OpenError::Connect), Vec::new())
            },
            (OpenStep::Connect { .. }, OpenEvent::ConnectTimedOut) => {
                (OpenStep::Failed(OpenError::ConnectTimeout), Vec::new())
            },
            _ => (self, Vec::new()),
        }
    }
}

// ── Laws ─────────────────────────────────────────────────────────────────────

/// The upstream socket is bound in the family of its target, so that it can be connected.
pub proof fn law_bind_address_matches_the_target(target: SocketAddr)
    ensures
        (bind_addr_spec(target) is V4) == (target is V4),
        bind_addr_spec(target).port_spec() == 0,
{
}

/// The step after some outcomes.
pub open spec fn after_all(step: OpenStep, events: Seq<OpenEvent>) -> OpenStep
    decreases events.len(),
{
    if events.len() == 0 {
        step
    } else {
        after_all(step, events.drop_last()).after(events.last())
    }
}

/// A session that is open, or could not be opened, stays so.
pub proof fn law_opening_is_final(step: OpenStep, events: Seq<OpenEvent>)
    requires
        step is Opened || step is Failed,
    ensures
        after_all(step, events) == step,
    decreases events.len(),
{
    if events.len() > 0 {
        law_opening_is_final(step, events.drop_last());
    }
}

/// What each outcome leads to: the first address of the lookup, whole, is the one that the
/// socket is bound for and then connected to; a lookup without an address and every failed
/// step end the attempt, each with its own error; and what the step does not wait for
/// changes nothing.
pub proof fn law_opening_steps(step: OpenStep, event: OpenEvent)
    ensures
        step is Resolve ==> {
            &&& event matches OpenEvent::Resolved(addrs) ==> {
                &&& addrs@.len() > 0 ==> step.after(event) == (OpenStep::Bind { target: addrs@[0] })
                &&& addrs@.len() == 0 ==> step.after(event) == OpenStep::Failed(
                    OpenError::NoAddress,
                )
            }
            &&& event is LookupFailed ==> step.after(event) == OpenStep::Failed(OpenError::Lookup)
            &&& !(event is Resolved || event is LookupFailed) ==> step.after(event) == step
        },
        step matches OpenStep::Bind { target } ==> {
            &&& event is Bound ==> step.after(event) == (OpenStep::Connect { target })
            &&& event is BindFailed ==> step.after(event) == OpenStep::Failed(OpenError::Bind)
            &&& !(event is Bound || event is BindFailed) ==> step.after(event) == step
        },
        step is Connect ==> {
            &&& event is Connected ==> step.after(event) == OpenStep::Opened
            &&& event is ConnectFailed ==> step.after(event) == OpenStep::Failed(OpenError::Connect)
            &&& event is ConnectTimedOut ==> step.after(event) == OpenStep::Failed(
                OpenError::ConnectTimeout,
            )
            &&& !(event is Connected || event is ConnectFailed || event is ConnectTimedOut)
                ==> step.after(event) == step
        },
        step is Connect && event is Connected ==> step.reported(event) == seq![
            MetricEvent::Relayed(Dir::Up, 0),
            MetricEvent::Relayed(Dir::Down, 0),
        ],
        !(step is Connect && event is Connected) ==> step.reported(event).len() == 0,
{
}

/// Whether a lookup of the history gave `target` as its first address.
pub open spec fn resolved_to(events: Seq<OpenEvent>, target: SocketAddr) -> bool {
    exists|i: int|
        0 <= i < events.len() && ((#[trigger] events[i]) matches OpenEvent::Resolved(addrs)
            && addrs@.len() > 0 && addrs@[0] == target)
}

/// The address that the socket is connected to is the first that the lookup gave, whole,
/// whatever its family and whatever else happened.
pub proof fn law_target_is_the_first_address(events: Seq<OpenEvent>)
    ensures
        after_all(OpenStep::Resolve, events) matches OpenStep::Bind { target } ==> resolved_to(
            events,
            target,
        ),
        after_all(OpenStep::Resolve, events) matches OpenStep::Connect { target } ==> resolved_to(
            events,
            target,
        ),
    decreases events.len(),
{
    if events.len() > 0 {
        let init = events.drop_last();
        law_target_is_the_first_address(init);
        let before = after_all(OpenStep::Resolve, init);
        law_opening_steps(before, events.last());
        assert(events[events.len() - 1] == events.last());
        assert forall|target: SocketAddr| resolved_to(init, target) implies resolved_to(
            events,
            target,
        ) by {
            let i = choose|i: int|
                0 <= i < init.len() && ((#[trigger] init[i]) matches OpenEvent::Resolved(addrs)
                    && addrs@.len() > 0 && addrs@[0] == target);
            assert(events[i] == init[i]);
        }
    }
}

/// The socket is bound to any address and any port: all bits are zero, in the target's
/// family.
pub proof fn law_bind_address_is_any_address(target: SocketAddr)
    ensures
        target is V4 ==> bind_addr_spec(target) == (SocketAddr::V4 {
            ip: Ipv4Addr { bits: 0 },
            port: 0,
        }),
        target is V6 ==> bind_addr_spec(target) == (SocketAddr::V6 {
            ip: Ipv6Addr { bits: 0 },
            port: 0,
            flowinfo: 0,
            scope_id: 0,
        }),
{
}

/// Each error says what failed, and of which target where it is about the name.
pub proof fn law_open_errors_read_as_messages(target: Seq<char>)
    ensures
        OpenError::Lookup.message_spec(target) == "DNS lookup "@ + target,
        OpenError::NoAddress.message_spec(target) == "no address resolved for "@ + target,
        OpenError::Bind.message_spec(target) == "UDP upstream bind"@,
        OpenError::ConnectTimeout.message_spec(target) == "UDP connect timeout"@,
        OpenError::Connect.message_spec(target) == "UDP connect"@,
{
}

} // verus!
