//! The life of one TCP connection: connect, announce, relay, drain.

use vstd::prelude::*;

use crate::addr::SocketAddr;
use crate::config::ProxyConfig;
use crate::metrics::{CloseReason, MetricEvent};
use crate::proxy::proxy_protocol::v2_header;
use crate::proxy::tcp::watchdog::{WatchEvent, Watchdog};
use crate::proxy::tcp::Dir;

verus! {

/// What happens to a connection.
#[derive(Clone, Copy, Debug, PartialEq, Eq, Structural)]
pub enum ConnEvent {
    /// The upstream connect succeeded. `local` is the address that the client connected
    /// to, where it is known.
    Connected { local: Option<SocketAddr> },
    /// The upstream connect failed.
    ConnectFailed,
    /// The upstream connect timed out.
    ConnectTimedOut,
    /// The PROXY header has been written in full.
    Announced,
    /// The write of the PROXY header failed.
    AnnounceFailed,
    /// Something woke the watchdog.
    Watch { event: WatchEvent, now: u64, last_activity: u64 },
    /// Both directions have stopped.
    Drained,
}

/// What to do next.
#[derive(Clone, Copy, Debug, PartialEq, Eq, Structural)]
pub enum ConnAction {
    /// Write the pending PROXY header to the upstream.
    Announce,
    /// Start both directions and the watchdog.
    Relay,
    /// Wait for what wakes the watchdog next.
    Wait,
    /// Wait for both directions to stop; where `cancel`, tell them to.
    Drain { cancel: bool },
    /// Drop both sockets.
    Close,
    /// Nothing: the event was not one that this phase waits for.
    Ignore,
}

/// What a connection is doing.
enum ConnPhase {
    /// Connecting to the upstream.
    Connecting,
    /// Writing the PROXY header.
    Announcing(Vec<u8>),
    /// Relaying both directions.
    Relaying(Watchdog),
    /// Waiting for both directions to stop.
    Draining(CloseReason),
    /// Over.
    Closed,
}

/// One admitted connection.
pub struct Connection {
    peer: SocketAddr,
    announce: bool,
    idle_secs: u64,
    half_close_secs: u64,
    phase: ConnPhase,
}

// ── Model ────────────────────────────────────────────────────────────────────

/// What a connection is doing, as a value.
pub enum ConnStage {
    Connecting,
    Announcing(Seq<u8>),
    Relaying(Watchdog),
    Draining(CloseReason),
    Closed,
}

/// A connection as a value.
pub struct ConnView {
    /// The client.
    pub peer: SocketAddr,
    /// Whether the upstream is told who the client is.
    pub announce: bool,
    pub idle_secs: u64,
    pub half_close_secs: u64,
    pub stage: ConnStage,
}

impl View for Connection {
    type V = ConnView;

    closed spec fn view(&self) -> ConnView {
        ConnView {
            peer: self.peer,
            announce: self.announce,
            idle_secs: self.idle_secs,
            half_close_secs: self.half_close_secs,
            stage: match self.phase {
                ConnPhase::Connecting => ConnStage::Connecting,
                ConnPhase::Announcing(header) => ConnStage::Announcing(header@),
                ConnPhase::Relaying(watchdog) => ConnStage::Relaying(watchdog),
                ConnPhase::Draining(reason) => ConnStage::Draining(reason),
                ConnPhase::Closed => ConnStage::Closed,
            },
        }
    }
}

/// Whether a connection that ends for this reason has to be told to stop: where its
/// directions ended by themselves it has not.
pub open spec fn cancels(reason: CloseReason) -> bool {
    reason != CloseReason::Eof && reason != CloseReason::Reset
}

impl ConnView {
    /// An admitted connection from `peer`.
    pub open spec fn fresh(cfg: ProxyConfig, peer: SocketAddr) -> ConnView {
        ConnView {
            peer,
            announce: cfg.proxy_protocol,
            idle_secs: cfg.idle_timeout_secs,
            half_close_secs: cfg.half_close_timeout_secs,
            stage: ConnStage::Connecting,
        }
    }

    /// The stage in which the relay begins.
    pub open spec fn relay_start(self) -> ConnStage {
        ConnStage::Relaying(Watchdog::fresh(self.idle_secs, self.half_close_secs))
    }

    /// The stage after an event.
    pub open spec fn next_stage(self, event: ConnEvent) -> ConnStage {
        match (self.stage, event) {
            (ConnStage::Connecting, ConnEvent::Connected { local }) => if !self.announce {
                self.relay_start()
            } else {
                match local {
                    Some(dst) => ConnStage::Announcing(
                        crate::proxy::proxy_protocol::header(self.peer, dst),
                    ),
                    None => ConnStage::Closed,
                }
            },
            (ConnStage::Connecting, ConnEvent::ConnectFailed) => ConnStage::Closed,
            (ConnStage::Connecting, ConnEvent::ConnectTimedOut) => ConnStage::Closed,
            (ConnStage::Announcing(_), ConnEvent::Announced) => self.relay_start(),
            (ConnStage::Announcing(_), ConnEvent::AnnounceFailed) => ConnStage::Closed,
            (ConnStage::Relaying(w), ConnEvent::Watch { event, now, last_activity }) => match w.verdict(
                event,
                now,
                last_activity,
            ) {
                Some(reason) => ConnStage::Draining(reason),
                None => ConnStage::Relaying(w.after(event, now)),
            },
            (ConnStage::Draining(_), ConnEvent::Drained) => ConnStage::Closed,
            _ => self.stage,
        }
    }

    /// The connection after an event.
    pub open spec fn after(self, event: ConnEvent) -> ConnView {
        ConnView { stage: self.next_stage(event), ..self }
    }

    /// Whether the event is one that the connection waits for.
    pub open spec fn expects(self, event: ConnEvent) -> bool {
        match self.stage {
            ConnStage::Connecting => event is Connected || event is ConnectFailed || event
                is ConnectTimedOut,
            ConnStage::Announcing(_) => event is Announced || event is AnnounceFailed,
            ConnStage::Relaying(_) => event is Watch,
            ConnStage::Draining(_) => event is Drained,
            ConnStage::Closed => false,
        }
    }

    /// What to do on an event.
    pub open spec fn action(self, event: ConnEvent) -> ConnAction {
        if !self.expects(event) {
            ConnAction::Ignore
        } else {
            match self.next_stage(event) {
                ConnStage::Connecting => ConnAction::Ignore,
                ConnStage::Announcing(_) => ConnAction::Announce,
                ConnStage::Relaying(_) => if self.stage is Relaying {
                    ConnAction::Wait
                } else {
                    ConnAction::Relay
                },
                ConnStage::Draining(reason) => ConnAction::Drain { cancel: cancels(reason) },
                ConnStage::Closed => ConnAction::Close,
            }
        }
    }

    /// What the event adds to the metrics.
    pub open spec fn reported(self, event: ConnEvent) -> Seq<MetricEvent> {
        match (self.stage, event) {
            (ConnStage::Connecting, ConnEvent::ConnectFailed) => seq![MetricEvent::ConnectFailed],
            (ConnStage::Connecting, ConnEvent::Connected { local: None }) if self.announce => seq![
                MetricEvent::ConnectFailed,
            ],
            (ConnStage::Announcing(_), ConnEvent::AnnounceFailed) => seq![
                MetricEvent::ConnectFailed,
            ],
            (ConnStage::Connecting, ConnEvent::ConnectTimedOut) => seq![
                MetricEvent::ConnectTimedOut,
            ],
            (ConnStage::Draining(reason), ConnEvent::Drained) => seq![
                MetricEvent::Closed(reason, 1),
                MetricEvent::ActiveAdd((-1) as i64),
            ],
            _ => if !(self.stage is Relaying) && self.next_stage(event) is Relaying {
                seq![
                    MetricEvent::ActiveAdd(1),
                    MetricEvent::Relayed(Dir::Up, 0),
                    MetricEvent::Relayed(Dir::Down, 0),
                ]
            } else {
                Seq::empty()
            },
        }
    }
}

// ── Connection ───────────────────────────────────────────────────────────────

impl Connection {
    /// An admitted connection from `peer`: the upstream is to be connected to next.
    pub fn new(cfg: &ProxyConfig, peer: SocketAddr) -> (r: Connection)
        ensures
            r@ == ConnView::fresh(*cfg, peer),
    {
        Connection {
            peer,
            announce: cfg.proxy_protocol,
            idle_secs: cfg.idle_timeout_secs,
            half_close_secs: cfg.half_close_timeout_secs,
            phase: ConnPhase::Connecting,
        }
    }

    /// The PROXY header to write, while it is being written.
    pub fn pending_header(&self) -> (r: Option<&Vec<u8>>)
        ensures
            match r {
                Some(header) => self@.stage == ConnStage::Announcing(header@),
                None => !(self@.stage is Announcing),
            },
    {
        match &self.phase {
            ConnPhase::Announcing(header) => Some(header),
            _ => None,
        }
    }

    /// How many milliseconds to wait for an event while relaying before the watchdog is to
    /// be woken.
    pub fn wake_ms(&self, now: u64, last_activity: u64) -> (r: Option<u64>)
        ensures
            match r {
                Some(wake) => {
                    &&& self@.stage is Relaying
                    &&& wake == self@.stage->Relaying_0.wake(now, last_activity)
                },
                None => !(self@.stage is Relaying),
            },
    {
        match &self.phase {
            ConnPhase::Relaying(watchdog) => Some(watchdog.wake_ms(now, last_activity)),
            _ => None,
        }
    }

    /// Why the connection ends, while it drains.
    pub fn close_reason(&self) -> (r: Option<CloseReason>)
        ensures
            match r {
                Some(reason) => self@.stage == ConnStage::Draining(reason),
                None => !(self@.stage is Draining),
            },
    {
        match &self.phase {
            ConnPhase::Draining(reason) => Some(*reason),
            _ => None,
        }
    }

    fn start_relay(&mut self) -> (r: (ConnAction, Vec<MetricEvent>))
        ensures
            final(self)@ == (ConnView { stage: old(self)@.relay_start(), ..old(self)@ }),
            r.0 == ConnAction::Relay,
            r.1@ == seq![
                MetricEvent::ActiveAdd(1),
                MetricEvent::Relayed(Dir::Up, 0),
                MetricEvent::Relayed(Dir::Down, 0),
            ],
    {
        self.phase = ConnPhase::Relaying(Watchdog::new(self.idle_secs, self.half_close_secs));
        let events = vec![
            MetricEvent::ActiveAdd(1),
            MetricEvent::Relayed(Dir::Up, 0),
            MetricEvent::Relayed(Dir::Down, 0),
        ];
        assert(events@ =~= seq![
            MetricEvent::ActiveAdd(1),
            MetricEvent::Relayed(Dir::Up, 0),
            MetricEvent::Relayed(Dir::Down, 0),
        ]);
        (ConnAction::Relay, events)
    }

    /// Take an event in. Returns what to do next and what to record.
    pub fn on_event(&mut self, event: ConnEvent) -> (r: (ConnAction, Vec<MetricEvent>))
        ensures
            final(self)@ == old(self)@.after(event),
            r.0 == old(self)@.action(event),
            r.1@ == old(self)@.reported(event),
    {
        match (&mut self.phase, event) {
            (ConnPhase::Connecting, ConnEvent::Connected { local }) => {
                if !self.announce {
                    return self.start_relay();
                }
                match local {
                    Some(dst) => {
                        self.phase = ConnPhase::Announcing(v2_header(self.peer, dst));
                        (ConnAction::Announce, Vec::new())
                    },
                    // Nothing to announce: as good as no upstream.
                    None => {
                        self.phase = ConnPhase::Closed;
                        (ConnAction::Close, vec![MetricEvent::ConnectFailed])
                    },
                }
            },
            (ConnPhase::Connecting, ConnEvent::ConnectFailed) => {
                self.phase = ConnPhase::Closed;
                (ConnAction::Close, vec![MetricEvent::ConnectFailed])
            },
            (ConnPhase::Connecting, ConnEvent::ConnectTimedOut) => {
                self.phase = ConnPhase::Closed;
                (ConnAction::Close, vec![MetricEvent::ConnectTimedOut])
            },
            (ConnPhase::Announcing(_), ConnEvent::Announced) => self.start_relay(),
            (ConnPhase::Announcing(_), ConnEvent::AnnounceFailed) => {
                self.phase = ConnPhase::Closed;
                (ConnAction::Close, vec![MetricEvent::ConnectFailed])
            },
            (ConnPhase::Relaying(watchdog), ConnEvent::Watch { event, now, last_activity }) => {
                match watchdog.on_event(event, now, last_activity) {
                    Some(reason) => {
                        self.phase = ConnPhase::Draining(reason);
                        let cancel = match reason {
                            CloseReason::Eof | CloseReason::Reset => false,
                            _ => true,
                        };
                        (ConnAction::Drain { cancel }, Vec::new())
                    },
                    None => (ConnAction::Wait, Vec::new()),
                }
            },
            (ConnPhase::Draining(reason), ConnEvent::Drained) => {
                let reason = *reason;
                self.phase = ConnPhase::Closed;
                (
                    ConnAction::Close,
                    vec![MetricEvent::Closed(reason, 1), MetricEvent::ActiveAdd(-1)],
                )
            },
            _ => (ConnAction::Ignore, Vec::new()),
        }
    }
}

// ── Laws ─────────────────────────────────────────────────────────────────────

/// By how much one report moves the gauge of active connections.
pub open spec fn active_change(event: MetricEvent) -> int {
    match event {
        MetricEvent::ActiveAdd(n) => n as int,
        _ => 0,
    }
}

/// How many connections one report closes.
pub open spec fn closed_count(event: MetricEvent) -> int {
    match event {
        MetricEvent::Closed(_, n) => n as int,
        _ => 0,
    }
}

/// How many connections one report counts as over: closed, or never relayed because the
/// upstream could not be reached.
pub open spec fn over_count(event: MetricEvent) -> int {
    match event {
        MetricEvent::Closed(_, n) => n as int,
        MetricEvent::ConnectFailed => 1,
        MetricEvent::ConnectTimedOut => 1,
        _ => 0,
    }
}

/// How many connections some reports count as over.
pub open spec fn over_counts(events: Seq<MetricEvent>) -> int
    decreases events.len(),
{
    if events.len() == 0 {
        0
    } else {
        over_counts(events.drop_last()) + over_count(events.last())
    }
}

/// By how much some reports move the gauge of active connections.
pub open spec fn active_changes(events: Seq<MetricEvent>) -> int
    decreases events.len(),
{
    if events.len() == 0 {
        0
    } else {
        active_changes(events.drop_last()) + active_change(events.last())
    }
}

/// How many connections some reports close.
pub open spec fn closed_counts(events: Seq<MetricEvent>) -> int
    decreases events.len(),
{
    if events.len() == 0 {
        0
    } else {
        closed_counts(events.drop_last()) + closed_count(events.last())
    }
}

impl ConnView {
    /// The connection after a history of events.
    pub open spec fn after_all(self, events: Seq<ConnEvent>) -> ConnView
        decreases events.len(),
    {
        if events.len() == 0 {
            self
        } else {
            self.after_all(events.drop_last()).after(events.last())
        }
    }

    /// All that a history adds to the metrics.
    pub open spec fn all_reported(self, events: Seq<ConnEvent>) -> Seq<MetricEvent>
        decreases events.len(),
    {
        if events.len() == 0 {
            Seq::empty()
        } else {
            self.all_reported(events.drop_last()) + self.after_all(events.drop_last()).reported(
                events.last(),
            )
        }
    }

    /// Whether the connection counts as active.
    pub open spec fn is_active(self) -> bool {
        self.stage is Relaying || self.stage is Draining
    }
}

proof fn lemma_tallies_add(a: Seq<MetricEvent>, b: Seq<MetricEvent>)
    ensures
        active_changes(a + b) == active_changes(a) + active_changes(b),
        closed_counts(a + b) == closed_counts(a) + closed_counts(b),
        over_counts(a + b) == over_counts(a) + over_counts(b),
    decreases b.len(),
{
    if b.len() == 0 {
        assert(a + b =~= a);
    } else {
        assert((a + b).drop_last() =~= a + b.drop_last());
        lemma_tallies_add(a, b.drop_last());
    }
}

proof fn lemma_step_tallies(v: ConnView, event: ConnEvent)
    ensures
        active_changes(v.reported(event)) == (if v.after(event).is_active() {
            1int
        } else {
            0
        }) - (if v.is_active() {
            1int
        } else {
            0
        }),
        closed_counts(v.reported(event)) == if v.is_active() && !v.after(event).is_active() {
            1int
        } else {
            0
        },
        over_counts(v.reported(event)) == if !(v.stage is Closed) && v.after(event).stage is Closed {
            1int
        } else {
            0
        },
{
    let r = v.reported(event);
    if r.len() > 0 {
        assert(r.drop_last().len() == r.len() - 1);
        reveal_with_fuel(active_changes, 4);
        reveal_with_fuel(closed_counts, 4);
        reveal_with_fuel(over_counts, 4);
    }
}

/// Whatever happens to a connection, the gauge of active connections stands one higher
/// exactly while it is relayed or drained, so on every way out it is back where it was.
pub proof fn law_active_gauge_is_balanced(
    cfg: ProxyConfig,
    peer: SocketAddr,
    events: Seq<ConnEvent>,
)
    ensures
        active_changes(ConnView::fresh(cfg, peer).all_reported(events)) == if ConnView::fresh(
            cfg,
            peer,
        ).after_all(events).is_active() {
            1int
        } else {
            0
        },
    decreases events.len(),
{
    let start = ConnView::fresh(cfg, peer);
    if events.len() > 0 {
        let init = events.drop_last();
        law_active_gauge_is_balanced(cfg, peer, init);
        lemma_step_tallies(start.after_all(init), events.last());
        lemma_tallies_add(start.all_reported(init), start.after_all(init).reported(events.last()));
    }
}

/// Whether a history brings the connection to relaying.
pub open spec fn relays(start: ConnView, events: Seq<ConnEvent>) -> bool
    decreases events.len(),
{
    events.len() > 0 && (relays(start, events.drop_last()) || start.after_all(events).stage
        is Relaying)
}

/// A connection that was relayed is closed once, under one reason, when it ends; one that
/// was not is never counted as closed.
pub proof fn law_relayed_connection_closes_once(
    cfg: ProxyConfig,
    peer: SocketAddr,
    events: Seq<ConnEvent>,
)
    ensures
        ({
            let start = ConnView::fresh(cfg, peer);
            let now = start.after_all(events);
            &&& closed_counts(start.all_reported(events)) == if relays(start, events)
                && now.stage is Closed {
                1int
            } else {
                0
            }
            &&& now.is_active() ==> relays(start, events)
            &&& relays(start, events) ==> now.is_active() || now.stage is Closed
        }),
    decreases events.len(),
{
    let start = ConnView::fresh(cfg, peer);
    if events.len() > 0 {
        let init = events.drop_last();
        law_relayed_connection_closes_once(cfg, peer, init);
        lemma_step_tallies(start.after_all(init), events.last());
        lemma_tallies_add(start.all_reported(init), start.after_all(init).reported(events.last()));
    }
}

/// Every connection is counted once when it is over, and not before: as closed, as failed
/// or as timed out.
pub proof fn law_every_connection_is_counted_once(
    cfg: ProxyConfig,
    peer: SocketAddr,
    events: Seq<ConnEvent>,
)
    ensures
        over_counts(ConnView::fresh(cfg, peer).all_reported(events)) == if ConnView::fresh(
            cfg,
            peer,
        ).after_all(events).stage is Closed {
            1int
        } else {
            0
        },
    decreases events.len(),
{
    let start = ConnView::fresh(cfg, peer);
    if events.len() > 0 {
        let init = events.drop_last();
        law_every_connection_is_counted_once(cfg, peer, init);
        lemma_step_tallies(start.after_all(init), events.last());
        lemma_tallies_add(start.all_reported(init), start.after_all(init).reported(events.last()));
    }
}

/// The upstream hears the announcement first, and only where it is asked for: with it, a
/// connection is relayed only after the header that names the client and the address it
/// connected to has been written; without it, no header is ever pending.
pub proof fn law_announcement_precedes_the_relay(v: ConnView, event: ConnEvent)
    ensures
        v.announce && !(v.stage is Relaying) && v.after(event).stage is Relaying ==> {
            &&& v.stage is Announcing
            &&& event is Announced
        },
        !(v.stage is Announcing) && v.after(event).stage is Announcing ==> {
            &&& v.announce
            &&& event matches ConnEvent::Connected { local: Some(dst) }
                && v.after(event).stage == ConnStage::Announcing(
                crate::proxy::proxy_protocol::header(v.peer, dst),
            )
        },
        v.stage is Announcing && v.after(event).stage is Announcing ==> v.after(event) == v,
{
}

/// A connection that is over stays over and reports nothing more.
pub proof fn law_closed_stays_closed(v: ConnView, events: Seq<ConnEvent>)
    requires
        v.stage is Closed,
    ensures
        v.after_all(events) == v,
        v.all_reported(events) == Seq::<MetricEvent>::empty(),
    decreases events.len(),
{
    if events.len() > 0 {
        law_closed_stays_closed(v, events.drop_last());
        assert(v.all_reported(events) =~= Seq::<MetricEvent>::empty());
    }
}

/// A connection keeps what its configuration says for as long as it lives: its client,
/// whether the client is announced, and both timeouts.
pub proof fn law_connection_keeps_its_configuration(
    cfg: ProxyConfig,
    peer: SocketAddr,
    events: Seq<ConnEvent>,
)
    ensures
        ({
            let v = ConnView::fresh(cfg, peer).after_all(events);
            &&& v.peer == peer
            &&& v.announce == cfg.proxy_protocol
            &&& v.idle_secs == cfg.idle_timeout_secs
            &&& v.half_close_secs == cfg.half_close_timeout_secs
            &&& v.stage matches ConnStage::Relaying(w) ==> {
                &&& w.idle_secs == cfg.idle_timeout_secs
                &&& w.half_close_secs == cfg.half_close_timeout_secs
            }
        }),
    decreases events.len(),
{
    if events.len() > 0 {
        law_connection_keeps_its_configuration(cfg, peer, events.drop_last());
    }
}

/// A connection is closed as idle only after the idle timeout of its configuration, and as
/// half-closed only where its configuration has a grace; and a connection that has been
/// silent for that timeout does not go on.
pub proof fn law_timeouts_are_those_configured(
    cfg: ProxyConfig,
    peer: SocketAddr,
    events: Seq<ConnEvent>,
    event: WatchEvent,
    now: u64,
    last_activity: u64,
)
    requires
        ConnView::fresh(cfg, peer).after_all(events).stage is Relaying,
    ensures
        ({
            let v = ConnView::fresh(cfg, peer).after_all(events);
            let next = v.after(ConnEvent::Watch { event, now, last_activity }).stage;
            &&& next == ConnStage::Draining(CloseReason::IdleTimeout) ==> {
                &&& cfg.idle_timeout_secs > 0
                &&& now - last_activity >= cfg.idle_timeout_secs * 1000
            }
            &&& next == ConnStage::Draining(CloseReason::HalfCloseTimeout) ==> {
                &&& cfg.half_close_timeout_secs > 0
                &&& v.stage->Relaying_0.half_close_since matches Some(since) && now - since
                    >= cfg.half_close_timeout_secs * 1000
            }
            &&& cfg.idle_timeout_secs > 0 && now - last_activity >= cfg.idle_timeout_secs * 1000
                ==> next is Draining
            &&& event == WatchEvent::Shutdown ==> next == ConnStage::Draining(CloseReason::Shutdown)
        }),
{
    law_connection_keeps_its_configuration(cfg, peer, events);
}

/// What a connection does on each event that it waits for.
pub proof fn law_connection_steps(v: ConnView, event: ConnEvent)
    ensures
        v.stage is Connecting ==> {
            &&& event matches ConnEvent::Connected { local } ==> {
                &&& !v.announce ==> v.after(event).stage is Relaying && v.action(event)
                    == ConnAction::Relay
                &&& v.announce && local is Some ==> {
                    &&& v.after(event).stage == ConnStage::Announcing(
                        crate::proxy::proxy_protocol::header(v.peer, local->0),
                    )
                    &&& v.action(event) == ConnAction::Announce
                    &&& v.reported(event).len() == 0
                }
                &&& v.announce && local is None ==> v.after(event).stage is Closed && v.action(
                    event,
                ) == ConnAction::Close && v.reported(event) == seq![MetricEvent::ConnectFailed]
            }
            &&& event is ConnectFailed ==> v.after(event).stage is Closed && v.action(event)
                == ConnAction::Close && v.reported(event) == seq![MetricEvent::ConnectFailed]
            &&& event is ConnectTimedOut ==> v.after(event).stage is Closed && v.action(event)
                == ConnAction::Close && v.reported(event) == seq![MetricEvent::ConnectTimedOut]
        },
        v.stage is Announcing ==> {
            &&& event is Announced ==> v.after(event).stage is Relaying && v.action(event)
                == ConnAction::Relay
            &&& event is AnnounceFailed ==> v.after(event).stage is Closed && v.action(event)
                == ConnAction::Close && v.reported(event) == seq![MetricEvent::ConnectFailed]
        },
        v.stage matches ConnStage::Relaying(w) ==> (event matches ConnEvent::Watch {
            event: seen,
            now,
            last_activity,
        } ==> {
            &&& v.reported(event).len() == 0
            &&& match w.verdict(seen, now, last_activity) {
                None => v.after(event).stage == ConnStage::Relaying(w.after(seen, now)) && v.action(
                    event,
                ) == ConnAction::Wait,
                Some(reason) => v.after(event).stage == ConnStage::Draining(reason) && v.action(
                    event,
                ) == (ConnAction::Drain {
                    cancel: reason == CloseReason::IdleTimeout || reason
                        == CloseReason::HalfCloseTimeout || reason == CloseReason::Shutdown,
                }),
            }
        }),
        v.stage matches ConnStage::Draining(reason) ==> (event is Drained ==> {
            &&& v.after(event).stage is Closed
            &&& v.action(event) == ConnAction::Close
            &&& v.reported(event).len() == 2
            &&& v.reported(event)[0] == MetricEvent::Closed(reason, 1)
            &&& v.reported(event)[1] matches MetricEvent::ActiveAdd(n) && n == -1
        }),
{
}

/// A relay begins with a fresh watchdog over the connection's own timeouts; the gauge of
/// active connections goes up by one, and both byte counts come to exist.
pub proof fn law_relay_begins_afresh(v: ConnView, event: ConnEvent)
    requires
        !(v.stage is Relaying),
        v.after(event).stage is Relaying,
    ensures
        ({
            let w = v.after(event).stage->Relaying_0;
            &&& w.idle_secs == v.idle_secs
            &&& w.half_close_secs == v.half_close_secs
            &&& !w.up_done && !w.down_done && !w.saw_error
            &&& w.channel_open
            &&& w.half_close_since is None
        }),
        v.reported(event) == seq![
            MetricEvent::ActiveAdd(1),
            MetricEvent::Relayed(Dir::Up, 0),
            MetricEvent::Relayed(Dir::Down, 0),
        ],
{
}

/// An event that a connection does not wait for changes nothing, and nothing is done or
/// reported; and no event ever changes the client, the announcement or the timeouts.
pub proof fn law_other_events_are_ignored(v: ConnView, event: ConnEvent)
    ensures
        v.after(event).peer == v.peer,
        v.after(event).announce == v.announce,
        v.after(event).idle_secs == v.idle_secs,
        v.after(event).half_close_secs == v.half_close_secs,
        ({
            ||| v.stage is Connecting && !(event is Connected || event is ConnectFailed || event
                is ConnectTimedOut)
            ||| v.stage is Announcing && !(event is Announced || event is AnnounceFailed)
            ||| v.stage is Relaying && !(event is Watch)
            ||| v.stage is Draining && !(event is Drained)
            ||| v.stage is Closed
        }) ==> {
            &&& v.after(event) == v
            &&& v.action(event) == ConnAction::Ignore
            &&& v.reported(event).len() == 0
        },
{
}

} // verus!
