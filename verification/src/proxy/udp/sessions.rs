//! The sessions of one UDP proxy.

use std::collections::BTreeMap;

use vstd::prelude::*;
use vstd::std_specs::iter::IteratorSpec;

use crate::addr::{IpAddr, SocketAddr, SocketKey};
use crate::config::{Protocol, ProxyConfig};
use crate::limits::{ConnLimits, Guard, LimitsView, Reject, Usage};
use crate::metrics::{CloseReason, MetricEvent};

verus! {

/// How long the idle sweep waits between two rounds, in milliseconds.
pub const SWEEP_TICK_MS: u64 = 5_000;

/// A session: one source address and the slot that it holds.
struct Session {
    src: SocketAddr,
    id: u64,
    last_activity: u64,
    slot: Guard,
}

/// A session whose upstream socket is being set up.
struct Opening {
    src: SocketAddr,
    last_activity: u64,
    slot: Guard,
}

/// All sessions of one proxy, with its limiter.
pub struct UdpSessions {
    idle_secs: u64,
    limits: ConnLimits,
    sessions: BTreeMap<SocketKey, Session>,
    opening: BTreeMap<u64, Opening>,
    next_id: u64,
}

/// What to do with a datagram.
#[derive(Clone, Copy, Debug, PartialEq, Eq, Structural)]
pub enum DatagramAction {
    /// Hand it to the relay of this session, or drop it where the relay is behind.
    Forward(u64),
    /// Keep it and open a session under this number. The notices say which caps are close.
    Open { id: u64, total_notice: Option<Usage>, per_ip_notice: Option<Usage> },
    /// Drop it: a limit is reached.
    Refuse(Reject),
}

/// What to do with a session whose upstream socket is set up.
#[derive(Clone, Copy, Debug, PartialEq, Eq, Structural)]
pub enum OpenedAction {
    /// Keep it and hand it the datagram.
    Keep,
    /// Tear it down and hand the datagram to this session, which was there first.
    Discard(u64),
    /// Tear it down: no session is being opened under its number.
    Unknown,
}

// ── Model ────────────────────────────────────────────────────────────────────

/// A session as a value.
pub struct SessionView {
    pub src: SocketAddr,
    /// The number under which it was opened.
    pub id: u64,
    /// When a datagram last passed, in milliseconds.
    pub last_activity: u64,
}

/// A session that is being opened, as a value.
pub struct OpeningView {
    pub src: SocketAddr,
    /// When its relay last moved a datagram, in milliseconds; 0 where it has not yet.
    pub last_activity: u64,
}

/// The sessions of one proxy as a value.
pub struct SessionsView {
    /// The idle timeout in seconds; 0 disables it.
    pub idle_secs: u64,
    pub limits: LimitsView,
    /// The sessions, by source.
    pub sessions: Map<SocketKey, SessionView>,
    /// The sessions that are being opened, by number.
    pub opening: Map<u64, OpeningView>,
    /// The number of the next session.
    pub next_id: nat,
}

/// How many sessions the address has.
pub open spec fn sessions_of(sessions: Map<SocketKey, SessionView>, ip: IpAddr) -> nat {
    sessions.dom().filter(|k: SocketKey| (k.0, k.1) == ip.key_spec()).len()
}

/// How many sessions of the address are being opened.
pub open spec fn openings_of(opening: Map<u64, OpeningView>, ip: IpAddr) -> nat {
    opening.dom().filter(|id: u64| opening[id].src.ip_spec() == ip).len()
}

impl SessionsView {
    /// No session yet.
    pub open spec fn fresh(cfg: ProxyConfig) -> SessionsView {
        SessionsView {
            idle_secs: cfg.idle_timeout_secs,
            limits: LimitsView::fresh(cfg.max_connections, cfg.max_per_ip),
            sessions: Map::empty(),
            opening: Map::empty(),
            next_id: 0,
        }
    }

    /// The invariant: each session stands under its source and has a number of its own,
    /// and every slot that is taken is held by one session, open or being opened.
    pub open spec fn wf(self) -> bool {
        &&& self.limits.wf()
        &&& self.sessions.dom().finite()
        &&& self.opening.dom().finite()
        &&& forall|k: SocketKey| #[trigger]
            self.sessions.contains_key(k) ==> {
                &&& self.sessions[k].src.key_spec() == k
                &&& self.sessions[k].id < self.next_id
                &&& !self.opening.contains_key(self.sessions[k].id)
            }
        &&& forall|a: SocketKey, b: SocketKey| #[trigger]
            self.sessions.contains_key(a) && #[trigger] self.sessions.contains_key(b)
                && self.sessions[a].id == self.sessions[b].id ==> a == b
        &&& forall|id: u64| #[trigger] self.opening.contains_key(id) ==> id < self.next_id
        &&& self.limits.total == self.sessions.len() + self.opening.len()
        &&& forall|ip: IpAddr| #[trigger]
            self.limits.count(ip) == sessions_of(self.sessions, ip) + openings_of(self.opening, ip)
    }

    /// Whether one more session can be numbered and counted.
    pub open spec fn can_open(self) -> bool {
        &&& self.next_id < u64::MAX
        &&& self.limits.max_total == 0 ==> self.limits.total < u32::MAX
    }

    /// Whether a datagram of the source can be taken in: it needs no new session, or one
    /// more can be numbered and counted.
    pub open spec fn can_take(self, src: SocketAddr) -> bool {
        !self.has(src) && self.limits.rejection(src.ip_spec()) is None ==> self.can_open()
    }

    /// Whether the source has a session.
    pub open spec fn has(self, src: SocketAddr) -> bool {
        self.sessions.contains_key(src.key_spec())
    }

    /// The source's session.
    pub open spec fn of(self, src: SocketAddr) -> SessionView {
        self.sessions[src.key_spec()]
    }

    /// The sessions once a datagram of the source has passed.
    pub open spec fn touched(self, src: SocketAddr, now: u64) -> SessionsView {
        SessionsView {
            sessions: self.sessions.insert(
                src.key_spec(),
                SessionView { last_activity: now, ..self.of(src) },
            ),
            ..self
        }
    }

    /// The sessions once the source was admitted and its session is being opened.
    pub open spec fn admitted(self, src: SocketAddr) -> SessionsView {
        SessionsView {
            limits: self.limits.acquired(src.ip_spec()),
            opening: self.opening.insert(
                self.next_id as u64,
                OpeningView { src, last_activity: 0 },
            ),
            next_id: self.next_id + 1,
            ..self
        }
    }

    /// What to do with a datagram of the source.
    pub open spec fn datagram_action(self, src: SocketAddr) -> DatagramAction {
        if self.has(src) {
            DatagramAction::Forward(self.of(src).id)
        } else {
            match self.limits.rejection(src.ip_spec()) {
                Some(reason) => DatagramAction::Refuse(reason),
                None => DatagramAction::Open {
                    id: self.next_id as u64,
                    total_notice: self.limits.total_notice_due(),
                    per_ip_notice: self.limits.per_ip_notice_due(src.ip_spec()),
                },
            }
        }
    }

    /// What a datagram of the source adds to the metrics.
    pub open spec fn datagram_record(self, src: SocketAddr) -> Option<MetricEvent> {
        match self.datagram_action(src) {
            DatagramAction::Refuse(reason) => Some(MetricEvent::Rejected(reason)),
            _ => None,
        }
    }

    /// The sessions once a datagram of the source was taken in.
    pub open spec fn after_datagram(self, src: SocketAddr, now: u64) -> SessionsView {
        match self.datagram_action(src) {
            DatagramAction::Forward(_) => self.touched(src, now),
            DatagramAction::Open { .. } => self.admitted(src),
            DatagramAction::Refuse(_) => self,
        }
    }

    /// What to do with a session whose upstream socket is set up.
    pub open spec fn opened_action(self, id: u64) -> OpenedAction {
        if !self.opening.contains_key(id) {
            OpenedAction::Unknown
        } else if self.has(self.opening[id].src) {
            OpenedAction::Discard(self.of(self.opening[id].src).id)
        } else {
            OpenedAction::Keep
        }
    }

    /// The sessions once the upstream socket of this one is set up.
    pub open spec fn after_opened(self, id: u64, opened_at: u64, now: u64) -> SessionsView {
        match self.opened_action(id) {
            OpenedAction::Unknown => self,
            OpenedAction::Discard(_) => self.given_up(id).touched(self.opening[id].src, now),
            OpenedAction::Keep => self.established(id, opened_at),
        }
    }

    /// What the set-up of an upstream socket adds to the metrics.
    pub open spec fn opened_record(self, id: u64, opened_at: u64) -> Seq<MetricEvent> {
        match self.opened_action(id) {
            OpenedAction::Keep => seq![
                MetricEvent::Accepted(Protocol::Udp),
                MetricEvent::ActiveSet(self.established(id, opened_at).sessions.len() as i64),
            ],
            _ => Seq::empty(),
        }
    }

    /// The sessions once this one could not be opened.
    pub open spec fn after_open_failed(self, id: u64) -> SessionsView {
        if self.opening.contains_key(id) {
            self.given_up(id)
        } else {
            self
        }
    }

    /// The sessions once the relay of the one with this number moved a datagram of the
    /// source.
    pub open spec fn after_relayed(self, src: SocketAddr, id: u64, now: u64) -> SessionsView {
        if self.opening.contains_key(id) && self.opening[id].src == src {
            self.relayed_early(id, now)
        } else if self.has(src) && self.of(src).id == id {
            self.touched(src, now)
        } else {
            self
        }
    }

    /// What a proxy that starts adds to the metrics.
    pub open spec fn start_record(idle_secs: u64) -> Seq<MetricEvent> {
        if idle_secs > 0 {
            seq![MetricEvent::ActiveAdd(0), MetricEvent::Closed(CloseReason::IdleTimeout, 0)]
        } else {
            seq![MetricEvent::ActiveAdd(0)]
        }
    }

    /// What a sweep adds to the metrics.
    pub open spec fn sweep_record(evicted: nat, left: nat) -> Seq<MetricEvent> {
        seq![
            MetricEvent::Closed(CloseReason::IdleTimeout, evicted as u64),
            MetricEvent::ActiveSet(left as i64),
        ]
    }

    /// What the shutdown adds to the metrics.
    pub open spec fn shutdown_record(self) -> Seq<MetricEvent> {
        seq![
            MetricEvent::Closed(CloseReason::Shutdown, self.sessions.len() as u64),
            MetricEvent::ActiveSet(0),
        ]
    }

    /// The sessions once opening this one was given up.
    pub open spec fn given_up(self, id: u64) -> SessionsView {
        SessionsView {
            limits: self.limits.released(self.opening[id].src.ip_spec()),
            opening: self.opening.remove(id),
            ..self
        }
    }

    /// The sessions once the relay of the one that is being opened moved a datagram.
    pub open spec fn relayed_early(self, id: u64, now: u64) -> SessionsView {
        SessionsView {
            opening: self.opening.insert(
                id,
                OpeningView { last_activity: now, ..self.opening[id] },
            ),
            ..self
        }
    }

    /// The sessions once this one was opened. Its last datagram passed when it was opened,
    /// or later, where its relay has moved one since.
    pub open spec fn established(self, id: u64, opened_at: u64) -> SessionsView {
        let src = self.opening[id].src;
        let relayed_at = self.opening[id].last_activity;
        SessionsView {
            sessions: self.sessions.insert(
                src.key_spec(),
                SessionView {
                    src,
                    id,
                    last_activity: if relayed_at > opened_at {
                        relayed_at
                    } else {
                        opened_at
                    },
                },
            ),
            opening: self.opening.remove(id),
            ..self
        }
    }

    /// The sessions once the one under this key was evicted.
    pub open spec fn evicted(self, k: SocketKey) -> SessionsView {
        SessionsView {
            limits: self.limits.released(self.sessions[k].src.ip_spec()),
            sessions: self.sessions.remove(k),
            ..self
        }
    }

    /// The idle timeout in milliseconds, or the largest number of them there is.
    pub open spec fn idle_ms(self) -> int {
        if self.idle_secs * 1000 > u64::MAX {
            u64::MAX as int
        } else {
            self.idle_secs * 1000
        }
    }

    /// Whether the session counts as idle.
    pub open spec fn stale(self, session: SessionView, now: u64) -> bool {
        self.idle_secs > 0 && now - session.last_activity >= self.idle_ms()
    }

    /// The sessions that do not count as idle.
    pub open spec fn live(self, now: u64) -> Map<SocketKey, SessionView> {
        self.sessions.restrict(Set::new(|k: SocketKey| !self.stale(self.sessions[k], now)))
    }

    /// Whether `ids` are the numbers of the idle sessions, each once.
    pub open spec fn lists_idle(self, ids: Seq<u64>, now: u64) -> bool {
        &&& ids.no_duplicates()
        &&& forall|id: u64| #[trigger]
            ids.contains(id) <==> exists|k: SocketKey| #[trigger]
                self.sessions.contains_key(k) && self.sessions[k].id == id && self.stale(
                    self.sessions[k],
                    now,
                )
    }

    /// Whether `ids` are the numbers of all sessions, each once.
    pub open spec fn lists_all(self, ids: Seq<u64>) -> bool {
        &&& ids.no_duplicates()
        &&& forall|id: u64| #[trigger]
            ids.contains(id) <==> exists|k: SocketKey| #[trigger]
                self.sessions.contains_key(k) && self.sessions[k].id == id
    }

    /// Whether `w` is what the sweep at `now` leaves: the sessions that are not idle, with
    /// their slots. (How many slots each address holds follows from the invariant.)
    pub open spec fn sweeps_to(self, w: SessionsView, now: u64) -> bool {
        &&& w.sessions == self.live(now)
        &&& w.opening == self.opening
        &&& w.next_id == self.next_id
        &&& w.idle_secs == self.idle_secs
        &&& w.limits.max_total == self.limits.max_total
        &&& w.limits.max_per_ip == self.limits.max_per_ip
        &&& w.limits.total_warned == self.limits.total_warned
        &&& w.limits.warned == self.limits.warned
    }
}

// ── Counting ─────────────────────────────────────────────────────────────────

proof fn lemma_filter_insert<A>(s: Set<A>, x: A, f: spec_fn(A) -> bool)
    requires
        s.finite(),
        !s.contains(x),
    ensures
        s.insert(x).filter(f).len() == s.filter(f).len() + if f(x) {
            1nat
        } else {
            0
        },
        s.filter(f).finite(),
{
    if f(x) {
        assert(s.insert(x).filter(f) =~= s.filter(f).insert(x));
    } else {
        assert(s.insert(x).filter(f) =~= s.filter(f));
    }
}

/// Opening a session of a source that has none adds one to its address.
proof fn lemma_sessions_insert(
    sessions: Map<SocketKey, SessionView>,
    k: SocketKey,
    s: SessionView,
    ip: IpAddr,
)
    requires
        sessions.dom().finite(),
    ensures
        sessions_of(sessions.insert(k, s), ip) == sessions_of(sessions, ip) + if (k.0, k.1)
            == ip.key_spec() && !sessions.contains_key(k) {
            1nat
        } else {
            0
        },
{
    let f = |key: SocketKey| (key.0, key.1) == ip.key_spec();
    assert(sessions.insert(k, s).dom() =~= sessions.dom().insert(k));
    if sessions.contains_key(k) {
        assert(sessions.dom().insert(k) =~= sessions.dom());
    } else {
        lemma_filter_insert(sessions.dom(), k, f);
    }
}

/// Evicting a session takes one from its address.
proof fn lemma_sessions_remove(sessions: Map<SocketKey, SessionView>, k: SocketKey, ip: IpAddr)
    requires
        sessions.dom().finite(),
        sessions.contains_key(k),
    ensures
        sessions_of(sessions, ip) == sessions_of(sessions.remove(k), ip) + if (k.0, k.1)
            == ip.key_spec() {
            1nat
        } else {
            0
        },
{
    lemma_sessions_insert(sessions.remove(k), k, sessions[k], ip);
    assert(sessions.remove(k).insert(k, sessions[k]) =~= sessions);
}

/// Starting to open a session adds one to the openings of its address.
proof fn lemma_openings_insert(
    opening: Map<u64, OpeningView>,
    id: u64,
    o: OpeningView,
    ip: IpAddr,
)
    requires
        opening.dom().finite(),
        !opening.contains_key(id),
    ensures
        openings_of(opening.insert(id, o), ip) == openings_of(opening, ip) + if o.src.ip_spec()
            == ip {
            1nat
        } else {
            0
        },
{
    let more = opening.insert(id, o);
    let f = |i: u64| more[i].src.ip_spec() == ip;
    let g = |i: u64| opening[i].src.ip_spec() == ip;
    assert(more.dom() =~= opening.dom().insert(id));
    assert(opening.dom().filter(f) =~= opening.dom().filter(g));
    lemma_filter_insert(opening.dom(), id, f);
}

/// Ending to open a session takes one from the openings of its address.
proof fn lemma_openings_remove(opening: Map<u64, OpeningView>, id: u64, ip: IpAddr)
    requires
        opening.dom().finite(),
        opening.contains_key(id),
    ensures
        openings_of(opening, ip) == openings_of(opening.remove(id), ip) + if opening[id].src.ip_spec()
            == ip {
            1nat
        } else {
            0
        },
{
    lemma_openings_insert(opening.remove(id), id, opening[id], ip);
    assert(opening.remove(id).insert(id, opening[id]) =~= opening);
}

proof fn lemma_key_of_ip(src: SocketAddr, ip: IpAddr)
    ensures
        (src.key_spec().0, src.key_spec().1) == ip.key_spec() <==> src.ip_spec() == ip,
{
    if (src.key_spec().0, src.key_spec().1) == ip.key_spec() {
        crate::addr::lemma_ip_key_injective(src.ip_spec(), ip);
    }
}

/// A slot more for one address is a slot more for no other.
proof fn lemma_acquired_counts(v: LimitsView, ip: IpAddr, other: IpAddr)
    requires
        v.wf(),
        v.total < u32::MAX,
    ensures
        v.acquired(ip).count(other) == v.count(other) + if ip == other {
            1nat
        } else {
            0
        },
{
    if ip.key_spec() == other.key_spec() {
        crate::addr::lemma_ip_key_injective(ip, other);
    }
    if v.per_ip.contains_key(ip.key_spec()) {
        crate::limits::lemma_slots_remove(v.per_ip, ip.key_spec());
    }
}

/// A slot less for one address is a slot less for no other.
proof fn lemma_released_counts(v: LimitsView, ip: IpAddr, other: IpAddr)
    requires
        v.wf(),
        v.count(ip) > 0,
    ensures
        v.count(other) == v.released(ip).count(other) + if ip == other {
            1nat
        } else {
            0
        },
        v.total > 0,
{
    if ip.key_spec() == other.key_spec() {
        crate::addr::lemma_ip_key_injective(ip, other);
    }
    crate::limits::lemma_slots_remove(v.per_ip, ip.key_spec());
}

impl SessionsView {
    /// Sessions under different keys have different numbers.
    proof fn lemma_numbers_of(self, keys: Seq<SocketKey>, ids: Seq<u64>, listed: Set<SocketKey>)
        requires
            self.wf(),
            keys.no_duplicates(),
            keys.len() == ids.len(),
            forall|k: SocketKey| #[trigger]
                keys.contains(k) <==> self.sessions.contains_key(k) && listed.contains(k),
            forall|j: int| 0 <= j < keys.len() ==> ids[j] == self.sessions[#[trigger] keys[j]].id,
        ensures
            ids.no_duplicates(),
            forall|id: u64| #[trigger]
                ids.contains(id) <==> exists|k: SocketKey| #[trigger]
                    self.sessions.contains_key(k) && self.sessions[k].id == id && listed.contains(
                        k,
                    ),
    {
        assert forall|a: int, b: int|
            0 <= a < ids.len() && 0 <= b < ids.len() && a != b implies ids[a] != ids[b] by {
            assert(keys.contains(keys[a]));
            assert(keys.contains(keys[b]));
        }
        assert forall|id: u64| #[trigger] ids.contains(id) implies exists|k: SocketKey| #[trigger]
            self.sessions.contains_key(k) && self.sessions[k].id == id && listed.contains(k) by {
            let j = ids.index_of(id);
            assert(keys.contains(keys[j]));
        }
        assert forall|k: SocketKey| #[trigger]
            self.sessions.contains_key(k) && listed.contains(k) implies ids.contains(
            self.sessions[k].id,
        ) by {
            assert(keys.contains(k));
            let j = keys.index_of(k);
            assert(ids[j] == self.sessions[k].id);
        }
    }

    proof fn lemma_touched_wf(self, src: SocketAddr, now: u64)
        requires
            self.wf(),
            self.has(src),
        ensures
            self.touched(src, now).wf(),
    {
        let k = src.key_spec();
        let w = self.touched(src, now);
        assert(w.sessions.dom() =~= self.sessions.dom());
        assert forall|ip: IpAddr| #[trigger]
            w.limits.count(ip) == sessions_of(w.sessions, ip) + openings_of(w.opening, ip) by {
            assert(self.limits.count(ip) == sessions_of(self.sessions, ip) + openings_of(
                self.opening,
                ip,
            ));
        }
    }

    proof fn lemma_relayed_early_wf(self, id: u64, now: u64)
        requires
            self.wf(),
            self.opening.contains_key(id),
        ensures
            self.relayed_early(id, now).wf(),
    {
        let w = self.relayed_early(id, now);
        assert(w.opening.dom() =~= self.opening.dom());
        assert forall|ip: IpAddr| #[trigger]
            w.limits.count(ip) == sessions_of(w.sessions, ip) + openings_of(w.opening, ip) by {
            assert(self.limits.count(ip) == sessions_of(self.sessions, ip) + openings_of(
                self.opening,
                ip,
            ));
            assert(w.opening.dom().filter(|i: u64| w.opening[i].src.ip_spec() == ip)
                =~= self.opening.dom().filter(|i: u64| self.opening[i].src.ip_spec() == ip));
        }
    }

    proof fn lemma_admitted_wf(self, src: SocketAddr)
        requires
            self.wf(),
            self.can_open(),
            self.limits.rejection(src.ip_spec()) is None,
            self.limits.acquired(src.ip_spec()).wf(),
        ensures
            self.admitted(src).wf(),
    {
        let w = self.admitted(src);
        let id = self.next_id as u64;
        assert(!self.opening.contains_key(id));
        assert(w.opening.dom() =~= self.opening.dom().insert(id));
        assert forall|ip: IpAddr| #[trigger]
            w.limits.count(ip) == sessions_of(w.sessions, ip) + openings_of(w.opening, ip) by {
            assert(self.limits.count(ip) == sessions_of(self.sessions, ip) + openings_of(
                self.opening,
                ip,
            ));
            lemma_acquired_counts(self.limits, src.ip_spec(), ip);
            lemma_openings_insert(self.opening, id, w.opening[id], ip);
        }
    }

    proof fn lemma_opening_holds_slot(self, id: u64)
        requires
            self.wf(),
            self.opening.contains_key(id),
        ensures
            self.limits.count(self.opening[id].src.ip_spec()) > 0,
    {
        let ip = self.opening[id].src.ip_spec();
        lemma_openings_remove(self.opening, id, ip);
        assert(self.limits.count(ip) == sessions_of(self.sessions, ip) + openings_of(
            self.opening,
            ip,
        ));
    }

    proof fn lemma_session_holds_slot(self, k: SocketKey)
        requires
            self.wf(),
            self.sessions.contains_key(k),
        ensures
            self.limits.count(self.sessions[k].src.ip_spec()) > 0,
    {
        let ip = self.sessions[k].src.ip_spec();
        lemma_sessions_remove(self.sessions, k, ip);
        lemma_key_of_ip(self.sessions[k].src, ip);
        assert(self.limits.count(ip) == sessions_of(self.sessions, ip) + openings_of(
            self.opening,
            ip,
        ));
    }

    proof fn lemma_given_up_wf(self, id: u64)
        requires
            self.wf(),
            self.opening.contains_key(id),
            self.limits.released(self.opening[id].src.ip_spec()).wf(),
        ensures
            self.given_up(id).wf(),
    {
        let w = self.given_up(id);
        self.lemma_opening_holds_slot(id);
        assert(w.opening.dom() =~= self.opening.dom().remove(id));
        lemma_released_counts(self.limits, self.opening[id].src.ip_spec(), self.opening[id].src.ip_spec());
        assert forall|ip: IpAddr| #[trigger]
            w.limits.count(ip) == sessions_of(w.sessions, ip) + openings_of(w.opening, ip) by {
            assert(self.limits.count(ip) == sessions_of(self.sessions, ip) + openings_of(
                self.opening,
                ip,
            ));
            lemma_released_counts(self.limits, self.opening[id].src.ip_spec(), ip);
            lemma_openings_remove(self.opening, id, ip);
        }
    }

    proof fn lemma_established_wf(self, id: u64, opened_at: u64)
        requires
            self.wf(),
            self.opening.contains_key(id),
            !self.has(self.opening[id].src),
        ensures
            self.established(id, opened_at).wf(),
    {
        let w = self.established(id, opened_at);
        let src = self.opening[id].src;
        let k = src.key_spec();
        assert(w.opening.dom() =~= self.opening.dom().remove(id));
        assert(w.sessions.dom() =~= self.sessions.dom().insert(k));
        assert forall|ip: IpAddr| #[trigger]
            w.limits.count(ip) == sessions_of(w.sessions, ip) + openings_of(w.opening, ip) by {
            assert(self.limits.count(ip) == sessions_of(self.sessions, ip) + openings_of(
                self.opening,
                ip,
            ));
            lemma_sessions_insert(self.sessions, k, w.sessions[k], ip);
            lemma_openings_remove(self.opening, id, ip);
            lemma_key_of_ip(src, ip);
        }
    }

    proof fn lemma_evicted_wf(self, k: SocketKey)
        requires
            self.wf(),
            self.sessions.contains_key(k),
            self.limits.released(self.sessions[k].src.ip_spec()).wf(),
        ensures
            self.evicted(k).wf(),
    {
        let w = self.evicted(k);
        let src = self.sessions[k].src;
        self.lemma_session_holds_slot(k);
        assert(w.sessions.dom() =~= self.sessions.dom().remove(k));
        lemma_released_counts(self.limits, src.ip_spec(), src.ip_spec());
        assert forall|ip: IpAddr| #[trigger]
            w.limits.count(ip) == sessions_of(w.sessions, ip) + openings_of(w.opening, ip) by {
            assert(self.limits.count(ip) == sessions_of(self.sessions, ip) + openings_of(
                self.opening,
                ip,
            ));
            lemma_released_counts(self.limits, src.ip_spec(), ip);
            lemma_sessions_remove(self.sessions, k, ip);
            lemma_key_of_ip(src, ip);
        }
    }
}

// ── Sessions ─────────────────────────────────────────────────────────────────

impl View for Session {
    type V = SessionView;

    closed spec fn view(&self) -> SessionView {
        SessionView { src: self.src, id: self.id, last_activity: self.last_activity }
    }
}

impl View for Opening {
    type V = OpeningView;

    closed spec fn view(&self) -> OpeningView {
        OpeningView { src: self.src, last_activity: self.last_activity }
    }
}

impl View for UdpSessions {
    type V = SessionsView;

    closed spec fn view(&self) -> SessionsView {
        SessionsView {
            idle_secs: self.idle_secs,
            limits: self.limits@,
            sessions: self.sessions@.map_values(|s: Session| s@),
            opening: self.opening@.map_values(|o: Opening| o@),
            next_id: self.next_id as nat,
        }
    }
}

impl UdpSessions {
    /// The invariant, down to the slots.
    pub open spec fn wf(self) -> bool {
        self@.wf() && self.holds_slots()
    }

    /// Each session, open or being opened, holds a slot of its own address.
    pub closed spec fn holds_slots(self) -> bool {
        &&& forall|k: SocketKey| #[trigger]
            self.sessions@.contains_key(k) ==> self.sessions@[k].slot.ip_spec()
                == self.sessions@[k].src.ip_spec()
        &&& forall|id: u64| #[trigger]
            self.opening@.contains_key(id) ==> self.opening@[id].slot.ip_spec()
                == self.opening@[id].src.ip_spec()
    }

    /// The sessions of a proxy that starts: none. Also returns what to record.
    pub fn new(cfg: &ProxyConfig) -> (r: (UdpSessions, Vec<MetricEvent>))
        ensures
            r.0.wf(),
            r.0@ == SessionsView::fresh(*cfg),
            r.1@ == SessionsView::start_record(cfg.idle_timeout_secs),
            r.1@ == (if cfg.idle_timeout_secs > 0 {
                seq![MetricEvent::ActiveAdd(0), MetricEvent::Closed(CloseReason::IdleTimeout, 0)]
            } else {
                seq![MetricEvent::ActiveAdd(0)]
            }),
    {
        let sessions = UdpSessions {
            idle_secs: cfg.idle_timeout_secs,
            limits: ConnLimits::new(cfg.max_connections, cfg.max_per_ip),
            sessions: BTreeMap::new(),
            opening: BTreeMap::new(),
            next_id: 0,
        };
        assert(sessions@.sessions =~= Map::<SocketKey, SessionView>::empty());
        assert(sessions@.opening =~= Map::<u64, OpeningView>::empty());
        assert forall|ip: IpAddr| #[trigger]
            sessions@.limits.count(ip) == sessions_of(sessions@.sessions, ip) + openings_of(
                sessions@.opening,
                ip,
            ) by {
            assert(sessions@.sessions.dom().filter(
                |k: SocketKey| (k.0, k.1) == ip.key_spec(),
            ) =~= Set::empty());
            assert(sessions@.opening.dom().filter(
                |id: u64| sessions@.opening[id].src.ip_spec() == ip,
            ) =~= Set::empty());
        }
        let mut events: Vec<MetricEvent> = Vec::new();
        events.push(MetricEvent::ActiveAdd(0));
        if cfg.idle_timeout_secs > 0 {
            events.push(MetricEvent::Closed(CloseReason::IdleTimeout, 0));
        }
        assert(events@ =~= (if cfg.idle_timeout_secs > 0 {
            seq![MetricEvent::ActiveAdd(0), MetricEvent::Closed(CloseReason::IdleTimeout, 0)]
        } else {
            seq![MetricEvent::ActiveAdd(0)]
        }));
        (sessions, events)
    }

    /// How many sessions there are.
    pub fn len(&self) -> (r: usize)
        requires
            self.wf(),
        ensures
            r == self@.sessions.len(),
    {
        assert(self@.sessions.dom() =~= self.sessions@.dom());
        self.sessions.len()
    }

    /// Whether a datagram of the source can be taken in: it needs no new session, or one
    /// more can be numbered and counted.
    pub fn can_take(&self, src: SocketAddr) -> (r: bool)
        ensures
            r == self@.can_take(src),
    {
        if self.sessions.contains_key(&src.key()) {
            true
        } else if self.next_id < u64::MAX {
            self.limits.can_acquire(src.ip())
        } else {
            self.limits.would_reject(src.ip())
        }
    }

    /// Note that a datagram of the source's session passed.
    fn bump(&mut self, src: SocketAddr, now: u64)
        requires
            old(self).wf(),
            old(self)@.has(src),
        ensures
            final(self).wf(),
            final(self)@ == old(self)@.touched(src, now),
    {
        proof {
            self@.lemma_touched_wf(src, now);
        }
        let key = src.key();
        if let Some(session) = self.sessions.remove(&key) {
            let session = Session { last_activity: now, ..session };
            self.sessions.insert(key, session);
        }
        assert(self@.sessions =~= old(self)@.touched(src, now).sessions);
    }

    /// Take a datagram in. Returns what to do with it and what to record.
    ///
    /// Fast path: the source has a session. Slow path: it is the first datagram of its
    /// source, which is admitted or refused.
    pub fn on_datagram(&mut self, src: SocketAddr, now: u64) -> (r: (
        DatagramAction,
        Option<MetricEvent>,
    ))
        requires
            old(self).wf(),
            old(self)@.can_take(src),
        ensures
            final(self).wf(),
            r.0 == old(self)@.datagram_action(src),
            r.1 == old(self)@.datagram_record(src),
            final(self)@ == old(self)@.after_datagram(src, now),
            if old(self)@.has(src) {
                &&& r.0 == DatagramAction::Forward(old(self)@.of(src).id)
                &&& r.1 is None
                &&& final(self)@ == old(self)@.touched(src, now)
            } else {
                match old(self)@.limits.rejection(src.ip_spec()) {
                    Some(reason) => {
                        &&& r.0 == DatagramAction::Refuse(reason)
                        &&& r.1 == Some(MetricEvent::Rejected(reason))
                        &&& final(self)@ == old(self)@
                    },
                    None => {
                        &&& r.0 matches DatagramAction::Open { id, total_notice, per_ip_notice }
                            && id == old(self)@.next_id && total_notice
                            == old(self)@.limits.total_notice_due() && per_ip_notice
                            == old(self)@.limits.per_ip_notice_due(src.ip_spec())
                        &&& r.1 is None
                        &&& final(self)@ == old(self)@.admitted(src)
                    },
                }
            },
    {
        let key = src.key();
        if let Some(session) = self.sessions.get(&key) {
            let id = session.id;
            self.bump(src, now);
            return (DatagramAction::Forward(id), None);
        }
        let ghost before = self@;
        match self.limits.try_acquire(src.ip()) {
            Err(reason) => {
                (DatagramAction::Refuse(reason), Some(MetricEvent::Rejected(reason)))
            },
            Ok(slot) => {
                proof {
                    before.lemma_admitted_wf(src);
                }
                let id = self.next_id;
                let total_notice = slot.total_notice();
                let per_ip_notice = slot.per_ip_notice();
                self.opening.insert(id, Opening { src, last_activity: 0, slot });
                self.next_id = id + 1;
                assert(self@.opening =~= before.admitted(src).opening);
                (DatagramAction::Open { id, total_notice, per_ip_notice }, None)
            },
        }
    }

    /// The session that is being opened under this number has its upstream socket since
    /// `opened_at`. Returns what to do with it and what to record.
    ///
    /// Another datagram from the same source may have raced it to create a session; if so,
    /// the existing one is kept, and the slot of the later one is given back.
    pub fn on_opened(&mut self, id: u64, opened_at: u64, now: u64) -> (r: (
        OpenedAction,
        Vec<MetricEvent>,
    ))
        requires
            old(self).wf(),
        ensures
            final(self).wf(),
            r.0 == old(self)@.opened_action(id),
            r.1@ == old(self)@.opened_record(id, opened_at),
            final(self)@ == old(self)@.after_opened(id, opened_at, now),
            if !old(self)@.opening.contains_key(id) {
                &&& r.0 == OpenedAction::Unknown
                &&& r.1@ == Seq::<MetricEvent>::empty()
                &&& final(self)@ == old(self)@
            } else if old(self)@.has(old(self)@.opening[id].src) {
                let src = old(self)@.opening[id].src;
                &&& r.0 == OpenedAction::Discard(old(self)@.of(src).id)
                &&& r.1@ == Seq::<MetricEvent>::empty()
                &&& final(self)@ == old(self)@.given_up(id).touched(src, now)
            } else {
                &&& r.0 == OpenedAction::Keep
                &&& r.1@ == seq![
                    MetricEvent::Accepted(Protocol::Udp),
                    MetricEvent::ActiveSet(final(self)@.sessions.len() as i64),
                ]
                &&& final(self)@ == old(self)@.established(id, opened_at)
            },
    {
        let ghost before = self@;
        let opening = match self.opening.remove(&id) {
            Some(opening) => opening,
            None => {
                assert(self@.opening =~= before.opening);
                return (OpenedAction::Unknown, Vec::new());
            },
        };
        let src = opening.src;
        let key = src.key();
        assert(self@.opening =~= before.opening.remove(id));
        if let Some(session) = self.sessions.get(&key) {
            let existing = session.id;
            proof {
                before.lemma_opening_holds_slot(id);
            }
            self.limits.release(opening.slot);
            proof {
                before.lemma_given_up_wf(id);
            }
            assert(self@ == before.given_up(id));
            self.bump(src, now);
            (OpenedAction::Discard(existing), Vec::new())
        } else {
            proof {
                before.lemma_established_wf(id, opened_at);
            }
            let last_activity = if opening.last_activity > opened_at {
                opening.last_activity
            } else {
                opened_at
            };
            self.sessions.insert(key, Session { src, id, last_activity, slot: opening.slot });
            assert(self@.sessions =~= before.established(id, opened_at).sessions);
            let events = vec![
                MetricEvent::Accepted(Protocol::Udp),
                MetricEvent::ActiveSet(self.len() as i64),
            ];
            assert(events@ =~= seq![
                MetricEvent::Accepted(Protocol::Udp),
                MetricEvent::ActiveSet(self@.sessions.len() as i64),
            ]);
            (OpenedAction::Keep, events)
        }
    }

    /// The session that was being opened under this number could not be opened: its slot is
    /// given back.
    pub fn on_open_failed(&mut self, id: u64)
        requires
            old(self).wf(),
        ensures
            final(self).wf(),
            final(self)@ == old(self)@.after_open_failed(id),
            final(self)@ == (if old(self)@.opening.contains_key(id) {
                old(self)@.given_up(id)
            } else {
                old(self)@
            }),
    {
        let ghost before = self@;
        if let Some(opening) = self.opening.remove(&id) {
            assert(self@.opening =~= before.opening.remove(id));
            proof {
                before.lemma_opening_holds_slot(id);
            }
            self.limits.release(opening.slot);
            proof {
                before.lemma_given_up_wf(id);
            }
        } else {
            assert(self@.opening =~= before.opening);
        }
    }

    /// The relay of the session with this number moved a datagram of the source. This
    /// counts also while the session is being opened. A session that was evicted since
    /// stays evicted, and one that took its place is not touched.
    pub fn on_relayed(&mut self, src: SocketAddr, id: u64, now: u64)
        requires
            old(self).wf(),
        ensures
            final(self).wf(),
            final(self)@ == old(self)@.after_relayed(src, id, now),
            final(self)@ == (if old(self)@.opening.contains_key(id) && old(self)@.opening[id].src
                == src {
                old(self)@.relayed_early(id, now)
            } else if old(self)@.has(src) && old(self)@.of(src).id == id {
                old(self)@.touched(src, now)
            } else {
                old(self)@
            }),
    {
        let ghost before = self@;
        let early = match self.opening.get(&id) {
            Some(opening) => opening.src == src,
            None => false,
        };
        if early {
            proof {
                before.lemma_relayed_early_wf(id, now);
            }
            if let Some(opening) = self.opening.remove(&id) {
                let opening = Opening { last_activity: now, ..opening };
                self.opening.insert(id, opening);
            }
            assert(self@.opening =~= before.relayed_early(id, now).opening);
        } else if let Some(session) = self.sessions.get(&src.key()) {
            if session.id == id {
                self.bump(src, now);
            }
        }
    }

    /// Evict one session and give its slot back.
    fn evict(&mut self, key: SocketKey)
        requires
            old(self).wf(),
            old(self)@.sessions.contains_key(key),
        ensures
            final(self).wf(),
            final(self)@ == old(self)@.evicted(key),
    {
        let ghost before = self@;
        if let Some(session) = self.sessions.remove(&key) {
            assert(self@.sessions =~= before.sessions.remove(key));
            proof {
                before.lemma_session_holds_slot(key);
            }
            self.limits.release(session.slot);
            proof {
                before.lemma_evicted_wf(key);
            }
        }
    }

    /// Whether a session whose last datagram passed at `last_activity` counts as idle.
    fn is_stale(&self, last_activity: u64, now: u64) -> (r: bool)
        ensures
            forall|s: SessionView| s.last_activity == last_activity ==> r == #[trigger] self@.stale(
                s,
                now,
            ),
    {
        let idle = self.idle_secs as u128 * 1000;
        let idle_ms: u64 = if idle > u64::MAX as u128 {
            u64::MAX
        } else {
            idle as u64
        };
        self.idle_secs > 0 && now.saturating_sub(last_activity) >= idle_ms
    }

    /// The keys and numbers of the sessions, or of the idle ones alone.
    fn list(&self, idle_at: Option<u64>) -> (r: (Vec<SocketKey>, Vec<u64>))
        requires
            self.wf(),
        ensures
            r.0@.no_duplicates(),
            r.0@.len() == r.1@.len(),
            forall|k: SocketKey| #[trigger]
                r.0@.contains(k) <==> self@.sessions.contains_key(k) && match idle_at {
                    Some(now) => self@.stale(self@.sessions[k], now),
                    None => true,
                },
            forall|j: int| 0 <= j < r.0@.len() ==> r.1@[j] == self@.sessions[#[trigger] r.0@[j]].id,
    {
        let mut keys: Vec<SocketKey> = Vec::new();
        let mut ids: Vec<u64> = Vec::new();
        for (key, session) in it: self.sessions.iter()
            invariant
                it.seq() == self.sessions.iter().remaining(),
                it.seq().no_duplicates(),
                keys@.len() == ids@.len(),
                forall|j: int|
                    0 <= j < keys@.len() ==> {
                        &&& self.sessions@.contains_key(#[trigger] keys@[j])
                        &&& match idle_at {
                            Some(now) => self@.stale(self@.sessions[keys@[j]], now),
                            None => true,
                        }
                        &&& ids@[j] == self@.sessions[keys@[j]].id
                        &&& exists|i: int|
                            0 <= i < it.index() && *(#[trigger] it.seq()[i]).0 == keys@[j]
                    },
                forall|i: int|
                    0 <= i < it.index() && match idle_at {
                        Some(now) => self@.stale((#[trigger] it.seq()[i]).1@, now),
                        None => true,
                    } ==> keys@.contains(*(#[trigger] it.seq()[i]).0),
                keys@.no_duplicates(),
        {
            let listed = match idle_at {
                Some(now) => self.is_stale(session.last_activity, now),
                None => true,
            };
            let ghost before = keys@;
            if listed {
                keys.push(*key);
                ids.push(session.id);
                assert(keys@[before.len() as int] == *key);
            }
            assert forall|k: SocketKey| before.contains(k) implies #[trigger] keys@.contains(k) by {
                let j = before.index_of(k);
                assert(keys@[j] == k);
            }
        }
        (keys, ids)
    }

    /// Evict the idle sessions, where there is an idle timeout. Returns the numbers of the
    /// sessions to tear down and what to record.
    pub fn sweep(&mut self, now: u64) -> (r: (Vec<u64>, Vec<MetricEvent>))
        requires
            old(self).wf(),
        ensures
            final(self).wf(),
            old(self)@.idle_secs == 0 ==> {
                &&& final(self)@ == old(self)@
                &&& r.0@ == Seq::<u64>::empty()
                &&& r.1@ == Seq::<MetricEvent>::empty()
            },
            old(self)@.idle_secs > 0 ==> {
                &&& old(self)@.sweeps_to(final(self)@, now)
                &&& old(self)@.lists_idle(r.0@, now)
                &&& r.1@ == SessionsView::sweep_record(r.0@.len(), final(self)@.sessions.len())
                &&& r.1@ == seq![
                    MetricEvent::Closed(CloseReason::IdleTimeout, r.0@.len() as u64),
                    MetricEvent::ActiveSet(final(self)@.sessions.len() as i64),
                ]
            },
    {
        if self.idle_secs == 0 {
            return (Vec::new(), Vec::new());
        }
        let ghost before = self@;
        let (keys, ids) = self.list(Some(now));
        proof {
            before.lemma_numbers_of(
                keys@,
                ids@,
                Set::new(|k: SocketKey| before.stale(before.sessions[k], now)),
            );
        }
        let mut i: usize = 0;
        assert(before.sessions =~= before.sessions.restrict(
            Set::new(|k: SocketKey| !keys@.take(0).contains(k)),
        ));
        while i < keys.len()
            invariant
                i <= keys.len(),
                self.wf(),
                before.wf(),
                keys@.no_duplicates(),
                forall|k: SocketKey| #[trigger]
                    keys@.contains(k) ==> before.sessions.contains_key(k),
                self@.sessions == before.sessions.restrict(
                    Set::new(|k: SocketKey| !keys@.take(i as int).contains(k)),
                ),
                self@.opening == before.opening,
                self@.next_id == before.next_id,
                self@.idle_secs == before.idle_secs,
                self@.limits.max_total == before.limits.max_total,
                self@.limits.max_per_ip == before.limits.max_per_ip,
                self@.limits.total_warned == before.limits.total_warned,
                self@.limits.warned == before.limits.warned,
            decreases keys.len() - i,
        {
            let ghost mid = self@;
            let key = keys[i];
            assert(keys@.contains(key));
            assert(!keys@.take(i as int).contains(key));
            proof {
                mid.lemma_session_holds_slot(key);
            }
            self.evict(key);
            proof {
                let done = keys@.take(i as int);
                assert(keys@.take(i + 1) =~= done.push(key));
                assert forall|k: SocketKey| #[trigger]
                    done.push(key).contains(k) == (done.contains(k) || k == key) by {
                    if done.contains(k) {
                        assert(done.push(key)[done.index_of(k)] == k);
                    }
                    assert(done.push(key)[done.len() as int] == key);
                }
                assert(self@.sessions =~= before.sessions.restrict(
                    Set::new(|k: SocketKey| !keys@.take(i + 1).contains(k)),
                ));
            }
            i += 1;
        }
        assert(keys@.take(i as int) =~= keys@);
        assert(self@.sessions =~= before.live(now));
        let events = vec![
            MetricEvent::Closed(CloseReason::IdleTimeout, ids.len() as u64),
            MetricEvent::ActiveSet(self.len() as i64),
        ];
        assert(events@ =~= seq![
            MetricEvent::Closed(CloseReason::IdleTimeout, ids@.len() as u64),
            MetricEvent::ActiveSet(self@.sessions.len() as i64),
        ]);
        (ids, events)
    }

    /// The proxy shuts down. Returns the numbers of the sessions to tear down, which are
    /// all, and what to record.
    pub fn on_shutdown(&self) -> (r: (Vec<u64>, Vec<MetricEvent>))
        requires
            self.wf(),
        ensures
            self@.lists_all(r.0@),
            r.1@ == self@.shutdown_record(),
            r.1@ == seq![
                MetricEvent::Closed(CloseReason::Shutdown, self@.sessions.len() as u64),
                MetricEvent::ActiveSet(0),
            ],
    {
        let (keys, ids) = self.list(None);
        proof {
            self@.lemma_numbers_of(keys@, ids@, Set::full());
        }
        let events = vec![
            MetricEvent::Closed(CloseReason::Shutdown, self.len() as u64),
            MetricEvent::ActiveSet(0),
        ];
        assert(events@ =~= seq![
            MetricEvent::Closed(CloseReason::Shutdown, self@.sessions.len() as u64),
            MetricEvent::ActiveSet(0),
        ]);
        (ids, events)
    }
}

// ── Laws ─────────────────────────────────────────────────────────────────────

/// Neither cap is ever exceeded: not by all sessions, open or being opened, and not by
/// those of one address.
pub proof fn law_sessions_stay_within_caps(v: SessionsView, ip: IpAddr)
    requires
        v.wf(),
    ensures
        v.limits.max_total > 0 ==> v.sessions.len() + v.opening.len() <= v.limits.max_total,
        v.limits.max_per_ip > 0 ==> sessions_of(v.sessions, ip) + openings_of(v.opening, ip)
            <= v.limits.max_per_ip,
{
    assert(v.limits.count(ip) == sessions_of(v.sessions, ip) + openings_of(v.opening, ip));
}

/// Traffic keeps a session: one whose last datagram is younger than the idle timeout
/// outlives the sweep.
pub proof fn law_traffic_keeps_a_session(v: SessionsView, src: SocketAddr, at: u64, now: u64)
    requires
        v.has(src),
        now - at < v.idle_ms(),
    ensures
        v.touched(src, at).live(now).contains_key(src.key_spec()),
{
}

/// Without an idle timeout no session counts as idle.
pub proof fn law_idle_zero_disables_eviction(v: SessionsView, now: u64)
    requires
        v.idle_secs == 0,
    ensures
        v.live(now) == v.sessions,
{
    assert(v.live(now) =~= v.sessions);
}

/// Nothing is left of an idle session after the sweep, so that the next datagram of its
/// source starts a new one; and sweeping again at once evicts nothing more.
pub proof fn law_sweep_leaves_no_idle_session(v: SessionsView, w: SessionsView, now: u64)
    requires
        v.sweeps_to(w, now),
    ensures
        forall|src: SocketAddr| #[trigger]
            w.has(src) ==> v.has(src) && w.of(src) == v.of(src) && !v.stale(v.of(src), now),
        forall|src: SocketAddr| #[trigger]
            v.has(src) && v.stale(v.of(src), now) ==> !w.has(src),
        w.live(now) == w.sessions,
{
    assert(w.live(now) =~= w.sessions);
}

/// An evicted source starts over: its next datagram finds no session and is not rejected,
/// so it opens a new one.
pub proof fn law_evicted_source_is_admitted_again(
    v: SessionsView,
    w: SessionsView,
    now: u64,
    src: SocketAddr,
)
    requires
        v.wf(),
        w.wf(),
        v.sweeps_to(w, now),
        v.has(src),
        v.stale(v.of(src), now),
    ensures
        !w.has(src),
        w.limits.rejection(src.ip_spec()) is None,
{
    let k = src.key_spec();
    let ip = src.ip_spec();
    let rest = v.sessions.remove(k);
    assert(w.sessions.dom().subset_of(rest.dom()));
    vstd::set_lib::lemma_len_subset(w.sessions.dom(), rest.dom());
    assert(rest.dom() =~= v.sessions.dom().remove(k));
    let f = |key: SocketKey| (key.0, key.1) == ip.key_spec();
    assert(w.sessions.dom().filter(f).subset_of(rest.dom().filter(f)));
    vstd::set_lib::lemma_len_subset(w.sessions.dom().filter(f), rest.dom().filter(f));
    lemma_sessions_remove(v.sessions, k, ip);
    lemma_key_of_ip(v.of(src).src, ip);
    crate::addr::lemma_socket_key_injective(v.of(src).src, src);
    assert(v.limits.count(ip) == sessions_of(v.sessions, ip) + openings_of(v.opening, ip));
    assert(w.limits.count(ip) == sessions_of(w.sessions, ip) + openings_of(w.opening, ip));
}

/// What the relay moved while its session was being opened counts for the session.
pub proof fn law_early_traffic_keeps_a_session(
    v: SessionsView,
    id: u64,
    at: u64,
    opened_at: u64,
    now: u64,
)
    requires
        v.opening.contains_key(id),
        now - at < v.idle_ms(),
    ensures
        v.relayed_early(id, at).established(id, opened_at).live(now).contains_key(
            v.opening[id].src.key_spec(),
        ),
{
}

/// What one source does leaves every other source's session as it is.
pub proof fn law_sources_are_apart(
    v: SessionsView,
    src: SocketAddr,
    id: u64,
    at: u64,
    other: SocketAddr,
)
    requires
        src != other,
        v.opening.contains_key(id),
        v.opening[id].src == src,
    ensures
        v.touched(src, at).has(other) == v.has(other),
        v.touched(src, at).of(other) == v.of(other),
        v.admitted(src).sessions == v.sessions,
        v.given_up(id).sessions == v.sessions,
        v.established(id, at).has(other) == v.has(other),
        v.established(id, at).of(other) == v.of(other),
{
    if src.key_spec() == other.key_spec() {
        crate::addr::lemma_socket_key_injective(src, other);
    }
}

/// A session that could not be opened leaves nothing behind: no session, no opening, and
/// no slot.
pub proof fn law_failed_open_leaves_no_trace(v: SessionsView, src: SocketAddr)
    requires
        v.wf(),
        v.can_open(),
        v.limits.rejection(src.ip_spec()) is None,
    ensures
        ({
            let w = v.admitted(src).given_up(v.next_id as u64);
            &&& w.sessions == v.sessions
            &&& w.opening == v.opening
            &&& w.limits.total == v.limits.total
            &&& forall|ip: IpAddr| #[trigger] w.limits.count(ip) == v.limits.count(ip)
        }),
{
    let id = v.next_id as u64;
    assert(!v.opening.contains_key(id));
    assert(v.admitted(src).given_up(id).opening =~= v.opening);
    crate::limits::law_release_undoes_acquire(v.limits, src.ip_spec());
}

/// A proxy starts with the caps and the idle timeout of its configuration and no session.
pub proof fn law_sessions_start_empty(cfg: ProxyConfig, src: SocketAddr)
    ensures
        ({
            let v = SessionsView::fresh(cfg);
            &&& v.idle_secs == cfg.idle_timeout_secs
            &&& v.limits.max_total == cfg.max_connections
            &&& v.limits.max_per_ip == cfg.max_per_ip
            &&& v.limits.total == 0
            &&& !v.has(src)
            &&& v.opening.len() == 0
        }),
        SessionsView::start_record(cfg.idle_timeout_secs)[0] == MetricEvent::ActiveAdd(0),
        cfg.idle_timeout_secs == 0 ==> SessionsView::start_record(cfg.idle_timeout_secs).len() == 1,
        cfg.idle_timeout_secs > 0 ==> SessionsView::start_record(cfg.idle_timeout_secs)
            == seq![MetricEvent::ActiveAdd(0), MetricEvent::Closed(CloseReason::IdleTimeout, 0)],
{
}

/// What a datagram leads to: it goes to the session of its source, where there is one;
/// otherwise a session is opened under a new number, exactly while both caps leave room for
/// it; and otherwise it is dropped, for the cap that is reached, and nothing changes.
pub proof fn law_datagrams_find_their_session(v: SessionsView, src: SocketAddr, now: u64)
    requires
        v.next_id < u64::MAX,
    ensures
        ({
            let room = (v.limits.max_total == 0 || v.limits.total < v.limits.max_total) && (
            v.limits.max_per_ip == 0 || v.limits.count(src.ip_spec()) < v.limits.max_per_ip);
            let w = v.after_datagram(src, now);
            let known = v.sessions.contains_key(src.key_spec());
            &&& known ==> {
                &&& v.datagram_action(src) == DatagramAction::Forward(v.sessions[src.key_spec()].id)
                &&& v.datagram_record(src) is None
                &&& w.sessions[src.key_spec()].last_activity == now
                &&& w.sessions[src.key_spec()].id == v.sessions[src.key_spec()].id
                &&& w.sessions[src.key_spec()].src == v.sessions[src.key_spec()].src
                &&& w.sessions.remove(src.key_spec()) == v.sessions.remove(src.key_spec())
                &&& w.limits == v.limits
                &&& w.opening == v.opening
                &&& w.next_id == v.next_id
            }
            &&& !known && room ==> {
                &&& v.datagram_action(src) matches DatagramAction::Open {
                    id,
                    total_notice,
                    per_ip_notice,
                } && id == v.next_id && total_notice == v.limits.total_notice_due()
                    && per_ip_notice == v.limits.per_ip_notice_due(src.ip_spec())
                &&& v.datagram_record(src) is None
                &&& w.sessions == v.sessions
                &&& w.opening.contains_key(v.next_id as u64)
                &&& w.opening[v.next_id as u64].src == src
                &&& w.opening[v.next_id as u64].last_activity == 0
                &&& w.opening.remove(v.next_id as u64) == v.opening.remove(v.next_id as u64)
                &&& w.limits == v.limits.acquired(src.ip_spec())
                &&& w.next_id == v.next_id + 1
            }
            &&& !known && !room ==> {
                &&& v.datagram_action(src) == DatagramAction::Refuse(
                    if v.limits.max_total > 0 && v.limits.total >= v.limits.max_total {
                        Reject::Total
                    } else {
                        Reject::PerIp
                    },
                )
                &&& v.datagram_record(src) == Some(
                    MetricEvent::Rejected(
                        if v.limits.max_total > 0 && v.limits.total >= v.limits.max_total {
                            Reject::Total
                        } else {
                            Reject::PerIp
                        },
                    ),
                )
                &&& w == v
            }
            &&& w.idle_secs == v.idle_secs
            &&& v.can_take(src) <==> known || !room || v.limits.max_total > 0 || v.limits.total
                < u32::MAX
        }),
{
    let w = v.after_datagram(src, now);
    assert(w.sessions.remove(src.key_spec()) =~= v.sessions.remove(src.key_spec()));
    assert(w.opening.remove(v.next_id as u64) =~= v.opening.remove(v.next_id as u64));
}

/// What becomes of a session whose upstream socket is set up: it stands under its source
/// from then on, as active as its opening or the last datagram that its relay moved,
/// whichever is later; but where its source has a session already, that one stays and the
/// slot of the later one is free again.
pub proof fn law_opened_sessions_take_their_place(
    v: SessionsView,
    id: u64,
    opened_at: u64,
    now: u64,
)
    ensures
        ({
            let w = v.after_opened(id, opened_at, now);
            let o = v.opening[id];
            let k = o.src.key_spec();
            &&& !v.opening.contains_key(id) ==> {
                &&& v.opened_action(id) == OpenedAction::Unknown
                &&& v.opened_record(id, opened_at).len() == 0
                &&& w == v
            }
            &&& v.opening.contains_key(id) && !v.sessions.contains_key(k) ==> {
                &&& v.opened_action(id) == OpenedAction::Keep
                &&& w.sessions.contains_key(k)
                &&& w.sessions[k].src == o.src
                &&& w.sessions[k].id == id
                &&& w.sessions[k].last_activity >= opened_at
                &&& w.sessions[k].last_activity >= o.last_activity
                &&& w.sessions[k].last_activity == opened_at || w.sessions[k].last_activity
                    == o.last_activity
                &&& w.sessions.remove(k) == v.sessions
                &&& w.limits == v.limits
                &&& w.opening == v.opening.remove(id)
                &&& v.opened_record(id, opened_at) == seq![
                    MetricEvent::Accepted(Protocol::Udp),
                    MetricEvent::ActiveSet(w.sessions.len() as i64),
                ]
            }
            &&& v.opening.contains_key(id) && v.sessions.contains_key(k) ==> {
                &&& v.opened_action(id) == OpenedAction::Discard(v.sessions[k].id)
                &&& v.opened_record(id, opened_at).len() == 0
                &&& w.sessions.contains_key(k)
                &&& w.sessions[k].id == v.sessions[k].id
                &&& w.sessions[k].src == v.sessions[k].src
                &&& w.sessions[k].last_activity == now
                &&& w.sessions.remove(k) == v.sessions.remove(k)
                &&& w.limits == v.limits.released(o.src.ip_spec())
                &&& w.opening == v.opening.remove(id)
            }
            &&& w.idle_secs == v.idle_secs
            &&& w.next_id == v.next_id
        }),
{
    let w = v.after_opened(id, opened_at, now);
    let k = v.opening[id].src.key_spec();
    if !v.sessions.contains_key(k) {
        assert(w.sessions.remove(k) =~= v.sessions);
    } else {
        assert(w.sessions.remove(k) =~= v.sessions.remove(k));
    }
}

/// A session that could not be opened is forgotten with its slot, and nothing else changes.
pub proof fn law_failed_opens_are_forgotten(v: SessionsView, id: u64)
    ensures
        ({
            let w = v.after_open_failed(id);
            &&& !v.opening.contains_key(id) ==> w == v
            &&& v.opening.contains_key(id) ==> {
                &&& w.opening == v.opening.remove(id)
                &&& w.limits == v.limits.released(v.opening[id].src.ip_spec())
            }
            &&& w.sessions == v.sessions
            &&& w.next_id == v.next_id
            &&& w.idle_secs == v.idle_secs
        }),
{
}

/// A datagram that a relay moves keeps alive the session with its number and source, open
/// or being opened, and no other.
pub proof fn law_relays_touch_their_own_session(
    v: SessionsView,
    src: SocketAddr,
    id: u64,
    now: u64,
)
    requires
        v.wf(),
    ensures
        ({
            let w = v.after_relayed(src, id, now);
            let k = src.key_spec();
            &&& v.opening.contains_key(id) && v.opening[id].src == src ==> {
                &&& w.opening.contains_key(id)
                &&& w.opening[id].last_activity == now
                &&& w.opening[id].src == src
                &&& w.opening.remove(id) == v.opening.remove(id)
                &&& w.sessions == v.sessions
            }
            &&& v.sessions.contains_key(k) && v.sessions[k].id == id ==> {
                &&& w.sessions.contains_key(k)
                &&& w.sessions[k].last_activity == now
                &&& w.sessions[k].id == id
                &&& w.sessions[k].src == v.sessions[k].src
                &&& w.sessions.remove(k) == v.sessions.remove(k)
                &&& w.opening == v.opening
            }
            &&& !(v.opening.contains_key(id) && v.opening[id].src == src) && !(
            v.sessions.contains_key(k) && v.sessions[k].id == id) ==> w == v
            &&& w.limits == v.limits
            &&& w.next_id == v.next_id
            &&& w.idle_secs == v.idle_secs
        }),
{
    let w = v.after_relayed(src, id, now);
    let k = src.key_spec();
    assert(w.sessions.remove(k) =~= v.sessions.remove(k));
    assert(w.opening.remove(id) =~= v.opening.remove(id));
}

/// Who is evicted: exactly the sessions through which no datagram passed for the idle
/// timeout, where there is one; all others stay as they are, with all that is being opened.
pub proof fn law_eviction_is_exact(v: SessionsView, w: SessionsView, now: u64, k: SocketKey)
    requires
        v.sweeps_to(w, now),
        v.idle_secs * 1000 <= u64::MAX,
    ensures
        w.sessions.contains_key(k) <==> v.sessions.contains_key(k) && (v.idle_secs == 0 || now
            - v.sessions[k].last_activity < v.idle_secs * 1000),
        w.sessions.contains_key(k) ==> w.sessions[k] == v.sessions[k],
        w.opening == v.opening,
        w.next_id == v.next_id,
        w.idle_secs == v.idle_secs,
        w.limits.max_total == v.limits.max_total,
        w.limits.max_per_ip == v.limits.max_per_ip,
        w.limits.total_warned == v.limits.total_warned,
        w.limits.warned == v.limits.warned,
{
}

/// An idle timeout of more milliseconds than the clock can show is cut to what it can show.
pub proof fn law_huge_idle_timeouts_are_cut(v: SessionsView, session: SessionView, now: u64)
    requires
        v.idle_secs * 1000 > u64::MAX,
    ensures
        v.stale(session, now) <==> now == u64::MAX && session.last_activity == 0,
{
}

/// Which sessions a sweep tears down: one number for each idle session, and no other.
pub proof fn law_idle_sessions_are_listed(v: SessionsView, ids: Seq<u64>, now: u64, k: SocketKey)
    requires
        v.wf(),
        v.lists_idle(ids, now),
        v.idle_secs * 1000 <= u64::MAX,
        v.sessions.contains_key(k),
    ensures
        ids.no_duplicates(),
        ids.contains(v.sessions[k].id) <==> v.idle_secs > 0 && now - v.sessions[k].last_activity
            >= v.idle_secs * 1000,
        forall|id: u64| #[trigger]
            ids.contains(id) ==> exists|j: SocketKey| #[trigger]
                v.sessions.contains_key(j) && v.sessions[j].id == id,
{
    if ids.contains(v.sessions[k].id) {
        let j = choose|j: SocketKey| #[trigger]
            v.sessions.contains_key(j) && v.sessions[j].id == v.sessions[k].id && v.stale(
                v.sessions[j],
                now,
            );
        assert(j == k);
    }
}

/// Which sessions a shutdown tears down: one number for each session, and no other.
pub proof fn law_all_sessions_are_listed(v: SessionsView, ids: Seq<u64>, k: SocketKey)
    requires
        v.lists_all(ids),
        v.sessions.contains_key(k),
    ensures
        ids.no_duplicates(),
        ids.contains(v.sessions[k].id),
        forall|id: u64| #[trigger]
            ids.contains(id) ==> exists|j: SocketKey| #[trigger]
                v.sessions.contains_key(j) && v.sessions[j].id == id,
{
}

/// What a sweep and a shutdown record: as many sessions closed as are torn down, and as
/// many active as are left.
pub proof fn law_closed_sessions_are_recorded(v: SessionsView, evicted: nat, left: nat)
    requires
        evicted <= u64::MAX,
        left <= i64::MAX,
        v.sessions.len() <= u64::MAX,
    ensures
        SessionsView::sweep_record(evicted, left).len() == 2,
        SessionsView::sweep_record(evicted, left)[0] matches MetricEvent::Closed(reason, n)
            && reason == CloseReason::IdleTimeout && n == evicted,
        SessionsView::sweep_record(evicted, left)[1] matches MetricEvent::ActiveSet(n) && n == left,
        v.shutdown_record().len() == 2,
        v.shutdown_record()[0] matches MetricEvent::Closed(reason, n) && reason
            == CloseReason::Shutdown && n == v.sessions.len(),
        v.shutdown_record()[1] == MetricEvent::ActiveSet(0),
{
}

/// Every session, open or being opened, holds a slot of its own address, and no slot is
/// held by anything else.
pub proof fn law_every_session_holds_a_slot(v: SessionsView, src: SocketAddr, id: u64)
    requires
        v.wf(),
    ensures
        v.has(src) ==> v.limits.count(src.ip_spec()) > 0,
        v.opening.contains_key(id) ==> v.limits.count(v.opening[id].src.ip_spec()) > 0,
        v.limits.total == v.sessions.len() + v.opening.len(),
        v.sessions.len() == 0 && v.opening.len() == 0 ==> v.limits.total == 0,
{
    if v.has(src) {
        v.lemma_session_holds_slot(src.key_spec());
        crate::addr::lemma_socket_key_injective(v.of(src).src, src);
    }
    if v.opening.contains_key(id) {
        v.lemma_opening_holds_slot(id);
    }
}

/// Idle sessions are looked for every five seconds.
pub proof fn law_sweeps_come_every_five_seconds()
    ensures
        SWEEP_TICK_MS == 5 * 1000,
{
}

} // verus!
