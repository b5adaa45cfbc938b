use oxiduct::addr::{Ipv4Addr, SocketAddr};
use oxiduct::config::{Protocol, ProxyConfig};
use oxiduct::limits::{ConnLimits, Reject};
use oxiduct::metrics::{CloseReason, MetricEvent};
use oxiduct::proxy::proxy_protocol::v2_header;
use oxiduct::proxy::start_events;
use oxiduct::proxy::tcp::connection::{ConnAction, ConnEvent, Connection};
use oxiduct::proxy::tcp::copy::{CopyAction, CopyEvent, CopyLoop, BUF_SIZE};
use oxiduct::proxy::tcp::watchdog::{WatchEvent, Watchdog};
use oxiduct::proxy::tcp::{serve_step, Dir, End, ListenAction, ListenEvent};

fn addr(last: u8, port: u16) -> SocketAddr {
    SocketAddr::V4 { ip: Ipv4Addr::new(127, 0, 0, last), port }
}

fn cfg(idle: u64, half_close: u64, proxy_protocol: bool) -> ProxyConfig {
    ProxyConfig {
        name: "p".into(),
        listen: "127.0.0.1:0".into(),
        target: "127.0.0.1:1".into(),
        protocol: Protocol::Tcp,
        connect_timeout_secs: 3,
        keepalive_idle_secs: 60,
        keepalive_interval_secs: 10,
        keepalive_retries: 6,
        user_timeout_ms: 90_000,
        idle_timeout_secs: idle,
        half_close_timeout_secs: half_close,
        max_connections: 7,
        max_per_ip: 5,
        proxy_protocol,
    }
}

// ── Accept loop ──────────────────────────────────────────────────────────────

#[test]
fn configured_limits_are_published() {
    assert_eq!(
        start_events(&cfg(0, 0, false)),
        [MetricEvent::MaxConnections(7), MetricEvent::MaxPerIp(5)]
    );
}

#[test]
fn clients_are_admitted_up_to_the_limits() {
    let mut limits = ConnLimits::new(2, 1);
    let (first, recorded) = serve_step(&mut limits, ListenEvent::Accepted(addr(1, 10)));
    let ListenAction::Serve(guard) = first else {
        panic!("not served");
    };
    assert_eq!(recorded, Some(MetricEvent::Accepted(Protocol::Tcp)));
    assert_eq!(guard.src_ip(), addr(1, 0).ip());

    let (again, recorded) = serve_step(&mut limits, ListenEvent::Accepted(addr(1, 11)));
    assert!(matches!(again, ListenAction::Refuse(Reject::PerIp)));
    assert_eq!(recorded, Some(MetricEvent::Rejected(Reject::PerIp)));

    let (other, _) = serve_step(&mut limits, ListenEvent::Accepted(addr(2, 10)));
    assert!(matches!(other, ListenAction::Serve(_)));

    let (third, recorded) = serve_step(&mut limits, ListenEvent::Accepted(addr(3, 10)));
    assert!(matches!(third, ListenAction::Refuse(Reject::Total)));
    assert_eq!(recorded, Some(MetricEvent::Rejected(Reject::Total)));

    limits.release(guard);
    let (retry, _) = serve_step(&mut limits, ListenEvent::Accepted(addr(1, 12)));
    assert!(matches!(retry, ListenAction::Serve(_)));
}

#[test]
fn every_client_is_counted_once() {
    let mut limits = ConnLimits::new(3, 2);
    let mut guards = Vec::new();
    let mut recorded = Vec::new();
    for last in [1, 1, 1, 2, 3, 3] {
        let (action, event) = serve_step(&mut limits, ListenEvent::Accepted(addr(last, 10)));
        recorded.extend(event);
        if let ListenAction::Serve(guard) = action {
            guards.push(guard);
        }
        assert!(limits.total() <= 3);
    }
    assert_eq!(
        recorded,
        [
            MetricEvent::Accepted(Protocol::Tcp),
            MetricEvent::Accepted(Protocol::Tcp),
            MetricEvent::Rejected(Reject::PerIp),
            MetricEvent::Accepted(Protocol::Tcp),
            MetricEvent::Rejected(Reject::Total),
            MetricEvent::Rejected(Reject::Total),
        ]
    );
    assert_eq!(guards.len(), limits.total() as usize);
}

#[test]
fn accept_errors_are_not_fatal() {
    let mut limits = ConnLimits::new(0, 0);
    let (action, recorded) = serve_step(&mut limits, ListenEvent::AcceptFailed);
    assert!(matches!(action, ListenAction::Continue));
    assert_eq!(recorded, None);
    let (action, recorded) = serve_step(&mut limits, ListenEvent::Shutdown);
    assert!(matches!(action, ListenAction::Stop));
    assert_eq!(recorded, None);
}

// ── Watchdog ─────────────────────────────────────────────────────────────────

#[test]
fn watchdog_sleeps_until_the_nearest_deadline() {
    let w = Watchdog::new(2, 0);
    // 1.5 s left of the idle timeout.
    assert_eq!(w.wake_ms(1_500, 1_000), 1_500);
    // Nearly there, there, and past it: the floor.
    assert_eq!(w.wake_ms(2_999, 1_000), 20);
    assert_eq!(w.wake_ms(3_000, 1_000), 20);
    assert_eq!(w.wake_ms(9_000, 1_000), 20);
    // Far away: the tick.
    assert_eq!(Watchdog::new(300, 30).wake_ms(0, 0), 5_000);
    assert_eq!(Watchdog::new(0, 0).wake_ms(0, 0), 5_000);
    assert_eq!(Watchdog::new(u64::MAX, u64::MAX).wake_ms(u64::MAX, u64::MAX), 5_000);
    // The half-close deadline counts once one side has ended.
    let mut w = Watchdog::new(0, 1);
    assert_eq!(w.wake_ms(100, 0), 5_000);
    assert_eq!(w.on_event(WatchEvent::Done(Dir::Up, End::Eof), 100, 0), None);
    assert_eq!(w.half_close_since, Some(100));
    assert_eq!(w.wake_ms(400, 0), 700);
}

#[test]
fn silent_connection_is_closed_at_the_idle_timeout() {
    let mut w = Watchdog::new(1, 0);
    assert_eq!(w.on_event(WatchEvent::Tick, 1_999, 1_000), None);
    assert_eq!(
        w.on_event(WatchEvent::Tick, 2_000, 1_000),
        Some(CloseReason::IdleTimeout)
    );
}

#[test]
fn traffic_resets_the_idle_timeout() {
    let mut w = Watchdog::new(1, 0);
    for second in 1..10 {
        assert_eq!(w.on_event(WatchEvent::Tick, second * 1_000, second * 1_000 - 1), None);
    }
    // A byte may move after the time was read.
    assert_eq!(w.on_event(WatchEvent::Tick, 10_000, 10_001), None);
}

#[test]
fn timeouts_of_zero_are_disabled() {
    let mut w = Watchdog::new(0, 0);
    assert_eq!(w.on_event(WatchEvent::Done(Dir::Down, End::Eof), 0, 0), None);
    assert_eq!(w.on_event(WatchEvent::Tick, u64::MAX, 0), None);
    assert_eq!(w.half_close_since, None);
}

#[test]
fn half_close_grace_starts_at_the_first_end() {
    let mut w = Watchdog::new(0, 2);
    assert_eq!(w.on_event(WatchEvent::Done(Dir::Up, End::Eof), 5_000, 5_000), None);
    assert_eq!(w.on_event(WatchEvent::Tick, 6_999, 6_999), None);
    assert_eq!(
        w.on_event(WatchEvent::Tick, 7_000, 7_000),
        Some(CloseReason::HalfCloseTimeout)
    );
}

#[test]
fn half_close_grace_outlives_the_channel() {
    let mut w = Watchdog::new(0, 2);
    assert_eq!(w.on_event(WatchEvent::Done(Dir::Up, End::Eof), 0, 0), None);
    assert_eq!(w.on_event(WatchEvent::ChannelClosed, 1, 0), None);
    assert_eq!(
        w.on_event(WatchEvent::Tick, 2_000, 0),
        Some(CloseReason::HalfCloseTimeout)
    );
}

#[test]
fn both_ends_close_cleanly_or_as_reset() {
    let run = |a, b| {
        let mut w = Watchdog::new(300, 30);
        assert_eq!(w.on_event(WatchEvent::Done(Dir::Up, a), 0, 0), None);
        w.on_event(WatchEvent::Done(Dir::Down, b), 1, 0)
    };
    assert_eq!(run(End::Eof, End::Eof), Some(CloseReason::Eof));
    assert_eq!(run(End::Error, End::Eof), Some(CloseReason::Reset));
    assert_eq!(run(End::Eof, End::Error), Some(CloseReason::Reset));
    // The end of both directions counts before any timeout.
    let mut w = Watchdog::new(1, 1);
    assert_eq!(w.on_event(WatchEvent::Done(Dir::Down, End::Eof), 0, 0), None);
    assert_eq!(
        w.on_event(WatchEvent::Done(Dir::Up, End::Eof), 99_999, 0),
        Some(CloseReason::Eof)
    );
}

#[test]
fn shutdown_and_closed_channel() {
    let mut w = Watchdog::new(300, 30);
    assert_eq!(w.on_event(WatchEvent::ChannelClosed, 0, 0), None);
    assert!(!w.channel_open);
    assert_eq!(w.on_event(WatchEvent::Done(Dir::Up, End::Eof), 0, 0), None);
    assert!(!w.up_done);
    assert_eq!(w.on_event(WatchEvent::Shutdown, 0, 0), Some(CloseReason::Shutdown));
}

// ── Copy loop ────────────────────────────────────────────────────────────────

#[test]
fn bytes_are_counted_once_they_are_written() {
    assert_eq!(BUF_SIZE, 16_384);
    let mut c = CopyLoop::new(Dir::Up);
    assert_eq!(c.on_event(CopyEvent::Read(b"hello".to_vec())), (CopyAction::Write, None));
    assert_eq!(c.pending(), Some(&b"hello".to_vec()));
    assert_eq!(c.total(), 0);
    assert_eq!(
        c.on_event(CopyEvent::Written),
        (CopyAction::Read, Some(MetricEvent::Relayed(Dir::Up, 5)))
    );
    assert_eq!(c.pending(), None);
    assert_eq!(c.total(), 5);
    assert_eq!(c.on_event(CopyEvent::Read(b"!".to_vec())), (CopyAction::Write, None));
    assert_eq!(
        c.on_event(CopyEvent::WriteFailed),
        (CopyAction::Finish { end: End::Error, shut_writer: false }, None)
    );
    assert_eq!(c.total(), 5);
    // Nothing more happens.
    assert_eq!(c.on_event(CopyEvent::Read(b"?".to_vec())), (CopyAction::Ignore, None));
    assert_eq!(c.total(), 5);
}

#[test]
fn copy_loop_ends() {
    let end = |event| CopyLoop::new(Dir::Down).on_event(event).0;
    assert_eq!(
        end(CopyEvent::Read(vec![])),
        CopyAction::Finish { end: End::Eof, shut_writer: true }
    );
    assert_eq!(
        end(CopyEvent::ReadFailed),
        CopyAction::Finish { end: End::Error, shut_writer: true }
    );
    assert_eq!(
        end(CopyEvent::Cancelled),
        CopyAction::Finish { end: End::Eof, shut_writer: false }
    );
    assert_eq!(end(CopyEvent::Written), CopyAction::Ignore);
    // A write is not cancelled half-way.
    let mut c = CopyLoop::new(Dir::Down);
    c.on_event(CopyEvent::Read(vec![1]));
    assert_eq!(c.on_event(CopyEvent::Cancelled), (CopyAction::Ignore, None));
    assert_eq!(c.pending(), Some(&vec![1]));
}

#[test]
fn what_arrives_is_what_was_sent() {
    let mut c = CopyLoop::new(Dir::Up);
    let mut sent = Vec::new();
    let mut arrived = Vec::new();
    for i in 0..100u8 {
        let chunk = vec![i; i as usize + 1];
        sent.extend_from_slice(&chunk);
        assert_eq!(c.on_event(CopyEvent::Read(chunk)).0, CopyAction::Write);
        arrived.extend_from_slice(c.pending().unwrap());
        assert_eq!(c.on_event(CopyEvent::Written).0, CopyAction::Read);
    }
    assert_eq!(arrived, sent);
    assert_eq!(c.total(), sent.len() as u64);
}

// ── Connection ───────────────────────────────────────────────────────────────

const STARTED: [MetricEvent; 3] = [
    MetricEvent::ActiveAdd(1),
    MetricEvent::Relayed(Dir::Up, 0),
    MetricEvent::Relayed(Dir::Down, 0),
];

#[test]
fn failed_connects_are_counted() {
    let mut c = Connection::new(&cfg(300, 30, true), addr(1, 10));
    assert_eq!(
        c.on_event(ConnEvent::ConnectFailed),
        (ConnAction::Close, vec![MetricEvent::ConnectFailed])
    );
    let mut c = Connection::new(&cfg(300, 30, false), addr(1, 10));
    assert_eq!(
        c.on_event(ConnEvent::ConnectTimedOut),
        (ConnAction::Close, vec![MetricEvent::ConnectTimedOut])
    );
    assert_eq!(
        c.on_event(ConnEvent::Connected { local: None }),
        (ConnAction::Ignore, vec![])
    );
}

#[test]
fn announcement_precedes_the_relay() {
    let (client, listener) = (addr(1, 51_000), addr(1, 587));
    let mut c = Connection::new(&cfg(300, 30, true), client);
    assert_eq!(
        c.on_event(ConnEvent::Connected { local: Some(listener) }),
        (ConnAction::Announce, vec![])
    );
    assert_eq!(c.pending_header(), Some(&v2_header(client, listener)));
    assert_eq!(c.wake_ms(0, 0), None);
    assert_eq!(c.on_event(ConnEvent::Announced), (ConnAction::Relay, STARTED.to_vec()));
    assert_eq!(c.pending_header(), None);
    assert_eq!(c.wake_ms(0, 0), Some(5_000));
}

#[test]
fn failed_announcement_drops_the_connection() {
    let mut c = Connection::new(&cfg(300, 30, true), addr(1, 10));
    c.on_event(ConnEvent::Connected { local: Some(addr(1, 1)) });
    assert_eq!(
        c.on_event(ConnEvent::AnnounceFailed),
        (ConnAction::Close, vec![MetricEvent::ConnectFailed])
    );
    let mut c = Connection::new(&cfg(300, 30, true), addr(1, 10));
    assert_eq!(
        c.on_event(ConnEvent::Connected { local: None }),
        (ConnAction::Close, vec![MetricEvent::ConnectFailed])
    );
}

#[test]
fn no_announcement_when_disabled() {
    let mut c = Connection::new(&cfg(300, 30, false), addr(1, 10));
    assert_eq!(
        c.on_event(ConnEvent::Connected { local: Some(addr(1, 1)) }),
        (ConnAction::Relay, STARTED.to_vec())
    );
    assert_eq!(c.pending_header(), None);
}

fn relayed(idle: u64, half_close: u64) -> Connection {
    let mut c = Connection::new(&cfg(idle, half_close, false), addr(1, 10));
    c.on_event(ConnEvent::Connected { local: None });
    c
}

fn watch(event: WatchEvent, now: u64, last_activity: u64) -> ConnEvent {
    ConnEvent::Watch { event, now, last_activity }
}

#[test]
fn relayed_connection_ends_for_one_reason() {
    let mut c = relayed(300, 30);
    let up = watch(WatchEvent::Done(Dir::Up, End::Eof), 10, 10);
    assert_eq!(c.on_event(up), (ConnAction::Wait, vec![]));
    assert_eq!(c.close_reason(), None);
    let down = watch(WatchEvent::Done(Dir::Down, End::Error), 20, 10);
    assert_eq!(c.on_event(down), (ConnAction::Drain { cancel: false }, vec![]));
    assert_eq!(c.close_reason(), Some(CloseReason::Reset));
    assert_eq!(
        c.on_event(ConnEvent::Drained),
        (
            ConnAction::Close,
            vec![MetricEvent::Closed(CloseReason::Reset, 1), MetricEvent::ActiveAdd(-1)]
        )
    );
    assert_eq!(c.on_event(ConnEvent::Drained), (ConnAction::Ignore, vec![]));
}

#[test]
fn timeouts_and_shutdown_cancel_the_relay() {
    let ends = [
        (watch(WatchEvent::Tick, 300_000, 0), CloseReason::IdleTimeout),
        (watch(WatchEvent::Shutdown, 0, 0), CloseReason::Shutdown),
    ];
    for (event, reason) in ends {
        let mut c = relayed(300, 30);
        assert_eq!(c.on_event(event), (ConnAction::Drain { cancel: true }, vec![]));
        assert_eq!(c.close_reason(), Some(reason));
        assert_eq!(
            c.on_event(ConnEvent::Drained).1,
            vec![MetricEvent::Closed(reason, 1), MetricEvent::ActiveAdd(-1)]
        );
    }
    let mut c = relayed(0, 30);
    c.on_event(watch(WatchEvent::Done(Dir::Up, End::Eof), 1_000, 0));
    assert_eq!(
        c.on_event(watch(WatchEvent::Tick, 31_000, 0)).0,
        ConnAction::Drain { cancel: true }
    );
    assert_eq!(c.close_reason(), Some(CloseReason::HalfCloseTimeout));
}
