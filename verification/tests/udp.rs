use oxiduct::addr::{Ipv4Addr, Ipv6Addr, SocketAddr};
use oxiduct::config::{Protocol, ProxyConfig};
use oxiduct::limits::{Reject, Usage};
use oxiduct::metrics::{CloseReason, MetricEvent};
use oxiduct::proxy::tcp::Dir;
use oxiduct::proxy::udp::open::{bind_addr, OpenError, OpenEvent, OpenStep};
use oxiduct::proxy::udp::relay::{RelayAction, RelayEvent, UdpRelay};
use oxiduct::proxy::udp::sessions::{DatagramAction, OpenedAction, UdpSessions};

fn addr(last: u8, port: u16) -> SocketAddr {
    SocketAddr::V4 { ip: Ipv4Addr::new(127, 0, 0, last), port }
}

fn sessions(idle: u64, max_connections: u32, max_per_ip: u32) -> UdpSessions {
    let cfg = ProxyConfig {
        name: "p".into(),
        listen: "127.0.0.1:0".into(),
        target: "127.0.0.1:1".into(),
        protocol: Protocol::Udp,
        connect_timeout_secs: 3,
        keepalive_idle_secs: 60,
        keepalive_interval_secs: 10,
        keepalive_retries: 6,
        user_timeout_ms: 90_000,
        idle_timeout_secs: idle,
        half_close_timeout_secs: 30,
        max_connections,
        max_per_ip,
        proxy_protocol: false,
    };
    let (s, events) = UdpSessions::new(&cfg);
    let mut expected = vec![MetricEvent::ActiveAdd(0)];
    if idle > 0 {
        expected.push(MetricEvent::Closed(CloseReason::IdleTimeout, 0));
    }
    assert_eq!(events, expected);
    s
}

/// Opens a session and returns its number.
fn open(s: &mut UdpSessions, src: SocketAddr, now: u64) -> u64 {
    let (action, recorded) = s.on_datagram(src, now);
    assert_eq!(recorded, None);
    let DatagramAction::Open { id, .. } = action else {
        panic!("not opened: {action:?}");
    };
    let (action, events) = s.on_opened(id, now, now);
    assert_eq!(action, OpenedAction::Keep);
    assert_eq!(
        events,
        [MetricEvent::Accepted(Protocol::Udp), MetricEvent::ActiveSet(s.len() as i64)]
    );
    id
}

#[test]
fn same_source_keeps_its_session() {
    let mut s = sessions(60, 0, 0);
    assert!(s.can_take(addr(1, 10)));
    let id = open(&mut s, addr(1, 10), 0);
    for now in 1..5 {
        assert_eq!(s.on_datagram(addr(1, 10), now), (DatagramAction::Forward(id), None));
    }
    assert_eq!(s.len(), 1);
}

#[test]
fn different_sources_get_different_sessions() {
    let mut s = sessions(60, 0, 0);
    let v6 = |scope_id| SocketAddr::V6 {
        ip: Ipv6Addr::new(0xfe80, 0, 0, 0, 0, 0, 0, 1),
        port: 10,
        flowinfo: 0,
        scope_id,
    };
    let sources = [addr(1, 10), addr(1, 11), addr(2, 10), v6(1), v6(2)];
    let ids: Vec<u64> = sources.iter().map(|src| open(&mut s, *src, 0)).collect();
    for (i, src) in sources.iter().enumerate() {
        assert_eq!(s.on_datagram(*src, 1).0, DatagramAction::Forward(ids[i]));
        assert_eq!(ids.iter().filter(|id| **id == ids[i]).count(), 1);
    }
    assert_eq!(s.len(), 5);
}

#[test]
fn limits_hold_for_sessions() {
    let mut s = sessions(60, 3, 2);
    open(&mut s, addr(1, 1), 0);
    // A session that is being opened holds its slot already.
    let (action, _) = s.on_datagram(addr(1, 2), 0);
    let DatagramAction::Open { id, total_notice, per_ip_notice } = action else {
        panic!("not opened");
    };
    assert_eq!(total_notice, None);
    assert_eq!(per_ip_notice, Some(Usage { used: 2, limit: 2 }));
    assert_eq!(
        s.on_datagram(addr(1, 3), 0),
        (
            DatagramAction::Refuse(Reject::PerIp),
            Some(MetricEvent::Rejected(Reject::PerIp))
        )
    );
    open(&mut s, addr(2, 1), 0);
    assert_eq!(
        s.on_datagram(addr(3, 1), 0),
        (
            DatagramAction::Refuse(Reject::Total),
            Some(MetricEvent::Rejected(Reject::Total))
        )
    );
    // A failed open gives the slot back.
    s.on_open_failed(id);
    s.on_open_failed(id);
    open(&mut s, addr(3, 1), 0);
    assert_eq!(s.len(), 3);
}

#[test]
fn the_first_of_two_racing_sessions_stays() {
    let mut s = sessions(60, 2, 0);
    let DatagramAction::Open { id: first, .. } = s.on_datagram(addr(1, 1), 0).0 else {
        panic!("not opened");
    };
    let DatagramAction::Open { id: second, .. } = s.on_datagram(addr(1, 1), 1).0 else {
        panic!("not opened");
    };
    assert_eq!(s.on_opened(second, 5, 5).0, OpenedAction::Keep);
    assert_eq!(s.on_opened(first, 6, 7), (OpenedAction::Discard(second), vec![]));
    assert_eq!(s.on_opened(first, 8, 8), (OpenedAction::Unknown, vec![]));
    assert_eq!(s.len(), 1);
    // The slot of the later one is free again.
    open(&mut s, addr(2, 1), 9);
    // The one that stayed was touched when the other was discarded.
    assert_eq!(s.sweep(60_006).0, Vec::<u64>::new());
    assert_eq!(s.sweep(60_007).0, vec![second]);
}

#[test]
fn idle_sessions_are_evicted_and_opened_anew() {
    let mut s = sessions(1, 0, 0);
    let a = open(&mut s, addr(1, 1), 0);
    let b = open(&mut s, addr(2, 1), 0);
    s.on_relayed(addr(2, 1), b, 500);
    assert_eq!(
        s.sweep(999),
        (
            vec![],
            vec![MetricEvent::Closed(CloseReason::IdleTimeout, 0), MetricEvent::ActiveSet(2)]
        )
    );
    assert_eq!(
        s.sweep(1_000),
        (
            vec![a],
            vec![MetricEvent::Closed(CloseReason::IdleTimeout, 1), MetricEvent::ActiveSet(1)]
        )
    );
    assert_eq!(s.on_datagram(addr(2, 1), 1_001).0, DatagramAction::Forward(b));
    let again = open(&mut s, addr(1, 1), 1_002);
    assert_ne!(again, a);
    // The relay of the evicted session keeps nothing alive.
    s.on_relayed(addr(1, 1), a, 9_000);
    assert_eq!(s.sweep(2_002).0, vec![again, b]);
    assert_eq!(s.len(), 0);
}

#[test]
fn early_traffic_counts_for_the_session() {
    let mut s = sessions(1, 0, 0);
    let DatagramAction::Open { id, .. } = s.on_datagram(addr(1, 1), 0).0 else {
        panic!("not opened");
    };
    s.on_relayed(addr(1, 1), id, 900);
    // A relay of another source touches nothing.
    s.on_relayed(addr(2, 1), id, 5_000);
    assert_eq!(s.on_opened(id, 100, 901).0, OpenedAction::Keep);
    assert_eq!(s.sweep(1_899).0, Vec::<u64>::new());
    assert_eq!(s.sweep(1_900).0, vec![id]);
}

#[test]
fn idle_zero_evicts_nothing() {
    let mut s = sessions(0, 0, 0);
    open(&mut s, addr(1, 1), 0);
    assert_eq!(s.sweep(u64::MAX), (vec![], vec![]));
    assert_eq!(s.len(), 1);
}

#[test]
fn huge_idle_timeouts_do_not_overflow() {
    let mut s = sessions(u64::MAX, 0, 0);
    let id = open(&mut s, addr(1, 1), 0);
    assert_eq!(s.sweep(u64::MAX - 1).0, Vec::<u64>::new());
    assert_eq!(s.sweep(u64::MAX).0, vec![id]);
}

#[test]
fn evicted_slots_are_free_again() {
    let mut s = sessions(1, 4, 2);
    for port in 0..2 {
        open(&mut s, addr(1, port), 0);
        open(&mut s, addr(2, port), 0);
    }
    assert_eq!(s.on_datagram(addr(3, 1), 0).0, DatagramAction::Refuse(Reject::Total));
    assert_eq!(s.sweep(1_000).0.len(), 4);
    for port in 0..2 {
        open(&mut s, addr(1, port), 2_000);
        open(&mut s, addr(2, port), 2_000);
    }
}

#[test]
fn shutdown_closes_every_session() {
    let mut s = sessions(60, 0, 0);
    let mut ids: Vec<u64> = (0..4).map(|port| open(&mut s, addr(1, port), 0)).collect();
    let (mut closed, events) = s.on_shutdown();
    ids.sort();
    closed.sort();
    assert_eq!(closed, ids);
    assert_eq!(
        events,
        [MetricEvent::Closed(CloseReason::Shutdown, 4), MetricEvent::ActiveSet(0)]
    );
}

// ── Opening ──────────────────────────────────────────────────────────────────

#[test]
fn sessions_open_step_by_step() {
    let v6 = SocketAddr::V6 {
        ip: Ipv6Addr::new(0, 0, 0, 0, 0, 0, 0, 1),
        port: 53,
        flowinfo: 0,
        scope_id: 0,
    };
    let any_v6 = SocketAddr::V6 {
        ip: Ipv6Addr::new(0, 0, 0, 0, 0, 0, 0, 0),
        port: 0,
        flowinfo: 0,
        scope_id: 0,
    };
    let any_v4 = SocketAddr::V4 { ip: Ipv4Addr::new(0, 0, 0, 0), port: 0 };
    assert_eq!(bind_addr(v6), any_v6);
    assert_eq!(bind_addr(addr(1, 53)), any_v4);

    let (step, events) = OpenStep::Resolve.next(OpenEvent::Resolved(vec![v6, addr(1, 53)]));
    assert_eq!(step, OpenStep::Bind { target: v6 });
    assert_eq!(events, []);
    let (step, events) = step.next(OpenEvent::Bound);
    assert_eq!(step, OpenStep::Connect { target: v6 });
    assert_eq!(events, []);
    let (step, events) = step.next(OpenEvent::Connected);
    assert_eq!(step, OpenStep::Opened);
    assert_eq!(
        events,
        [MetricEvent::Relayed(Dir::Up, 0), MetricEvent::Relayed(Dir::Down, 0)]
    );
    assert_eq!(step.next(OpenEvent::Connected), (OpenStep::Opened, vec![]));
}

#[test]
fn sessions_fail_to_open() {
    let target = addr(1, 53);
    let fail = |step: OpenStep, event| match step.next(event).0 {
        OpenStep::Failed(e) => e.message("dns.example:53"),
        other => panic!("{other:?}"),
    };
    assert_eq!(fail(OpenStep::Resolve, OpenEvent::LookupFailed), "DNS lookup dns.example:53");
    assert_eq!(
        fail(OpenStep::Resolve, OpenEvent::Resolved(vec![])),
        "no address resolved for dns.example:53"
    );
    assert_eq!(fail(OpenStep::Bind { target }, OpenEvent::BindFailed), "UDP upstream bind");
    assert_eq!(fail(OpenStep::Connect { target }, OpenEvent::ConnectFailed), "UDP connect");
    assert_eq!(
        fail(OpenStep::Connect { target }, OpenEvent::ConnectTimedOut),
        "UDP connect timeout"
    );
    let failed = OpenStep::Failed(OpenError::Bind);
    assert_eq!(failed.next(OpenEvent::Bound), (failed, vec![]));
}

// ── Relay ────────────────────────────────────────────────────────────────────

#[test]
fn datagrams_are_relayed_whole() {
    let mut r = UdpRelay::new(Dir::Down);
    for datagram in [b"ping".to_vec(), vec![], vec![7; 1400]] {
        assert_eq!(r.on_event(RelayEvent::Received(datagram.clone())), (RelayAction::Send, None));
        assert_eq!(r.pending(), Some(&datagram));
        let n = datagram.len() as u64;
        assert_eq!(
            r.on_event(RelayEvent::Sent(n)),
            (RelayAction::Receive, Some(MetricEvent::Relayed(Dir::Down, n)))
        );
        assert_eq!(r.pending(), None);
    }
}

#[test]
fn relay_stops() {
    for event in [RelayEvent::Stopped, RelayEvent::ReceiveFailed] {
        let mut r = UdpRelay::new(Dir::Up);
        assert_eq!(r.on_event(event), (RelayAction::Stop, None));
        assert_eq!(r.on_event(RelayEvent::Received(vec![1])), (RelayAction::Ignore, None));
    }
    let mut r = UdpRelay::new(Dir::Up);
    r.on_event(RelayEvent::Received(vec![1]));
    assert_eq!(r.on_event(RelayEvent::SendFailed), (RelayAction::Stop, None));
}
