use oxiduct::config::Protocol;
use oxiduct::limits::Reject;
use oxiduct::metrics::http::{
    is_metrics_request, metrics_response, not_found_response, respond,
};
use oxiduct::metrics::{protocol_label, reject_label, CloseReason, MetricEvent, Metrics};
use oxiduct::proxy::tcp::Dir;

fn text(m: &Metrics) -> String {
    String::from_utf8(m.render()).unwrap()
}

#[test]
fn render_contains_registered_metrics() {
    let mut m = Metrics::new();
    m.record("p1", MetricEvent::Accepted(Protocol::Tcp));
    m.record("p1", MetricEvent::Relayed(Dir::Up, 123));
    m.record("p1", MetricEvent::ActiveSet(2));

    let out = text(&m);
    assert!(out.contains("oxiduct_connections_total"));
    assert!(out.contains("oxiduct_bytes_total"));
    assert!(out.contains("oxiduct_active_connections"));
    assert!(out.contains("123"));
    // HELP/TYPE lines present (valid exposition format).
    assert!(out.contains("# HELP oxiduct_bytes_total"));
    assert!(out.contains("# TYPE oxiduct_bytes_total counter"));
}

#[test]
fn labels_isolated() {
    let mut m = Metrics::new();
    m.record("p1", MetricEvent::Closed(CloseReason::Eof, 1));
    m.record("p1", MetricEvent::Closed(CloseReason::Reset, 3));
    let out = text(&m);
    assert!(out.contains("reason=\"eof\""));
    assert!(out.contains("reason=\"reset\""));
}

#[test]
fn nothing_is_shown_before_the_first_event() {
    assert_eq!(text(&Metrics::new()), "");
}

#[test]
fn every_event_moves_its_own_series() {
    let mut m = Metrics::new();
    m.record_all(
        "p1",
        &vec![
            MetricEvent::Accepted(Protocol::Tcp),
            MetricEvent::Accepted(Protocol::Udp),
            MetricEvent::Accepted(Protocol::Udp),
            MetricEvent::Rejected(Reject::Total),
            MetricEvent::Rejected(Reject::PerIp),
            MetricEvent::ConnectFailed,
            MetricEvent::ConnectTimedOut,
            MetricEvent::Relayed(Dir::Up, 10),
            MetricEvent::Relayed(Dir::Up, 20),
            MetricEvent::Relayed(Dir::Down, 0),
            MetricEvent::Closed(CloseReason::Eof, 1),
            MetricEvent::Closed(CloseReason::IdleTimeout, 4),
            MetricEvent::ActiveAdd(1),
            MetricEvent::ActiveAdd(1),
            MetricEvent::ActiveAdd(-1),
            MetricEvent::MaxConnections(32_000),
            MetricEvent::MaxPerIp(320),
        ],
    );
    let expected = "\
# HELP oxiduct_active_connections Currently active connections / sessions
# TYPE oxiduct_active_connections gauge
oxiduct_active_connections{proxy=\"p1\"} 1
# HELP oxiduct_bytes_total Bytes relayed
# TYPE oxiduct_bytes_total counter
oxiduct_bytes_total{direction=\"down\",proxy=\"p1\"} 0
oxiduct_bytes_total{direction=\"up\",proxy=\"p1\"} 30
# HELP oxiduct_connect_failures_total Upstream TCP connect failures
# TYPE oxiduct_connect_failures_total counter
oxiduct_connect_failures_total{proxy=\"p1\"} 1
# HELP oxiduct_connect_timeouts_total Upstream TCP connect timeouts
# TYPE oxiduct_connect_timeouts_total counter
oxiduct_connect_timeouts_total{proxy=\"p1\"} 1
# HELP oxiduct_connections_closed_total Connections / sessions closed, by reason
# TYPE oxiduct_connections_closed_total counter
oxiduct_connections_closed_total{proxy=\"p1\",reason=\"eof\"} 1
oxiduct_connections_closed_total{proxy=\"p1\",reason=\"idle_timeout\"} 4
# HELP oxiduct_connections_rejected_total Connections refused by the connection limiter
# TYPE oxiduct_connections_rejected_total counter
oxiduct_connections_rejected_total{proxy=\"p1\",reason=\"per_ip\"} 1
oxiduct_connections_rejected_total{proxy=\"p1\",reason=\"total\"} 1
# HELP oxiduct_connections_total Connections accepted / UDP sessions opened
# TYPE oxiduct_connections_total counter
oxiduct_connections_total{protocol=\"tcp\",proxy=\"p1\"} 1
oxiduct_connections_total{protocol=\"udp\",proxy=\"p1\"} 2
# HELP oxiduct_max_connections Configured total connection cap (0 = unlimited)
# TYPE oxiduct_max_connections gauge
oxiduct_max_connections{proxy=\"p1\"} 32000
# HELP oxiduct_max_per_ip Configured per-source-IP connection cap (0 = unlimited)
# TYPE oxiduct_max_per_ip gauge
oxiduct_max_per_ip{proxy=\"p1\"} 320
";
    assert_eq!(text(&m), expected);
}

#[test]
fn proxies_are_isolated() {
    let mut m = Metrics::new();
    m.record("a", MetricEvent::ActiveAdd(1));
    m.record("b", MetricEvent::ActiveAdd(1));
    m.record("b", MetricEvent::ActiveAdd(1));
    m.record("a", MetricEvent::ActiveAdd(-1));
    let out = text(&m);
    assert!(out.contains("oxiduct_active_connections{proxy=\"a\"} 0\n"));
    assert!(out.contains("oxiduct_active_connections{proxy=\"b\"} 2\n"));
}

#[test]
fn proxies_with_like_names_are_told_apart() {
    let mut m = Metrics::new();
    m.record("p", MetricEvent::Closed(CloseReason::HalfCloseTimeout, 1));
    m.record("p_half", MetricEvent::Closed(CloseReason::HalfCloseTimeout, 2));
    m.record("p_half_close", MetricEvent::Closed(CloseReason::IdleTimeout, 3));
    let out = text(&m);
    assert!(out.contains("{proxy=\"p\",reason=\"half_close_timeout\"} 1\n"));
    assert!(out.contains("{proxy=\"p_half\",reason=\"half_close_timeout\"} 2\n"));
    assert!(out.contains("{proxy=\"p_half_close\",reason=\"idle_timeout\"} 3\n"));
}

#[test]
fn every_reason_of_every_proxy_has_its_own_series() {
    let reasons = [
        CloseReason::Eof,
        CloseReason::Reset,
        CloseReason::IdleTimeout,
        CloseReason::HalfCloseTimeout,
        CloseReason::Shutdown,
    ];
    let proxies = ["", "p", "peof", "p_timeout", "p_idle", "half_close", "idle", "reset"];
    let mut m = Metrics::new();
    let mut expected = Vec::new();
    for (i, proxy) in proxies.iter().enumerate() {
        for (j, reason) in reasons.iter().enumerate() {
            let n = (10 * i + j + 1) as u64;
            m.record(proxy, MetricEvent::Closed(*reason, n));
            expected.push(format!(
                "oxiduct_connections_closed_total{{proxy=\"{proxy}\",reason=\"{}\"}} {n}\n",
                reason.label()
            ));
        }
    }
    let out = text(&m);
    assert_eq!(out.lines().count(), 2 + expected.len());
    for line in expected {
        assert!(out.contains(&line), "{line}");
    }
}

#[test]
fn counters_and_gauges_start_over() {
    let mut m = Metrics::new();
    m.record("p", MetricEvent::Relayed(Dir::Up, u64::MAX));
    m.record("p", MetricEvent::Relayed(Dir::Up, 8));
    m.record("p", MetricEvent::ActiveSet(i64::MAX));
    m.record("p", MetricEvent::ActiveAdd(1));
    m.record("p", MetricEvent::MaxPerIp(5));
    m.record("p", MetricEvent::MaxPerIp(-5));
    let out = text(&m);
    assert!(out.contains("oxiduct_bytes_total{direction=\"up\",proxy=\"p\"} 7\n"));
    assert!(out.contains("oxiduct_active_connections{proxy=\"p\"} -9223372036854776000\n"));
    assert!(out.contains("oxiduct_max_per_ip{proxy=\"p\"} -5\n"));
}

#[test]
fn labels_are_the_documented_ones() {
    assert_eq!(CloseReason::Eof.label(), "eof");
    assert_eq!(CloseReason::Reset.label(), "reset");
    assert_eq!(CloseReason::IdleTimeout.label(), "idle_timeout");
    assert_eq!(CloseReason::HalfCloseTimeout.label(), "half_close_timeout");
    assert_eq!(CloseReason::Shutdown.label(), "shutdown");
    assert_eq!(Dir::Up.label(), "up");
    assert_eq!(Dir::Down.label(), "down");
    assert_eq!(protocol_label(Protocol::Tcp), "tcp");
    assert_eq!(protocol_label(Protocol::Udp), "udp");
    assert_eq!(reject_label(Reject::Total), "total");
    assert_eq!(reject_label(Reject::PerIp), "per_ip");
}

// ── Exporter ─────────────────────────────────────────────────────────────────

#[test]
fn scrapes_are_recognised() {
    for head in [
        "GET /metrics HTTP/1.1\r\nHost: x\r\n\r\n",
        "GET /metrics",
        "GET /metrics\n",
        "GET /metrics?format=text HTTP/1.0\r\n",
        "GET /metrics? HTTP/1.0\r\n",
        "  GET \t /metrics\r\n",
        "GET\u{3000}/metrics HTTP/1.1",
    ] {
        assert!(is_metrics_request(head), "{head:?}");
    }
}

#[test]
fn other_requests_are_not_scrapes() {
    for head in [
        "",
        "\n",
        "GET",
        "GET ",
        "GET / HTTP/1.1\r\n",
        "get /metrics HTTP/1.1\r\n",
        "POST /metrics HTTP/1.1\r\n",
        "GET /metricsx HTTP/1.1\r\n",
        "GET /metrics/ HTTP/1.1\r\n",
        "GET /metrics/?a HTTP/1.1\r\n",
        "GET metrics HTTP/1.1\r\n",
        "GET/metrics HTTP/1.1\r\n",
        "GET x /metrics\r\n",
        "\r\nGET /metrics HTTP/1.1\r\n",
        "GET\n/metrics HTTP/1.1\r\n",
        "GETGET /metrics",
    ] {
        assert!(!is_metrics_request(head), "{head:?}");
    }
}

#[test]
fn white_space_agrees_with_std() {
    for code in 0..=char::MAX as u32 {
        let Some(c) = char::from_u32(code) else {
            continue;
        };
        let head = format!("GET{c}/metrics");
        assert_eq!(is_metrics_request(&head), c.is_whitespace() && c != '\n', "{c:?}");
    }
}

#[test]
fn scrape_gets_the_metrics() {
    let mut m = Metrics::new();
    m.record("p1", MetricEvent::ConnectFailed);
    let body = m.render();
    let r = respond(b"GET /metrics HTTP/1.1\r\nHost: x\r\n\r\n", &m);
    assert_eq!(
        r.header,
        format!(
            "HTTP/1.1 200 OK\r\n\
             Content-Type: text/plain; version=0.0.4\r\n\
             Content-Length: {}\r\n\
             Connection: close\r\n\r\n",
            body.len()
        )
    );
    assert!(body.len() > 100);
    assert_eq!(r.body, body);
}

#[test]
fn anything_else_gets_a_404() {
    let m = Metrics::new();
    for request in [&b"GET / HTTP/1.1\r\n\r\n"[..], b"", b"\xff\xfe\x00"] {
        let r = respond(request, &m);
        assert_eq!(
            r.header,
            "HTTP/1.1 404 Not Found\r\n\
             Content-Type: text/plain\r\n\
             Content-Length: 14\r\n\
             Connection: close\r\n\r\n"
        );
        assert_eq!(r.body, b"404 not found\n");
    }
}

#[test]
fn broken_bytes_are_read_as_replacement_characters() {
    let m = Metrics::new();
    // After the path the bytes do not matter; inside it they do.
    assert!(respond(b"GET /metrics HTTP/1.1\r\nX: \xff", &m).header.contains("200 OK"));
    assert!(respond(b"GET /metrics?\xff HTTP/1.1\r\n", &m).header.contains("200 OK"));
    assert!(respond(b"GET /metrics\xff HTTP/1.1\r\n", &m).header.contains("404"));
    assert!(respond(b"\xffGET /metrics HTTP/1.1\r\n", &m).header.contains("404"));
    assert!(respond(b"GET\xc2\xa0/metrics", &m).header.contains("200 OK"));
}

#[test]
fn responses_measure_their_body() {
    let r = metrics_response(vec![7; 12_345]);
    assert!(r.header.contains("Content-Length: 12345\r\n"));
    assert_eq!(r.body, vec![7; 12_345]);
    let empty = metrics_response(vec![]);
    assert!(empty.header.contains("Content-Length: 0\r\n"));
    assert_eq!(not_found_response().body.len(), 14);
}
