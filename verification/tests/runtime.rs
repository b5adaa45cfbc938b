use oxiduct::clock::{clock_reading, now_ms, Clock};
use oxiduct::config::{Protocol, ProxyConfig};
use oxiduct::socket_opts::{tcp_options, Keepalive, TcpOptions};
use oxiduct::supervisor::{
    any_error, metrics_address, task_result, wait_any, Poll, TaskEnd,
};
use oxiduct::text::push_decimal;

fn cfg(idle: u64, interval: u64, retries: u32, user_timeout_ms: u32) -> ProxyConfig {
    ProxyConfig {
        name: "p".into(),
        listen: "127.0.0.1:0".into(),
        target: "127.0.0.1:1".into(),
        protocol: Protocol::Tcp,
        connect_timeout_secs: 3,
        keepalive_idle_secs: idle,
        keepalive_interval_secs: interval,
        keepalive_retries: retries,
        user_timeout_ms,
        idle_timeout_secs: 300,
        half_close_timeout_secs: 30,
        max_connections: 0,
        max_per_ip: 0,
        proxy_protocol: false,
    }
}

#[test]
fn clock_never_runs_backwards() {
    let mut clock = Clock::start();
    let mut last = now_ms(&mut clock);
    assert!(last < 10_000);
    for _ in 0..10_000 {
        let now = now_ms(&mut clock);
        assert!(now >= last);
        last = now;
    }
}

#[test]
fn clock_counts_milliseconds() {
    let mut clock = Clock::start();
    let start = std::time::Instant::now();
    while start.elapsed().as_millis() < 30 {}
    let now = now_ms(&mut clock);
    assert!((30..10_000).contains(&now), "{now}");
}

#[test]
fn clock_reading_is_the_low_half() {
    assert_eq!(clock_reading(0), 0);
    assert_eq!(clock_reading(1_234), 1_234);
    assert_eq!(clock_reading(u64::MAX as u128), u64::MAX);
    assert_eq!(clock_reading(u64::MAX as u128 + 1), 0);
    assert_eq!(clock_reading(u128::MAX), u64::MAX);
}

#[test]
fn socket_options_follow_the_configuration() {
    assert_eq!(
        tcp_options(&cfg(60, 10, 6, 90_000)),
        TcpOptions {
            keepalive: Some(Keepalive {
                time_secs: 60,
                interval_secs: Some(10),
                retries: Some(6)
            }),
            user_timeout_ms: Some(90_000),
        }
    );
    assert_eq!(
        tcp_options(&cfg(60, 0, 0, 0)),
        TcpOptions {
            keepalive: Some(Keepalive { time_secs: 60, interval_secs: None, retries: None }),
            user_timeout_ms: None,
        }
    );
    assert_eq!(
        tcp_options(&cfg(0, 10, 6, 1)),
        TcpOptions { keepalive: None, user_timeout_ms: Some(1) }
    );
}

#[test]
fn first_proxy_to_end_is_found() {
    assert_eq!(wait_any(0, &vec![]), Poll::AllDone);
    assert_eq!(wait_any(2, &vec![]), Poll::Running);
    assert_eq!(wait_any(3, &vec![1]), Poll::Finished(1));
    assert_eq!(wait_any(3, &vec![2, 0]), Poll::Finished(2));
}

#[test]
fn results_of_tasks_pass_unchanged() {
    assert_eq!(task_result(Ok(Ok(()))), Ok(()));
    assert_eq!(task_result(Ok(Err("bind".into()))), Err("bind".into()));
    assert_eq!(task_result(Err("oops".into())), Err("task panicked: oops".into()));
}

#[test]
fn any_bad_end_is_an_error() {
    assert!(!any_error(&vec![]));
    assert!(!any_error(&vec![TaskEnd::Clean, TaskEnd::Clean]));
    assert!(any_error(&vec![TaskEnd::Clean, TaskEnd::Failed]));
    assert!(any_error(&vec![TaskEnd::Panicked, TaskEnd::Clean]));
}

#[test]
fn metrics_flag_beats_the_config_file() {
    let a = || Some("127.0.0.1:1".to_string());
    let b = || Some("127.0.0.1:2".to_string());
    assert_eq!(metrics_address(a(), b()), a());
    assert_eq!(metrics_address(None, b()), b());
    assert_eq!(metrics_address(a(), None), a());
    assert_eq!(metrics_address(None, None), None);
}

#[test]
fn decimals_match_std() {
    for n in [0, 1, 9, 10, 99, 100, 65_535, 1_000_000_007, u64::MAX] {
        let mut s = String::from("n=");
        push_decimal(&mut s, n);
        assert_eq!(s, format!("n={n}"));
    }
}
