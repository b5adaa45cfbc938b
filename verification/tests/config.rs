use oxiduct::cli::Args;
use oxiduct::config::{
    defaults, load, parse_protocol, ConfigError, LoadedConfig, Protocol, ProxyConfig, TomlFile,
    TomlProxy, TomlTuning,
};

fn args_with(listen: Option<&str>, target: Option<&str>, protocol: &str) -> Args {
    Args {
        config: None,
        listen: listen.map(String::from),
        target: target.map(String::from),
        protocol: protocol.into(),
        connect_timeout: defaults::CONNECT_TIMEOUT_SECS,
        keepalive_idle: defaults::KEEPALIVE_IDLE_SECS,
        keepalive_interval: defaults::KEEPALIVE_INTERVAL_SECS,
        keepalive_retries: defaults::KEEPALIVE_RETRIES,
        user_timeout_ms: defaults::USER_TIMEOUT_MS,
        idle_timeout: defaults::IDLE_TIMEOUT_SECS,
        half_close_timeout: defaults::HALF_CLOSE_TIMEOUT_SECS,
        max_connections: defaults::MAX_CONNECTIONS,
        max_per_ip: defaults::MAX_PER_IP,
        shutdown_grace: defaults::SHUTDOWN_GRACE_SECS,
        metrics_listen: None,
        log_level: "info".into(),
        proxy_protocol: false,
    }
}

// ── parse_protocol ─────────────────────────────────────────────────────

#[test]
fn parse_protocol_tcp() {
    assert_eq!(parse_protocol("tcp").unwrap(), Protocol::Tcp);
}

#[test]
fn parse_protocol_udp() {
    assert_eq!(parse_protocol("udp").unwrap(), Protocol::Udp);
}

#[test]
fn parse_protocol_unknown_errors() {
    assert!(parse_protocol("quic").is_err());
    assert!(parse_protocol("").is_err());
    assert!(parse_protocol("TCP").is_err()); // case-sensitive on purpose
}

#[test]
fn default_protocol_is_tcp() {
    assert_eq!(Protocol::default(), Protocol::Tcp);
}

// ── ProxyConfig::from_cli ──────────────────────────────────────────────

#[test]
fn from_cli_full() {
    let args = args_with(Some("587"), Some("mail.example.com:587"), "tcp");
    let cfg = ProxyConfig::from_cli(&args).unwrap();
    assert_eq!(cfg.listen, "0.0.0.0:587");
    assert_eq!(cfg.target, "mail.example.com:587");
    assert_eq!(cfg.protocol, Protocol::Tcp);
    assert_eq!(cfg.connect_timeout_secs, defaults::CONNECT_TIMEOUT_SECS);
    assert_eq!(cfg.keepalive_idle_secs, defaults::KEEPALIVE_IDLE_SECS);
    assert_eq!(cfg.user_timeout_ms, defaults::USER_TIMEOUT_MS);
    assert!(cfg.name.contains("0.0.0.0:587"));
    assert!(cfg.name.contains("mail.example.com:587"));
}

#[test]
fn from_cli_udp() {
    let args = args_with(Some("5353"), Some("1.1.1.1:53"), "udp");
    let cfg = ProxyConfig::from_cli(&args).unwrap();
    assert_eq!(cfg.protocol, Protocol::Udp);
}

#[test]
fn from_cli_missing_listen_errors() {
    let args = args_with(None, Some("a:1"), "tcp");
    assert!(ProxyConfig::from_cli(&args).is_err());
}

#[test]
fn from_cli_missing_target_errors() {
    let args = args_with(Some("1"), None, "tcp");
    assert!(ProxyConfig::from_cli(&args).is_err());
}

#[test]
fn from_cli_bad_protocol_errors() {
    let args = args_with(Some("1"), Some("a:1"), "icmp");
    assert!(ProxyConfig::from_cli(&args).is_err());
}

#[test]
fn from_cli_takes_every_setting() {
    let mut args = args_with(Some("587"), Some("mail.example.com:587"), "tcp");
    args.connect_timeout = 11;
    args.keepalive_idle = 12;
    args.keepalive_interval = 13;
    args.keepalive_retries = 14;
    args.user_timeout_ms = 15;
    args.idle_timeout = 16;
    args.half_close_timeout = 17;
    args.max_connections = 18;
    args.max_per_ip = 19;
    args.proxy_protocol = true;
    let cfg = ProxyConfig::from_cli(&args).unwrap();
    assert_eq!(cfg.name, "0.0.0.0:587 -> mail.example.com:587");
    assert_eq!(cfg.connect_timeout_secs, 11);
    assert_eq!(cfg.keepalive_idle_secs, 12);
    assert_eq!(cfg.keepalive_interval_secs, 13);
    assert_eq!(cfg.keepalive_retries, 14);
    assert_eq!(cfg.user_timeout_ms, 15);
    assert_eq!(cfg.idle_timeout_secs, 16);
    assert_eq!(cfg.half_close_timeout_secs, 17);
    assert_eq!(cfg.max_connections, 18);
    assert_eq!(cfg.max_per_ip, 19);
    assert!(cfg.proxy_protocol);
}

#[test]
fn from_cli_reports_the_first_fault() {
    let err = |args: &Args| ProxyConfig::from_cli(args).unwrap_err();
    assert_eq!(err(&args_with(None, None, "icmp")), ConfigError::ListenRequired);
    assert_eq!(err(&args_with(Some("1"), None, "icmp")), ConfigError::TargetRequired);
    assert_eq!(
        err(&args_with(Some("1"), Some("a:1"), "icmp")),
        ConfigError::UnknownProtocol("icmp".into())
    );
}

#[test]
fn config_errors_read_as_messages() {
    assert_eq!(
        ConfigError::ListenRequired.message(),
        "--listen required in single-proxy mode"
    );
    assert_eq!(
        ConfigError::TargetRequired.message(),
        "--target required in single-proxy mode"
    );
    assert_eq!(
        ConfigError::UnknownProtocol("icmp".into()).message(),
        "unknown protocol 'icmp'; expected tcp or udp"
    );
    assert_eq!(
        ConfigError::NoProxies.message(),
        "config file defines no [[proxy]] entries"
    );
}

// ── Config files ───────────────────────────────────────────────────────

fn table(listen: &str, target: &str) -> TomlProxy {
    TomlProxy {
        name: None,
        listen: listen.into(),
        target: target.into(),
        protocol: Protocol::default(),
        connect_timeout: None,
        keepalive_idle: None,
        keepalive_interval: None,
        keepalive_retries: None,
        user_timeout_ms: None,
        idle_timeout: None,
        half_close_timeout: None,
        max_connections: None,
        max_per_ip: None,
        proxy_protocol: None,
    }
}

fn load_all(
    defaults: TomlTuning,
    metrics_listen: Option<&str>,
    proxies: Vec<TomlProxy>,
) -> Result<LoadedConfig, ConfigError> {
    load(TomlFile { defaults, metrics_listen: metrics_listen.map(String::from), proxies })
}

fn load_tables(defaults: TomlTuning, proxies: Vec<TomlProxy>) -> Vec<ProxyConfig> {
    load_all(defaults, None, proxies).unwrap().proxies
}

#[test]
fn load_metrics_listen_present() {
    let loaded = load_all(
        TomlTuning::default(),
        Some("127.0.0.1:9090"),
        vec![table("127.0.0.1:1", "a:1")],
    )
    .unwrap();
    assert_eq!(loaded.metrics_listen.as_deref(), Some("127.0.0.1:9090"));
    assert_eq!(loaded.proxies.len(), 1);
}

#[test]
fn load_metrics_listen_absent() {
    let loaded =
        load_all(TomlTuning::default(), None, vec![table("127.0.0.1:1", "a:1")]).unwrap();
    assert_eq!(loaded.metrics_listen, None);
}

#[test]
fn load_minimal_tcp() {
    let cfgs = load_tables(TomlTuning::default(), vec![table("127.0.0.1:8080", "127.0.0.1:80")]);
    assert_eq!(cfgs.len(), 1);
    assert_eq!(cfgs[0].listen, "127.0.0.1:8080");
    assert_eq!(cfgs[0].target, "127.0.0.1:80");
    assert_eq!(cfgs[0].protocol, Protocol::Tcp);
    assert_eq!(cfgs[0].connect_timeout_secs, defaults::CONNECT_TIMEOUT_SECS);
    assert_eq!(cfgs[0].keepalive_idle_secs, defaults::KEEPALIVE_IDLE_SECS);
    assert_eq!(cfgs[0].user_timeout_ms, defaults::USER_TIMEOUT_MS);
    assert_eq!(cfgs[0].idle_timeout_secs, defaults::IDLE_TIMEOUT_SECS);
    assert_eq!(
        cfgs[0].half_close_timeout_secs,
        defaults::HALF_CLOSE_TIMEOUT_SECS
    );
}

#[test]
fn load_multiple_proxies() {
    let mut second = table("127.0.0.1:2", "b:2");
    second.protocol = Protocol::Udp;
    let cfgs = load_tables(TomlTuning::default(), vec![table("127.0.0.1:1", "a:1"), second]);
    assert_eq!(cfgs.len(), 2);
    assert_eq!(cfgs[0].protocol, Protocol::Tcp);
    assert_eq!(cfgs[1].protocol, Protocol::Udp);
}

#[test]
fn load_with_defaults_section() {
    let base = TomlTuning {
        connect_timeout: Some(7),
        keepalive_idle: Some(120),
        idle_timeout: Some(0),
        half_close_timeout: Some(0),
        ..TomlTuning::default()
    };
    let cfgs = load_tables(base, vec![table("127.0.0.1:1", "a:1")]);
    assert_eq!(cfgs[0].connect_timeout_secs, 7);
    assert_eq!(cfgs[0].keepalive_idle_secs, 120);
    assert_eq!(cfgs[0].idle_timeout_secs, 0);
    assert_eq!(cfgs[0].half_close_timeout_secs, 0);
    // Untouched knobs fall back to consts
    assert_eq!(
        cfgs[0].keepalive_interval_secs,
        defaults::KEEPALIVE_INTERVAL_SECS
    );
}

#[test]
fn load_per_proxy_override_beats_defaults() {
    let base = TomlTuning { connect_timeout: Some(5), ..TomlTuning::default() };
    let mut own = table("127.0.0.1:1", "a:1");
    own.connect_timeout = Some(99);
    let cfgs = load_tables(base, vec![own]);
    assert_eq!(cfgs[0].connect_timeout_secs, 99);
}

#[test]
fn proxy_protocol_defaults_false() {
    let cfgs = load_tables(TomlTuning::default(), vec![table("127.0.0.1:1", "a:1")]);
    assert!(!cfgs[0].proxy_protocol);
}

#[test]
fn proxy_protocol_per_proxy_true() {
    let mut own = table("127.0.0.1:1", "a:1");
    own.proxy_protocol = Some(true);
    let cfgs = load_tables(TomlTuning::default(), vec![own]);
    assert!(cfgs[0].proxy_protocol);
}

#[test]
fn proxy_protocol_from_defaults_section() {
    let base = TomlTuning { proxy_protocol: Some(true), ..TomlTuning::default() };
    let cfgs = load_tables(base, vec![table("127.0.0.1:1", "a:1")]);
    assert!(cfgs[0].proxy_protocol);
}

#[test]
fn proxy_protocol_per_proxy_false_beats_defaults_true() {
    let base = TomlTuning { proxy_protocol: Some(true), ..TomlTuning::default() };
    let mut own = table("127.0.0.1:1", "a:1");
    own.proxy_protocol = Some(false);
    let cfgs = load_tables(base, vec![own]);
    assert!(!cfgs[0].proxy_protocol);
}

#[test]
fn load_empty_proxies_errors() {
    assert_eq!(
        load_all(TomlTuning::default(), None, vec![]).unwrap_err(),
        ConfigError::NoProxies
    );
    assert!(load_all(TomlTuning::default(), Some("127.0.0.1:9090"), vec![]).is_err());
}

#[test]
fn load_bare_port_expansion() {
    let cfgs = load_tables(TomlTuning::default(), vec![table("8080", "a:1")]);
    assert_eq!(cfgs[0].listen, "0.0.0.0:8080");
}

#[test]
fn load_explicit_name_preserved() {
    let mut own = table("127.0.0.1:1", "a:1");
    own.name = Some("my-proxy".into());
    let cfgs = load_tables(TomlTuning::default(), vec![own]);
    assert_eq!(cfgs[0].name, "my-proxy");
}

#[test]
fn load_auto_name_when_unset() {
    let cfgs = load_tables(TomlTuning::default(), vec![table("127.0.0.1:1", "a:1")]);
    assert!(cfgs[0].name.contains("127.0.0.1:1"));
    assert!(cfgs[0].name.contains("a:1"));
}

#[test]
fn auto_names_count_the_tables() {
    let tables = (0..12).map(|_| table("8080", "a:1")).collect();
    let cfgs = load_tables(TomlTuning::default(), tables);
    assert_eq!(cfgs[0].name, "proxy-0: 0.0.0.0:8080 -> a:1");
    assert_eq!(cfgs[11].name, "proxy-11: 0.0.0.0:8080 -> a:1");
}

#[test]
fn every_knob_is_inherited() {
    let base = TomlTuning {
        connect_timeout: Some(1),
        keepalive_idle: Some(2),
        keepalive_interval: Some(3),
        keepalive_retries: Some(4),
        user_timeout_ms: Some(5),
        idle_timeout: Some(6),
        half_close_timeout: Some(7),
        max_connections: Some(8),
        max_per_ip: Some(9),
        proxy_protocol: Some(true),
    };
    let cfg = &load_tables(base, vec![table("1", "a:1")])[0];
    assert_eq!(cfg.connect_timeout_secs, 1);
    assert_eq!(cfg.keepalive_idle_secs, 2);
    assert_eq!(cfg.keepalive_interval_secs, 3);
    assert_eq!(cfg.keepalive_retries, 4);
    assert_eq!(cfg.user_timeout_ms, 5);
    assert_eq!(cfg.idle_timeout_secs, 6);
    assert_eq!(cfg.half_close_timeout_secs, 7);
    assert_eq!(cfg.max_connections, 8);
    assert_eq!(cfg.max_per_ip, 9);
    assert!(cfg.proxy_protocol);

    let plain = TomlTuning::default().resolve(TomlTuning::default());
    assert_eq!(plain.connect_timeout_secs, 3);
    assert_eq!(plain.keepalive_idle_secs, 60);
    assert_eq!(plain.keepalive_interval_secs, 10);
    assert_eq!(plain.keepalive_retries, 6);
    assert_eq!(plain.user_timeout_ms, 90_000);
    assert_eq!(plain.idle_timeout_secs, 300);
    assert_eq!(plain.half_close_timeout_secs, 30);
    assert_eq!(plain.max_connections, 32_000);
    assert_eq!(plain.max_per_ip, 320);
    assert!(!plain.proxy_protocol);
}
