//! Proxy configuration: resolved `ProxyConfig`, plus what the command line and
//! a TOML file give to build it from.
//!
//! Default tuning values live in [`defaults`] and nowhere else.

use vstd::prelude::*;
use vstd::string::*;

use crate::cli::{expand_listen, expanded, Args};
use crate::text::{decimal, push_decimal, same_text};

pub mod defaults;

verus! {

/// The transport that a proxy relays.
#[derive(Clone, Copy, Debug, PartialEq, Eq, Structural)]
pub enum Protocol {
    Tcp,
    Udp,
}

impl Default for Protocol {
    fn default() -> (r: Protocol)
        ensures
            r == Protocol::Tcp,
    {
        Protocol::Tcp
    }
}

/// Fully resolved configuration for one proxy (no optional fields).
#[derive(Clone, Debug)]
pub struct ProxyConfig {
    pub name: String,
    pub listen: String,
    pub target: String,
    pub protocol: Protocol,
    pub connect_timeout_secs: u64,
    pub keepalive_idle_secs: u64,
    pub keepalive_interval_secs: u64,
    pub keepalive_retries: u32,
    pub user_timeout_ms: u32,
    pub idle_timeout_secs: u64,
    pub half_close_timeout_secs: u64,
    pub max_connections: u32,
    pub max_per_ip: u32,
    /// Emit a PROXY protocol v2 header to the target on connect (TCP only).
    pub proxy_protocol: bool,
}

/// Why a configuration is refused.
#[derive(Debug, PartialEq, Eq)]
pub enum ConfigError {
    /// Single-proxy mode without a listen address.
    ListenRequired,
    /// Single-proxy mode without a target.
    TargetRequired,
    /// A protocol that is neither `tcp` nor `udp`.
    UnknownProtocol(String),
    /// A config file without a proxy.
    NoProxies,
}

impl ConfigError {
    /// The message for the operator.
    pub open spec fn message_spec(self) -> Seq<char> {
        match self {
            ConfigError::ListenRequired => "--listen required in single-proxy mode"@,
            ConfigError::TargetRequired => "--target required in single-proxy mode"@,
            ConfigError::UnknownProtocol(other) => "unknown protocol '"@ + other@
                + "'; expected tcp or udp"@,
            ConfigError::NoProxies => "config file defines no [[proxy]] entries"@,
        }
    }

    /// The message for the operator.
    pub fn message(&self) -> (r: String)
        ensures
            r@ == self.message_spec(),
    {
        match self {
            ConfigError::ListenRequired => "--listen required in single-proxy mode".to_owned(),
            ConfigError::TargetRequired => "--target required in single-proxy mode".to_owned(),
            ConfigError::UnknownProtocol(other) => "unknown protocol '".to_owned().concat(
                other.as_str(),
            ).concat("'; expected tcp or udp"),
            ConfigError::NoProxies => "config file defines no [[proxy]] entries".to_owned(),
        }
    }
}

// ── TOML shapes ──────────────────────────────────────────────────────────────

/// Optional tuning knobs. Used for the `[defaults]` table and, field-for-field,
/// inside each `[[proxy]]`. `None` means "inherit from defaults, then const".
#[derive(Clone, Copy, Debug)]
pub struct TomlTuning {
    pub connect_timeout: Option<u64>,
    pub keepalive_idle: Option<u64>,
    pub keepalive_interval: Option<u64>,
    pub keepalive_retries: Option<u32>,
    pub user_timeout_ms: Option<u32>,
    pub idle_timeout: Option<u64>,
    pub half_close_timeout: Option<u64>,
    pub max_connections: Option<u32>,
    pub max_per_ip: Option<u32>,
    pub proxy_protocol: Option<bool>,
}

impl Default for TomlTuning {
    fn default() -> (r: TomlTuning)
        ensures
            r == (TomlTuning {
                connect_timeout: None,
                keepalive_idle: None,
                keepalive_interval: None,
                keepalive_retries: None,
                user_timeout_ms: None,
                idle_timeout: None,
                half_close_timeout: None,
                max_connections: None,
                max_per_ip: None,
                proxy_protocol: None,
            }),
    {
        TomlTuning {
            connect_timeout: None,
            keepalive_idle: None,
            keepalive_interval: None,
            keepalive_retries: None,
            user_timeout_ms: None,
            idle_timeout: None,
            half_close_timeout: None,
            max_connections: None,
            max_per_ip: None,
            proxy_protocol: None,
        }
    }
}

/// A knob's value: what the proxy sets, else what `[defaults]` sets, else the constant.
pub open spec fn inherited<T>(own: Option<T>, base: Option<T>, constant: T) -> T {
    match (own, base) {
        (Some(v), _) => v,
        (None, Some(v)) => v,
        (None, None) => constant,
    }
}

/// A knob's value: what the proxy sets, else what `[defaults]` sets, else the constant.
fn inherit<T>(own: Option<T>, base: Option<T>, constant: T) -> (r: T)
    ensures
        r == inherited(own, base, constant),
{
    match own {
        Some(v) => v,
        None => base.unwrap_or(constant),
    }
}

/// Concrete values of the tuning knobs.
#[derive(Clone, Copy, Debug)]
pub struct ResolvedTuning {
    pub connect_timeout_secs: u64,
    pub keepalive_idle_secs: u64,
    pub keepalive_interval_secs: u64,
    pub keepalive_retries: u32,
    pub user_timeout_ms: u32,
    pub idle_timeout_secs: u64,
    pub half_close_timeout_secs: u64,
    pub max_connections: u32,
    pub max_per_ip: u32,
    pub proxy_protocol: bool,
}

impl TomlTuning {
    /// The concrete values: per-proxy override, then `[defaults]`, then constant.
    pub open spec fn resolved(self, base: TomlTuning) -> ResolvedTuning {
        ResolvedTuning {
            connect_timeout_secs: inherited(
                self.connect_timeout,
                base.connect_timeout,
                defaults::CONNECT_TIMEOUT_SECS,
            ),
            keepalive_idle_secs: inherited(
                self.keepalive_idle,
                base.keepalive_idle,
                defaults::KEEPALIVE_IDLE_SECS,
            ),
            keepalive_interval_secs: inherited(
                self.keepalive_interval,
                base.keepalive_interval,
                defaults::KEEPALIVE_INTERVAL_SECS,
            ),
            keepalive_retries: inherited(
                self.keepalive_retries,
                base.keepalive_retries,
                defaults::KEEPALIVE_RETRIES,
            ),
            user_timeout_ms: inherited(
                self.user_timeout_ms,
                base.user_timeout_ms,
                defaults::USER_TIMEOUT_MS,
            ),
            idle_timeout_secs: inherited(
                self.idle_timeout,
                base.idle_timeout,
                defaults::IDLE_TIMEOUT_SECS,
            ),
            half_close_timeout_secs: inherited(
                self.half_close_timeout,
                base.half_close_timeout,
                defaults::HALF_CLOSE_TIMEOUT_SECS,
            ),
            max_connections: inherited(
                self.max_connections,
                base.max_connections,
                defaults::MAX_CONNECTIONS,
            ),
            max_per_ip: inherited(self.max_per_ip, base.max_per_ip, defaults::MAX_PER_IP),
            proxy_protocol: inherited(self.proxy_protocol, base.proxy_protocol, false),
        }
    }

    /// Resolve into concrete values: per-proxy override, then `[defaults]`, then constant.
    pub fn resolve(self, base: TomlTuning) -> (r: ResolvedTuning)
        ensures
            r == self.resolved(base),
    {
        ResolvedTuning {
            connect_timeout_secs: inherit(
                self.connect_timeout,
                base.connect_timeout,
                defaults::CONNECT_TIMEOUT_SECS,
            ),
            keepalive_idle_secs: inherit(
                self.keepalive_idle,
                base.keepalive_idle,
                defaults::KEEPALIVE_IDLE_SECS,
            ),
            keepalive_interval_secs: inherit(
                self.keepalive_interval,
                base.keepalive_interval,
                defaults::KEEPALIVE_INTERVAL_SECS,
            ),
            keepalive_retries: inherit(
                self.keepalive_retries,
                base.keepalive_retries,
                defaults::KEEPALIVE_RETRIES,
            ),
            user_timeout_ms: inherit(
                self.user_timeout_ms,
                base.user_timeout_ms,
                defaults::USER_TIMEOUT_MS,
            ),
            idle_timeout_secs: inherit(
                self.idle_timeout,
                base.idle_timeout,
                defaults::IDLE_TIMEOUT_SECS,
            ),
            half_close_timeout_secs: inherit(
                self.half_close_timeout,
                base.half_close_timeout,
                defaults::HALF_CLOSE_TIMEOUT_SECS,
            ),
            max_connections: inherit(
                self.max_connections,
                base.max_connections,
                defaults::MAX_CONNECTIONS,
            ),
            max_per_ip: inherit(self.max_per_ip, base.max_per_ip, defaults::MAX_PER_IP),
            proxy_protocol: inherit(self.proxy_protocol, base.proxy_protocol, false),
        }
    }
}

/// One `[[proxy]]` table.
#[derive(Debug)]
pub struct TomlProxy {
    pub name: Option<String>,
    pub listen: String,
    pub target: String,
    pub protocol: Protocol,
    pub connect_timeout: Option<u64>,
    pub keepalive_idle: Option<u64>,
    pub keepalive_interval: Option<u64>,
    pub keepalive_retries: Option<u32>,
    pub user_timeout_ms: Option<u32>,
    pub idle_timeout: Option<u64>,
    pub half_close_timeout: Option<u64>,
    pub max_connections: Option<u32>,
    pub max_per_ip: Option<u32>,
    pub proxy_protocol: Option<bool>,
}

impl TomlProxy {
    /// The knobs of the table.
    pub open spec fn tuning_spec(self) -> TomlTuning {
        TomlTuning {
            connect_timeout: self.connect_timeout,
            keepalive_idle: self.keepalive_idle,
            keepalive_interval: self.keepalive_interval,
            keepalive_retries: self.keepalive_retries,
            user_timeout_ms: self.user_timeout_ms,
            idle_timeout: self.idle_timeout,
            half_close_timeout: self.half_close_timeout,
            max_connections: self.max_connections,
            max_per_ip: self.max_per_ip,
            proxy_protocol: self.proxy_protocol,
        }
    }

    /// The knobs of the table.
    pub fn tuning(&self) -> (r: TomlTuning)
        ensures
            r == self.tuning_spec(),
    {
        TomlTuning {
            connect_timeout: self.connect_timeout,
            keepalive_idle: self.keepalive_idle,
            keepalive_interval: self.keepalive_interval,
            keepalive_retries: self.keepalive_retries,
            user_timeout_ms: self.user_timeout_ms,
            idle_timeout: self.idle_timeout,
            half_close_timeout: self.half_close_timeout,
            max_connections: self.max_connections,
            max_per_ip: self.max_per_ip,
            proxy_protocol: self.proxy_protocol,
        }
    }
}

/// A whole config file.
#[derive(Debug)]
pub struct TomlFile {
    pub defaults: TomlTuning,
    /// Optional global Prometheus exporter address.
    pub metrics_listen: Option<String>,
    pub proxies: Vec<TomlProxy>,
}

/// Result of loading a config file: the proxies plus global settings.
#[derive(Debug)]
pub struct LoadedConfig {
    pub proxies: Vec<ProxyConfig>,
    pub metrics_listen: Option<String>,
}

// ── Constructors ─────────────────────────────────────────────────────────────

/// The protocol that `s` names.
pub open spec fn protocol_named(s: Seq<char>) -> Option<Protocol> {
    if s == "tcp"@ {
        Some(Protocol::Tcp)
    } else if s == "udp"@ {
        Some(Protocol::Udp)
    } else {
        None
    }
}

/// The protocol that `s` names; names are matched exactly, case included.
pub fn parse_protocol(s: &str) -> (r: Result<Protocol, ConfigError>)
    ensures
        match r {
            Ok(p) => protocol_named(s@) == Some(p),
            Err(e) => {
                &&& protocol_named(s@) is None
                &&& e matches ConfigError::UnknownProtocol(other) && other@ == s@
            },
        },
{
    proof {
        reveal_strlit("tcp");
        reveal_strlit("udp");
        assert("tcp"@[0] != "udp"@[0]);
    }
    if same_text(s, "tcp") {
        Ok(Protocol::Tcp)
    } else if same_text(s, "udp") {
        Ok(Protocol::Udp)
    } else {
        Err(ConfigError::UnknownProtocol(s.to_owned()))
    }
}

/// The name of a proxy that was given none: its listen address, an arrow, its target.
pub open spec fn arrow_name(listen: Seq<char>, target: Seq<char>) -> Seq<char> {
    listen + " -> "@ + target
}

/// Whether the command line asks for a proxy.
pub open spec fn asks_for_a_proxy(args: Args) -> bool {
    args.listen is Some && args.target is Some && protocol_named(args.protocol@) is Some
}

impl ProxyConfig {
    /// Whether this is the configuration that `args` asks for, in single-proxy mode.
    pub open spec fn is_from_cli(self, args: Args) -> bool {
        &&& args.listen matches Some(listen) && self.listen@ == expanded(listen@)
        &&& args.target matches Some(target) && self.target@ == target@
        &&& self.name@ == arrow_name(self.listen@, self.target@)
        &&& protocol_named(args.protocol@) == Some(self.protocol)
        &&& self.connect_timeout_secs == args.connect_timeout
        &&& self.keepalive_idle_secs == args.keepalive_idle
        &&& self.keepalive_interval_secs == args.keepalive_interval
        &&& self.keepalive_retries == args.keepalive_retries
        &&& self.user_timeout_ms == args.user_timeout_ms
        &&& self.idle_timeout_secs == args.idle_timeout
        &&& self.half_close_timeout_secs == args.half_close_timeout
        &&& self.max_connections == args.max_connections
        &&& self.max_per_ip == args.max_per_ip
        &&& self.proxy_protocol == args.proxy_protocol
    }

    /// Build a single-proxy config from the command line.
    pub fn from_cli(args: &Args) -> (r: Result<ProxyConfig, ConfigError>)
        ensures
            r is Ok <==> asks_for_a_proxy(*args),
            match r {
                Ok(cfg) => cfg.is_from_cli(*args),
                Err(ConfigError::ListenRequired) => args.listen is None,
                Err(ConfigError::TargetRequired) => args.listen is Some && args.target is None,
                Err(ConfigError::UnknownProtocol(other)) => args.listen is Some
                    && args.target is Some && protocol_named(args.protocol@) is None && other@
                    == args.protocol@,
                Err(ConfigError::NoProxies) => false,
            },
    {
        let listen = match &args.listen {
            Some(s) => expand_listen(s.as_str()),
            None => return Err(ConfigError::ListenRequired),
        };
        let target = match &args.target {
            Some(s) => s.clone(),
            None => return Err(ConfigError::TargetRequired),
        };
        let protocol = match parse_protocol(args.protocol.as_str()) {
            Ok(p) => p,
            Err(e) => return Err(e),
        };
        Ok(
            ProxyConfig {
                name: listen.clone().concat(" -> ").concat(target.as_str()),
                listen,
                target,
                protocol,
                connect_timeout_secs: args.connect_timeout,
                keepalive_idle_secs: args.keepalive_idle,
                keepalive_interval_secs: args.keepalive_interval,
                keepalive_retries: args.keepalive_retries,
                user_timeout_ms: args.user_timeout_ms,
                idle_timeout_secs: args.idle_timeout,
                half_close_timeout_secs: args.half_close_timeout,
                max_connections: args.max_connections,
                max_per_ip: args.max_per_ip,
                proxy_protocol: args.proxy_protocol,
            },
        )
    }

    /// The tuning values of the configuration.
    pub open spec fn tuning_spec(self) -> ResolvedTuning {
        ResolvedTuning {
            connect_timeout_secs: self.connect_timeout_secs,
            keepalive_idle_secs: self.keepalive_idle_secs,
            keepalive_interval_secs: self.keepalive_interval_secs,
            keepalive_retries: self.keepalive_retries,
            user_timeout_ms: self.user_timeout_ms,
            idle_timeout_secs: self.idle_timeout_secs,
            half_close_timeout_secs: self.half_close_timeout_secs,
            max_connections: self.max_connections,
            max_per_ip: self.max_per_ip,
            proxy_protocol: self.proxy_protocol,
        }
    }

    /// Whether this is the configuration that the table `p`, the `index`-th of its file,
    /// describes over the defaults `base`.
    pub open spec fn is_from_toml(self, index: nat, p: TomlProxy, base: TomlTuning) -> bool {
        &&& self.listen@ == expanded(p.listen@)
        &&& self.target@ == p.target@
        &&& self.protocol == p.protocol
        &&& self.name@ == match p.name {
            Some(name) => name@,
            None => "proxy-"@ + decimal(index) + ": "@ + arrow_name(self.listen@, p.target@),
        }
        &&& self.tuning_spec() == p.tuning_spec().resolved(base)
    }

    /// Build the config that the `index`-th `[[proxy]]` table describes.
    pub fn from_toml(index: usize, p: &TomlProxy, base: TomlTuning) -> (r: ProxyConfig)
        ensures
            r.is_from_toml(index as nat, *p, base),
    {
        let listen = expand_listen(p.listen.as_str());
        let name = match &p.name {
            Some(name) => name.clone(),
            None => {
                let mut name = "proxy-".to_owned();
                push_decimal(&mut name, index as u64);
                let name = name.concat(": ").concat(listen.as_str()).concat(" -> ").concat(
                    p.target.as_str(),
                );
                assert(name@ =~= "proxy-"@ + decimal(index as nat) + ": "@ + arrow_name(
                    listen@,
                    p.target@,
                ));
                name
            },
        };
        let t = p.tuning().resolve(base);
        ProxyConfig {
            name,
            listen,
            target: p.target.clone(),
            protocol: p.protocol,
            connect_timeout_secs: t.connect_timeout_secs,
            keepalive_idle_secs: t.keepalive_idle_secs,
            keepalive_interval_secs: t.keepalive_interval_secs,
            keepalive_retries: t.keepalive_retries,
            user_timeout_ms: t.user_timeout_ms,
            idle_timeout_secs: t.idle_timeout_secs,
            half_close_timeout_secs: t.half_close_timeout_secs,
            max_connections: t.max_connections,
            max_per_ip: t.max_per_ip,
            proxy_protocol: t.proxy_protocol,
        }
    }
}

/// Whether `loaded` is what the config file `file` describes.
pub open spec fn is_loaded_from(loaded: LoadedConfig, file: TomlFile) -> bool {
    &&& loaded.metrics_listen == file.metrics_listen
    &&& loaded.proxies@.len() == file.proxies@.len()
    &&& forall|i: int|
        0 <= i < file.proxies@.len() ==> (#[trigger] loaded.proxies@[i]).is_from_toml(
            i as nat,
            file.proxies@[i],
            file.defaults,
        )
}

/// Resolve every `[[proxy]]` entry of a config file.
pub fn load(file: TomlFile) -> (r: Result<LoadedConfig, ConfigError>)
    ensures
        r is Ok <==> file.proxies@.len() > 0,
        r matches Ok(loaded) ==> is_loaded_from(loaded, file),
        match r {
            Ok(loaded) => {
                &&& file.proxies@.len() > 0
                &&& loaded.metrics_listen == file.metrics_listen
                &&& loaded.proxies@.len() == file.proxies@.len()
                &&& forall|i: int|
                    0 <= i < file.proxies@.len() ==> (#[trigger] loaded.proxies@[i]).is_from_toml(
                        i as nat,
                        file.proxies@[i],
                        file.defaults,
                    )
            },
            Err(e) => e == ConfigError::NoProxies && file.proxies@.len() == 0,
        },
{
    if file.proxies.len() == 0 {
        return Err(ConfigError::NoProxies);
    }
    let mut proxies: Vec<ProxyConfig> = Vec::new();
    let mut i: usize = 0;
    while i < file.proxies.len()
        invariant
            i <= file.proxies@.len(),
            proxies@.len() == i,
            forall|j: int|
                0 <= j < i ==> (#[trigger] proxies@[j]).is_from_toml(
                    j as nat,
                    file.proxies@[j],
                    file.defaults,
                ),
        decreases file.proxies@.len() - i,
    {
        proxies.push(ProxyConfig::from_toml(i, &file.proxies[i], file.defaults));
        i = i + 1;
    }
    Ok(LoadedConfig { proxies, metrics_listen: file.metrics_listen })
}

// ── Laws ─────────────────────────────────────────────────────────────────────

/// Each protocol has one name, and no other text names a protocol.
pub proof fn law_protocols_have_one_name(s: Seq<char>)
    ensures
        protocol_named(s) == Some(Protocol::Tcp) <==> s == "tcp"@,
        protocol_named(s) == Some(Protocol::Udp) <==> s == "udp"@,
        protocol_named(s) is None <==> s != "tcp"@ && s != "udp"@,
{
    reveal_strlit("tcp");
    reveal_strlit("udp");
    assert("tcp"@[0] != "udp"@[0]);
}

/// What a proxy's own table sets is what holds, whatever `[defaults]` says; what only
/// `[defaults]` sets holds where the table is silent; and where both are silent the
/// documented default holds. This is so for each knob by itself.
pub proof fn law_own_settings_beat_defaults(own: TomlTuning, base: TomlTuning)
    ensures
        own.connect_timeout matches Some(v) ==> own.resolved(base).connect_timeout_secs == v,
        own.keepalive_idle matches Some(v) ==> own.resolved(base).keepalive_idle_secs == v,
        own.keepalive_interval matches Some(v) ==> own.resolved(base).keepalive_interval_secs == v,
        own.keepalive_retries matches Some(v) ==> own.resolved(base).keepalive_retries == v,
        own.user_timeout_ms matches Some(v) ==> own.resolved(base).user_timeout_ms == v,
        own.idle_timeout matches Some(v) ==> own.resolved(base).idle_timeout_secs == v,
        own.half_close_timeout matches Some(v) ==> own.resolved(base).half_close_timeout_secs == v,
        own.max_connections matches Some(v) ==> own.resolved(base).max_connections == v,
        own.max_per_ip matches Some(v) ==> own.resolved(base).max_per_ip == v,
        own.proxy_protocol matches Some(v) ==> own.resolved(base).proxy_protocol == v,
        own.connect_timeout is None ==> (base.connect_timeout matches Some(v) ==> own.resolved(base).connect_timeout_secs == v),
        own.keepalive_idle is None ==> (base.keepalive_idle matches Some(v) ==> own.resolved(base).keepalive_idle_secs == v),
        own.keepalive_interval is None ==> (base.keepalive_interval matches Some(v) ==> own.resolved(base).keepalive_interval_secs == v),
        own.keepalive_retries is None ==> (base.keepalive_retries matches Some(v) ==> own.resolved(base).keepalive_retries == v),
        own.user_timeout_ms is None ==> (base.user_timeout_ms matches Some(v) ==> own.resolved(base).user_timeout_ms == v),
        own.idle_timeout is None ==> (base.idle_timeout matches Some(v) ==> own.resolved(base).idle_timeout_secs == v),
        own.half_close_timeout is None ==> (base.half_close_timeout matches Some(v) ==> own.resolved(base).half_close_timeout_secs == v),
        own.max_connections is None ==> (base.max_connections matches Some(v) ==> own.resolved(base).max_connections == v),
        own.max_per_ip is None ==> (base.max_per_ip matches Some(v) ==> own.resolved(base).max_per_ip == v),
        own.proxy_protocol is None ==> (base.proxy_protocol matches Some(v) ==> own.resolved(base).proxy_protocol == v),
        own.connect_timeout is None && base.connect_timeout is None ==> own.resolved(base).connect_timeout_secs == 3,
        own.keepalive_idle is None && base.keepalive_idle is None ==> own.resolved(base).keepalive_idle_secs == 60,
        own.keepalive_interval is None && base.keepalive_interval is None ==> own.resolved(base).keepalive_interval_secs == 10,
        own.keepalive_retries is None && base.keepalive_retries is None ==> own.resolved(base).keepalive_retries == 6,
        own.user_timeout_ms is None && base.user_timeout_ms is None ==> own.resolved(base).user_timeout_ms == 90_000,
        own.idle_timeout is None && base.idle_timeout is None ==> own.resolved(base).idle_timeout_secs == 300,
        own.half_close_timeout is None && base.half_close_timeout is None ==> own.resolved(base).half_close_timeout_secs == 30,
        own.max_connections is None && base.max_connections is None ==> own.resolved(base).max_connections == 32_000,
        own.max_per_ip is None && base.max_per_ip is None ==> own.resolved(base).max_per_ip == 320,
        own.proxy_protocol is None && base.proxy_protocol is None ==> own.resolved(base).proxy_protocol == false,
{
}

/// The configuration of a `[[proxy]]` table: its own settings over `[defaults]` over the
/// documented defaults, and its own addresses, protocol and name.
pub proof fn law_table_becomes_its_proxy(
    cfg: ProxyConfig,
    index: nat,
    p: TomlProxy,
    base: TomlTuning,
)
    requires
        cfg.is_from_toml(index, p, base),
    ensures
        cfg.target@ == p.target@,
        cfg.protocol == p.protocol,
        cfg.listen@ == p.listen@ || cfg.listen@ == "0.0.0.0:"@ + p.listen@,
        cfg.listen@ == expanded(p.listen@),
        p.name matches Some(name) ==> cfg.name@ == name@,
        p.name is None ==> cfg.name@ == "proxy-"@ + decimal(index) + ": "@ + (cfg.listen@
            + " -> "@ + cfg.target@),
        p.connect_timeout matches Some(v) ==> cfg.connect_timeout_secs == v,
        p.keepalive_idle matches Some(v) ==> cfg.keepalive_idle_secs == v,
        p.keepalive_interval matches Some(v) ==> cfg.keepalive_interval_secs == v,
        p.keepalive_retries matches Some(v) ==> cfg.keepalive_retries == v,
        p.user_timeout_ms matches Some(v) ==> cfg.user_timeout_ms == v,
        p.idle_timeout matches Some(v) ==> cfg.idle_timeout_secs == v,
        p.half_close_timeout matches Some(v) ==> cfg.half_close_timeout_secs == v,
        p.max_connections matches Some(v) ==> cfg.max_connections == v,
        p.max_per_ip matches Some(v) ==> cfg.max_per_ip == v,
        p.proxy_protocol matches Some(v) ==> cfg.proxy_protocol == v,
        p.connect_timeout is None ==> (base.connect_timeout matches Some(v) ==> cfg.connect_timeout_secs == v),
        p.keepalive_idle is None ==> (base.keepalive_idle matches Some(v) ==> cfg.keepalive_idle_secs == v),
        p.keepalive_interval is None ==> (base.keepalive_interval matches Some(v) ==> cfg.keepalive_interval_secs == v),
        p.keepalive_retries is None ==> (base.keepalive_retries matches Some(v) ==> cfg.keepalive_retries == v),
        p.user_timeout_ms is None ==> (base.user_timeout_ms matches Some(v) ==> cfg.user_timeout_ms == v),
        p.idle_timeout is None ==> (base.idle_timeout matches Some(v) ==> cfg.idle_timeout_secs == v),
        p.half_close_timeout is None ==> (base.half_close_timeout matches Some(v) ==> cfg.half_close_timeout_secs == v),
        p.max_connections is None ==> (base.max_connections matches Some(v) ==> cfg.max_connections == v),
        p.max_per_ip is None ==> (base.max_per_ip matches Some(v) ==> cfg.max_per_ip == v),
        p.proxy_protocol is None ==> (base.proxy_protocol matches Some(v) ==> cfg.proxy_protocol == v),
        p.connect_timeout is None && base.connect_timeout is None ==> cfg.connect_timeout_secs == 3,
        p.keepalive_idle is None && base.keepalive_idle is None ==> cfg.keepalive_idle_secs == 60,
        p.keepalive_interval is None && base.keepalive_interval is None ==> cfg.keepalive_interval_secs == 10,
        p.keepalive_retries is None && base.keepalive_retries is None ==> cfg.keepalive_retries == 6,
        p.user_timeout_ms is None && base.user_timeout_ms is None ==> cfg.user_timeout_ms == 90_000,
        p.idle_timeout is None && base.idle_timeout is None ==> cfg.idle_timeout_secs == 300,
        p.half_close_timeout is None && base.half_close_timeout is None ==> cfg.half_close_timeout_secs == 30,
        p.max_connections is None && base.max_connections is None ==> cfg.max_connections == 32_000,
        p.max_per_ip is None && base.max_per_ip is None ==> cfg.max_per_ip == 320,
        p.proxy_protocol is None && base.proxy_protocol is None ==> cfg.proxy_protocol == false,
{
    crate::cli::law_expansion_is_exact(p.listen@);
    law_own_settings_beat_defaults(p.tuning_spec(), base);
    let t = p.tuning_spec().resolved(base);
    assert(p.tuning_spec().connect_timeout == p.connect_timeout);
    assert(p.tuning_spec().keepalive_idle == p.keepalive_idle);
    assert(p.tuning_spec().keepalive_interval == p.keepalive_interval);
    assert(p.tuning_spec().keepalive_retries == p.keepalive_retries);
    assert(p.tuning_spec().user_timeout_ms == p.user_timeout_ms);
    assert(p.tuning_spec().idle_timeout == p.idle_timeout);
    assert(p.tuning_spec().half_close_timeout == p.half_close_timeout);
    assert(p.tuning_spec().max_connections == p.max_connections);
    assert(p.tuning_spec().max_per_ip == p.max_per_ip);
    assert(p.tuning_spec().proxy_protocol == p.proxy_protocol);
    assert(cfg.tuning_spec().connect_timeout_secs == cfg.connect_timeout_secs);
    assert(cfg.tuning_spec().keepalive_idle_secs == cfg.keepalive_idle_secs);
    assert(cfg.tuning_spec().keepalive_interval_secs == cfg.keepalive_interval_secs);
    assert(cfg.tuning_spec().keepalive_retries == cfg.keepalive_retries);
    assert(cfg.tuning_spec().user_timeout_ms == cfg.user_timeout_ms);
    assert(cfg.tuning_spec().idle_timeout_secs == cfg.idle_timeout_secs);
    assert(cfg.tuning_spec().half_close_timeout_secs == cfg.half_close_timeout_secs);
    assert(cfg.tuning_spec().max_connections == cfg.max_connections);
    assert(cfg.tuning_spec().max_per_ip == cfg.max_per_ip);
    assert(cfg.tuning_spec().proxy_protocol == cfg.proxy_protocol);
}

/// The configuration that flags describe: each flag is one setting of the proxy, and the
/// proxy is named by where it listens and where it sends to.
pub proof fn law_flags_become_the_proxy(cfg: ProxyConfig, args: Args)
    requires
        cfg.is_from_cli(args),
    ensures
        args.listen matches Some(listen) && cfg.listen@ == expanded(listen@),
        args.target matches Some(target) && cfg.target@ == target@,
        cfg.name@ == cfg.listen@ + " -> "@ + cfg.target@,
        cfg.protocol == Protocol::Tcp <==> args.protocol@ == "tcp"@,
        cfg.protocol == Protocol::Udp <==> args.protocol@ == "udp"@,
        cfg.connect_timeout_secs == args.connect_timeout,
        cfg.keepalive_idle_secs == args.keepalive_idle,
        cfg.keepalive_interval_secs == args.keepalive_interval,
        cfg.keepalive_retries == args.keepalive_retries,
        cfg.user_timeout_ms == args.user_timeout_ms,
        cfg.idle_timeout_secs == args.idle_timeout,
        cfg.half_close_timeout_secs == args.half_close_timeout,
        cfg.max_connections == args.max_connections,
        cfg.max_per_ip == args.max_per_ip,
        cfg.proxy_protocol == args.proxy_protocol,
{
    law_protocols_have_one_name(args.protocol@);
}

/// Flags describe a proxy exactly where both addresses are there and the protocol is one
/// of the two.
pub proof fn law_flags_are_refused_only_for_a_reason(args: Args)
    ensures
        asks_for_a_proxy(args) <==> args.listen is Some && args.target is Some && (args.protocol@
            == "tcp"@ || args.protocol@ == "udp"@),
{
    law_protocols_have_one_name(args.protocol@);
}

/// A config file gives one proxy for each table, in order, and hands the exporter's address
/// on as it is.
pub proof fn law_file_becomes_its_proxies(loaded: LoadedConfig, file: TomlFile, i: int)
    requires
        is_loaded_from(loaded, file),
    ensures
        loaded.metrics_listen == file.metrics_listen,
        loaded.proxies@.len() == file.proxies@.len(),
        0 <= i < file.proxies@.len() ==> {
            &&& loaded.proxies@[i].is_from_toml(i as nat, file.proxies@[i], file.defaults)
            &&& loaded.proxies@[i].target@ == file.proxies@[i].target@
            &&& loaded.proxies@[i].protocol == file.proxies@[i].protocol
        },
{
    if 0 <= i < file.proxies@.len() {
        assert(loaded.proxies@[i].is_from_toml(i as nat, file.proxies@[i], file.defaults));
    }
}

/// The operator is told which setting is missing, or which protocol is not known.
pub proof fn law_messages_name_the_fault(other: String)
    ensures
        ConfigError::ListenRequired.message_spec() == "--listen required in single-proxy mode"@,
        ConfigError::TargetRequired.message_spec() == "--target required in single-proxy mode"@,
        ConfigError::UnknownProtocol(other).message_spec() == "unknown protocol '"@ + other@
            + "'; expected tcp or udp"@,
        ConfigError::NoProxies.message_spec() == "config file defines no [[proxy]] entries"@,
{
}

/// Active connections have ten seconds to finish on shutdown, by default.
pub proof fn law_default_grace_is_ten_seconds()
    ensures
        defaults::SHUTDOWN_GRACE_SECS == 10,
{
}

} // verus!
