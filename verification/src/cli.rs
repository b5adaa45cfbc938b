//! Command line settings.

use vstd::prelude::*;
use vstd::string::*;

use crate::text::{decimal_value, is_digit, lemma_decimal_value_prefix};

verus! {

/// The settings of one run.
///
/// Single-proxy mode needs `listen` and `target`; multi-proxy mode needs `config`.
#[derive(Debug)]
pub struct Args {
    /// Path of a TOML config file (multi-proxy mode).
    pub config: Option<String>,
    /// Listen address: "host:port" or bare "port" (expands to 0.0.0.0:PORT).
    pub listen: Option<String>,
    /// Target "host:port" to forward traffic to.
    pub target: Option<String>,
    /// Protocol to proxy.
    pub protocol: String,
    /// Connect timeout (seconds).
    pub connect_timeout: u64,
    /// TCP keepalive: idle time before first probe (seconds, 0 = disable).
    pub keepalive_idle: u64,
    /// TCP keepalive: interval between probes (seconds).
    pub keepalive_interval: u64,
    /// TCP keepalive: max probes before dropping connection.
    pub keepalive_retries: u32,
    /// TCP_USER_TIMEOUT in milliseconds (0 = OS default, Linux/Android only).
    pub user_timeout_ms: u32,
    /// Application idle timeout (seconds, 0 = disable).
    pub idle_timeout: u64,
    /// Half-close grace period (seconds, 0 = disable).
    pub half_close_timeout: u64,
    /// Max simultaneous connections (0 = unlimited).
    pub max_connections: u32,
    /// Max connections per source IP (0 = unlimited).
    pub max_per_ip: u32,
    /// Grace period on SIGTERM/SIGINT before force-closing connections (seconds).
    pub shutdown_grace: u64,
    /// Address to expose Prometheus metrics at.
    pub metrics_listen: Option<String>,
    /// Log level.
    pub log_level: String,
    /// Emit a PROXY protocol v2 header to the target on connect (TCP only).
    pub proxy_protocol: bool,
}

/// The digits of `s`: what follows an optional leading plus sign.
pub open spec fn unsigned_digits(s: Seq<char>) -> Seq<char> {
    if s.len() > 0 && s[0] == '+' {
        s.skip(1)
    } else {
        s
    }
}

/// Whether `s` writes a port number: an optional plus sign, then one or more digits that
/// write a number of at most 65535.
pub open spec fn is_port(s: Seq<char>) -> bool {
    let d = unsigned_digits(s);
    &&& d.len() > 0
    &&& forall|i: int| 0 <= i < d.len() ==> is_digit(#[trigger] d[i])
    &&& decimal_value(d) <= 65535
}

/// A listen address with a bare port expanded.
pub open spec fn expanded(s: Seq<char>) -> Seq<char> {
    if is_port(s) {
        "0.0.0.0:"@ + s
    } else {
        s
    }
}

/// Whether `s` writes a port number.
pub fn parses_as_port(s: &str) -> (r: bool)
    ensures
        r == is_port(s@),
{
    let ghost d = unsigned_digits(s@);
    let mut skipped: bool = false;
    let mut value: u32 = 0;
    let mut seen: bool = false;
    let mut first: bool = true;
    proof {
        assert(d.take(0) =~= Seq::<char>::empty());
        assert(s@.take(0) =~= Seq::<char>::empty());
    }
    for c in it: s.chars()
        invariant
            it.seq() == s@,
            d == unsigned_digits(s@),
            first == (it.index() == 0),
            skipped == (it.index() > 0 && s@[0] == '+'),
            ({
                let k = if skipped {
                    it.index() - 1
                } else {
                    it.index() as int
                };
                &&& 0 <= k <= d.len()
                &&& seen == (k > 0)
                &&& value <= 65535
                &&& value == decimal_value(d.take(k))
                &&& forall|i: int| 0 <= i < k ==> is_digit(#[trigger] d[i])
            }),
    {
        if first && c == '+' {
            skipped = true;
        } else {
            let ghost k = if skipped {
                it.index() - 1
            } else {
                it.index() as int
            };
            assert(c == d[k]);
            if !(c >= '0' && c <= '9') {
                assert(!is_digit(d[k]));
                return false;
            }
            value = value * 10 + (c as u32 - '0' as u32);
            seen = true;
            proof {
                assert(d.take(k + 1).drop_last() =~= d.take(k));
                assert(d.take(k + 1).last() == d[k]);
                lemma_decimal_value_prefix(d, k + 1);
            }
            if value > 65535 {
                return false;
            }
        }
        first = false;
    }
    proof {
        assert(d.take(d.len() as int) =~= d);
    }
    seen
}

/// Expand a bare port number "587" to "0.0.0.0:587".
pub fn expand_listen(s: &str) -> (r: String)
    ensures
        r@ == expanded(s@),
{
    if parses_as_port(s) {
        "0.0.0.0:".to_owned().concat(s)
    } else {
        s.to_owned()
    }
}

// ── Laws ─────────────────────────────────────────────────────────────────────

/// A listen address that was expanded is not expanded again.
pub proof fn law_expansion_is_idempotent(s: Seq<char>)
    ensures
        expanded(expanded(s)) == expanded(s),
{
    if is_port(s) {
        let e = "0.0.0.0:"@ + s;
        reveal_strlit("0.0.0.0:");
        assert(unsigned_digits(e) == e);
        assert(!is_digit(e[1]));
    }
}

/// Every port number, as it is written in decimal, is expanded.
pub proof fn law_every_port_number_is_expanded(port: u16)
    ensures
        expanded(crate::text::decimal(port as nat)) == "0.0.0.0:"@ + crate::text::decimal(
            port as nat,
        ),
{
    let d = crate::text::decimal(port as nat);
    crate::text::lemma_decimal_round_trip(port as nat);
    assert(is_digit(d[0]));
    assert(unsigned_digits(d) == d);
}

/// What is expanded, and what is left alone: a string of digits, with or without a plus
/// sign, that writes a number of at most 65535 gets the address of all interfaces in front
/// of it, and any other string stays as it is.
pub proof fn law_expansion_is_exact(s: Seq<char>)
    ensures
        ({
            let plain = s.len() > 0 && (forall|i: int|
                0 <= i < s.len() ==> '0' <= #[trigger] s[i] <= '9') && decimal_value(s) <= 65535;
            let signed = s.len() > 1 && s[0] == '+' && (forall|i: int|
                1 <= i < s.len() ==> '0' <= #[trigger] s[i] <= '9') && decimal_value(s.skip(1))
                <= 65535;
            &&& plain || signed ==> expanded(s) == "0.0.0.0:"@ + s
            &&& !(plain || signed) ==> expanded(s) == s
            &&& is_port(s) <==> plain || signed
        }),
{
    let d = unsigned_digits(s);
    if s.len() > 0 && s[0] == '+' {
        assert(d == s.skip(1));
        assert(forall|i: int| 0 <= i < d.len() ==> d[i] == s[i + 1]);
        assert(forall|i: int| 1 <= i < s.len() ==> #[trigger] s[i] == d[i - 1]);
    }
}

} // verus!
