//! The labels of the metrics: different labels stay different when they are hashed.
//!
//! `prometheus` hashes the values of the labels of a series one after the other, with
//! nothing between them. Still no two series of a family are hashed from the same bytes,
//! because no value that the second label of a family can have is the end of another.

use vstd::prelude::*;

use crate::metrics::store;
use crate::metrics::{label_values, CloseReason, MetricEvent};

verus! {

/// The family that an event is about.
pub enum FamilyName {
    ConnectionsTotal,
    ConnectionsRejected,
    ConnectFailures,
    ConnectTimeouts,
    BytesTotal,
    ConnectionsClosed,
    Active,
    LimitMaxConnections,
    LimitMaxPerIp,
}

/// The family that an event is about.
pub open spec fn family_of(event: MetricEvent) -> FamilyName {
    match event {
        MetricEvent::Accepted(_) => FamilyName::ConnectionsTotal,
        MetricEvent::Rejected(_) => FamilyName::ConnectionsRejected,
        MetricEvent::ConnectFailed => FamilyName::ConnectFailures,
        MetricEvent::ConnectTimedOut => FamilyName::ConnectTimeouts,
        MetricEvent::Relayed(..) => FamilyName::BytesTotal,
        MetricEvent::Closed(..) => FamilyName::ConnectionsClosed,
        MetricEvent::ActiveSet(_) => FamilyName::Active,
        MetricEvent::ActiveAdd(_) => FamilyName::Active,
        MetricEvent::MaxConnections(_) => FamilyName::LimitMaxConnections,
        MetricEvent::MaxPerIp(_) => FamilyName::LimitMaxPerIp,
    }
}

/// Whether two texts differ in a character so far from their ends.
spec fn differ_at(a: Seq<char>, b: Seq<char>, back: int) -> bool {
    &&& 0 <= back < a.len()
    &&& back < b.len()
    &&& a[a.len() - 1 - back] != b[b.len() - 1 - back]
}

/// Whether some texts are of ASCII characters alone and differ so far from their ends.
spec fn told_apart(a: Seq<char>, b: Seq<char>, back: int) -> bool {
    vstd::utf8::is_ascii_chars(a) && vstd::utf8::is_ascii_chars(b) && differ_at(a, b, back)
}

/// Texts that end differently are not made the same by what stands before them.
proof fn lemma_told_apart(p: Seq<char>, q: Seq<char>, a: Seq<char>, b: Seq<char>, back: int)
    requires
        told_apart(a, b, back),
    ensures
        vstd::utf8::encode_utf8(p) + vstd::utf8::encode_utf8(a) != vstd::utf8::encode_utf8(q)
            + vstd::utf8::encode_utf8(b),
{
    let x = vstd::utf8::encode_utf8(a);
    let y = vstd::utf8::encode_utf8(b);
    let s = vstd::utf8::encode_utf8(p) + x;
    let t = vstd::utf8::encode_utf8(q) + y;
    vstd::utf8::is_ascii_chars_encode_utf8(a);
    vstd::utf8::is_ascii_chars_encode_utf8(b);
    let i = a.len() - 1 - back;
    let j = b.len() - 1 - back;
    assert('\0' <= a[i] <= '\u{7f}' && '\0' <= b[j] <= '\u{7f}');
    assert(x[i] == a[i] as u8 && y[j] == b[j] as u8);
    assert(s[s.len() - 1 - back] == x[i]);
    assert(t[t.len() - 1 - back] == y[j]);
}

/// What stands before one text is told from what stands before it elsewhere.
proof fn lemma_same_start(p: Seq<char>, q: Seq<char>, a: Seq<char>)
    requires
        vstd::utf8::encode_utf8(p) + vstd::utf8::encode_utf8(a) == vstd::utf8::encode_utf8(q)
            + vstd::utf8::encode_utf8(a),
    ensures
        p == q,
{
    let x = vstd::utf8::encode_utf8(p);
    let y = vstd::utf8::encode_utf8(q);
    let z = vstd::utf8::encode_utf8(a);
    assert((x + z).len() == (y + z).len());
    assert((x + z).take(x.len() as int) =~= x);
    assert((y + z).take(y.len() as int) =~= y);
    vstd::utf8::encode_utf8_decode_utf8(p);
    vstd::utf8::encode_utf8_decode_utf8(q);
}

/// What one value and what two values are hashed from.
proof fn lemma_joined(p: Seq<char>, a: Seq<char>)
    ensures
        store::joined(seq![p]) == vstd::utf8::encode_utf8(p),
        store::joined(seq![p, a]) == vstd::utf8::encode_utf8(p) + vstd::utf8::encode_utf8(a),
{
    reveal_with_fuel(store::joined, 3);
    assert(seq![p].drop_last() =~= Seq::<Seq<char>>::empty());
    assert(seq![p, a].drop_last() =~= seq![p]);
    assert(store::joined(seq![p]) =~= vstd::utf8::encode_utf8(p));
    assert(store::joined(seq![p, a]) =~= vstd::utf8::encode_utf8(p) + vstd::utf8::encode_utf8(a));
}

/// The labels of protocols, rejections and directions: no one is the end of another.
proof fn lemma_small_told_apart()
    ensures
        told_apart("tcp"@, "udp"@, 1),
        told_apart("total"@, "per_ip"@, 0),
        told_apart("up"@, "down"@, 0),
{
    reveal_with_fuel(crate::metrics::families::name_chars, 20);
    reveal_strlit("tcp");
    lemma_label_is_ascii("tcp"@);
    reveal_strlit("udp");
    lemma_label_is_ascii("udp"@);
    reveal_strlit("total");
    lemma_label_is_ascii("total"@);
    reveal_strlit("per_ip");
    lemma_label_is_ascii("per_ip"@);
    reveal_strlit("up");
    lemma_label_is_ascii("up"@);
    reveal_strlit("down");
    lemma_label_is_ascii("down"@);
}

/// The labels of reasons for closing: no one is the end of another.
proof fn lemma_reasons_told_apart()
    ensures
        told_apart("eof"@, "reset"@, 0),
        told_apart("eof"@, "idle_timeout"@, 0),
        told_apart("eof"@, "half_close_timeout"@, 0),
        told_apart("eof"@, "shutdown"@, 0),
        told_apart("reset"@, "idle_timeout"@, 1),
        told_apart("reset"@, "half_close_timeout"@, 1),
        told_apart("reset"@, "shutdown"@, 0),
        told_apart("idle_timeout"@, "half_close_timeout"@, 9),
        told_apart("idle_timeout"@, "shutdown"@, 0),
        told_apart("half_close_timeout"@, "shutdown"@, 0),
{
    reveal_with_fuel(crate::metrics::families::name_chars, 20);
    reveal_strlit("eof");
    lemma_label_is_ascii("eof"@);
    reveal_strlit("reset");
    lemma_label_is_ascii("reset"@);
    reveal_strlit("idle_timeout");
    lemma_label_is_ascii("idle_timeout"@);
    reveal_strlit("half_close_timeout");
    lemma_label_is_ascii("half_close_timeout"@);
    reveal_strlit("shutdown");
    lemma_label_is_ascii("shutdown"@);
}

proof fn lemma_label_is_ascii(s: Seq<char>)
    requires
        s.len() > 0,
        crate::metrics::families::name_chars(s, s.len()),
    ensures
        vstd::utf8::is_ascii_chars(s),
{
    crate::metrics::families::lemma_well_named(s);
    crate::metrics::keys::lemma_ascii(s);
}

/// The value of the second label, where there is one.
spec fn second_label(event: MetricEvent) -> Seq<char> {
    match event {
        MetricEvent::Accepted(protocol) => crate::metrics::protocol_label_spec(protocol),
        MetricEvent::Rejected(reason) => crate::metrics::reject_label_spec(reason),
        MetricEvent::Relayed(dir, _) => dir.label_spec(),
        MetricEvent::Closed(reason, _) => reason.label_spec(),
        _ => Seq::empty(),
    }
}

/// How far from their ends two different second labels of a family differ.
spec fn back_of(e: MetricEvent, f: MetricEvent) -> int {
    match (e, f) {
        (MetricEvent::Accepted(_), _) => 1,
        (MetricEvent::Closed(CloseReason::Reset, _), MetricEvent::Closed(r, _)) => if r
            == CloseReason::IdleTimeout || r == CloseReason::HalfCloseTimeout {
            1
        } else {
            0
        },
        (MetricEvent::Closed(CloseReason::IdleTimeout, _), MetricEvent::Closed(r, _)) => match r {
            CloseReason::Reset => 1,
            CloseReason::HalfCloseTimeout => 9,
            _ => 0,
        },
        (MetricEvent::Closed(CloseReason::HalfCloseTimeout, _), MetricEvent::Closed(r, _)) => match r {
            CloseReason::Reset => 1,
            CloseReason::IdleTimeout => 9,
            _ => 0,
        },
        _ => 0,
    }
}

// ── Laws ─────────────────────────────────────────────────────────────────────

/// Two series of a family are hashed from the same bytes only where all their labels are
/// the same: the metrics of one proxy, reason, protocol or direction never count for
/// another, unless the hash itself maps different bytes to one key.
pub proof fn law_labels_are_told_apart(
    p: Seq<char>,
    e: MetricEvent,
    q: Seq<char>,
    f: MetricEvent,
)
    requires
        family_of(e) == family_of(f),
        store::joined(label_values(p, e)) == store::joined(label_values(q, f)),
    ensures
        label_values(p, e) == label_values(q, f),
{
    let a = second_label(e);
    let b = second_label(f);
    lemma_joined(p, a);
    lemma_joined(q, b);
    if e is Accepted || e is Rejected || e is Relayed || e is Closed {
        if a == b {
            lemma_same_start(p, q, a);
        } else {
            lemma_small_told_apart();
            lemma_reasons_told_apart();
            assert(told_apart(a, b, back_of(e, f)));
            lemma_told_apart(p, q, a, b, back_of(e, f));
        }
    } else {
        vstd::utf8::encode_utf8_decode_utf8(p);
        vstd::utf8::encode_utf8_decode_utf8(q);
    }
}

} // verus!
