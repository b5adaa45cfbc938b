//! The metric families and their registration.

use vstd::prelude::*;

use crate::metrics::store;
use crate::metrics::store::MetricStore;

verus! {

/// The families of counters.
pub open spec fn counter_families() -> Seq<store::Family> {
    seq![
        (
            "oxiduct_connections_total"@,
            "Connections accepted / UDP sessions opened"@,
            seq!["proxy"@, "protocol"@],
        ),
        (
            "oxiduct_connections_rejected_total"@,
            "Connections refused by the connection limiter"@,
            seq!["proxy"@, "reason"@],
        ),
        ("oxiduct_connect_failures_total"@, "Upstream TCP connect failures"@, seq!["proxy"@]),
        ("oxiduct_connect_timeouts_total"@, "Upstream TCP connect timeouts"@, seq!["proxy"@]),
        ("oxiduct_bytes_total"@, "Bytes relayed"@, seq!["proxy"@, "direction"@]),
        (
            "oxiduct_connections_closed_total"@,
            "Connections / sessions closed, by reason"@,
            seq!["proxy"@, "reason"@],
        ),
    ]
}

/// The families of gauges.
pub open spec fn gauge_families() -> Seq<store::Family> {
    seq![
        (
            "oxiduct_active_connections"@,
            "Currently active connections / sessions"@,
            seq!["proxy"@],
        ),
        (
            "oxiduct_max_connections"@,
            "Configured total connection cap (0 = unlimited)"@,
            seq!["proxy"@],
        ),
        (
            "oxiduct_max_per_ip"@,
            "Configured per-source-IP connection cap (0 = unlimited)"@,
            seq!["proxy"@],
        ),
    ]
}

// Places of the families of counters in the store.
pub(crate) const CONNECTIONS_TOTAL: usize = 0;

pub(crate) const CONNECTIONS_REJECTED: usize = 1;

pub(crate) const CONNECT_FAILURES: usize = 2;

pub(crate) const CONNECT_TIMEOUTS: usize = 3;

pub(crate) const BYTES_TOTAL: usize = 4;

pub(crate) const CONNECTIONS_CLOSED: usize = 5;

// Places of the families of gauges in the store.
pub(crate) const ACTIVE: usize = 0;

pub(crate) const LIMIT_MAX_CONNECTIONS: usize = 1;

pub(crate) const LIMIT_MAX_PER_IP: usize = 2;

/// All families in the order of their registration.
pub open spec fn families() -> Seq<store::Family> {
    counter_families() + gauge_families()
}

/// Whether the names of the families all have keys of their own.
pub open spec fn names_are_told_apart() -> bool {
    forall|i: int|
        0 <= i < families().len() ==> store::is_free(
            families().take(i),
            store::name_key((#[trigger] families()[i]).0),
        )
}

/// The texts of the parts of a list, for lists of one and of two parts.
pub(crate) proof fn lemma_texts()
    ensures
        forall|s: Seq<&str>|
            s.len() == 1 ==> #[trigger] store::texts(s) == seq![s[0]@],
        forall|s: Seq<&str>|
            s.len() == 2 ==> #[trigger] store::texts(s) == seq![s[0]@, s[1]@],
{
    assert forall|s: Seq<&str>| s.len() == 1 implies #[trigger] store::texts(s) == seq![s[0]@] by {
        assert(store::texts(s) =~= seq![s[0]@]);
    }
    assert forall|s: Seq<&str>| s.len() == 2 implies #[trigger] store::texts(s) == seq![
        s[0]@,
        s[1]@,
    ] by {
        assert(store::texts(s) =~= seq![s[0]@, s[1]@]);
    }
}

/// Whether the first `n` families of counters and the first `m` of gauges are registered,
/// in this order and no others, all without a series.
pub(crate) open spec fn registered_first(store: MetricStore, n: int, m: int) -> bool {
    &&& 0 <= n <= counter_families().len()
    &&& 0 <= m <= gauge_families().len()
    &&& m > 0 ==> n == counter_families().len()
    &&& store::registered_counters(store) == counter_families().take(n)
    &&& store::registered_gauges(store) == gauge_families().take(m)
    &&& store::counter_series(store).len() == n
    &&& forall|i: int| 0 <= i < n ==> #[trigger] store::counter_series(store)[i] == Map::<
        u64,
        (Seq<Seq<char>>, u64),
    >::empty()
    &&& store::gauge_series(store).len() == m
    &&& forall|i: int| 0 <= i < m ==> #[trigger] store::gauge_series(store)[i] == Map::<
        u64,
        (Seq<Seq<char>>, i64),
    >::empty()
}

/// A key is free among the first families where it is free among those of each kind.
proof fn lemma_free_among_first(n: int, m: int, key: u64)
    requires
        0 <= n <= counter_families().len(),
        0 <= m <= gauge_families().len(),
        m > 0 ==> n == counter_families().len(),
    ensures
        store::is_free(families().take(n + m), key) <==> store::is_free(
            counter_families().take(n),
            key,
        ) && store::is_free(gauge_families().take(m), key),
{
    let all = families().take(n + m);
    let counters = counter_families().take(n);
    let gauges = gauge_families().take(m);
    assert(all =~= counters + gauges);
    if store::is_free(all, key) {
        assert forall|i: int| 0 <= i < counters.len() implies store::name_key(
            (#[trigger] counters[i]).0,
        ) != key by {
            assert(all[i] == counters[i]);
        }
        assert forall|i: int| 0 <= i < gauges.len() implies store::name_key(
            (#[trigger] gauges[i]).0,
        ) != key by {
            assert(all[n + i] == gauges[i]);
        }
    }
}

/// Register the family of counters at this place.
pub(crate) fn register_counters(
    store: &mut MetricStore,
    place: usize,
    name: &str,
    help: &str,
    labels: &[&str],
)
    requires
        registered_first(*old(store), place as int, 0),
        place < counter_families().len(),
        counter_families()[place as int] == (name@, help@, store::texts(labels@)),
        store::acceptable(counter_families()[place as int]),
        names_are_told_apart(),
    ensures
        registered_first(*final(store), place + 1, 0),
{
    proof {
        lemma_free_among_first(place as int, 0, store::name_key(name@));
        assert(families()[place as int] == counter_families()[place as int]);
    }
    let added = store.add_counters(name, help, labels);
    assert(added is Ok);
    assert(store::registered_counters(*store) =~= counter_families().take(place + 1));
    assert(store::registered_gauges(*store) =~= gauge_families().take(0));
}

/// Register the family of gauges at this place.
pub(crate) fn register_gauges(
    store: &mut MetricStore,
    place: usize,
    name: &str,
    help: &str,
    labels: &[&str],
)
    requires
        registered_first(*old(store), counter_families().len() as int, place as int),
        place < gauge_families().len(),
        gauge_families()[place as int] == (name@, help@, store::texts(labels@)),
        store::acceptable(gauge_families()[place as int]),
        names_are_told_apart(),
    ensures
        registered_first(*final(store), counter_families().len() as int, place + 1),
{
    proof {
        let n = counter_families().len() as int;
        lemma_free_among_first(n, place as int, store::name_key(name@));
        assert(families()[n + place] == gauge_families()[place as int]);
    }
    let added = store.add_gauges(name, help, labels);
    assert(added is Ok);
    assert(store::registered_gauges(*store) =~= gauge_families().take(place + 1));
}

/// Whether the first `n` characters may all stand in a name.
pub(crate) open spec fn name_chars(s: Seq<char>, n: nat) -> bool
    decreases n,
{
    n == 0 || (store::name_char(s[n - 1], false) && name_chars(s, (n - 1) as nat))
}

proof fn lemma_name_chars(s: Seq<char>, n: nat)
    requires
        name_chars(s, n),
        n <= s.len(),
    ensures
        forall|i: int| 0 <= i < n ==> store::name_char(#[trigger] s[i], false),
    decreases n,
{
    if n > 0 {
        lemma_name_chars(s, (n - 1) as nat);
    }
}

pub(crate) proof fn lemma_well_named(s: Seq<char>)
    requires
        s.len() > 0,
        name_chars(s, s.len()),
    ensures
        store::well_named(s, true),
        store::well_named(s, false),
{
    lemma_name_chars(s, s.len());
}

/// All families can be registered.
pub(crate) proof fn lemma_families_are_acceptable()
    ensures
        forall|i: int|
            0 <= i < counter_families().len() ==> store::acceptable(
                #[trigger] counter_families()[i],
            ),
        forall|i: int|
            0 <= i < gauge_families().len() ==> store::acceptable(#[trigger] gauge_families()[i]),
{
    reveal_with_fuel(name_chars, 40);
    reveal_strlit("proxy");
    reveal_strlit("protocol");
    reveal_strlit("reason");
    reveal_strlit("direction");
    lemma_well_named("proxy"@);
    lemma_well_named("protocol"@);
    lemma_well_named("reason"@);
    lemma_well_named("direction"@);
    assert("proxy"@.len() != "protocol"@.len());
    assert("proxy"@.len() != "reason"@.len());
    assert("proxy"@.len() != "direction"@.len());
    reveal_strlit("oxiduct_connections_total");
    reveal_strlit("Connections accepted / UDP sessions opened");
    lemma_well_named("oxiduct_connections_total"@);
    reveal_strlit("oxiduct_connections_rejected_total");
    reveal_strlit("Connections refused by the connection limiter");
    lemma_well_named("oxiduct_connections_rejected_total"@);
    reveal_strlit("oxiduct_connect_failures_total");
    reveal_strlit("Upstream TCP connect failures");
    lemma_well_named("oxiduct_connect_failures_total"@);
    reveal_strlit("oxiduct_connect_timeouts_total");
    reveal_strlit("Upstream TCP connect timeouts");
    lemma_well_named("oxiduct_connect_timeouts_total"@);
    reveal_strlit("oxiduct_bytes_total");
    reveal_strlit("Bytes relayed");
    lemma_well_named("oxiduct_bytes_total"@);
    reveal_strlit("oxiduct_connections_closed_total");
    reveal_strlit("Connections / sessions closed, by reason");
    lemma_well_named("oxiduct_connections_closed_total"@);
    reveal_strlit("oxiduct_active_connections");
    reveal_strlit("Currently active connections / sessions");
    lemma_well_named("oxiduct_active_connections"@);
    reveal_strlit("oxiduct_max_connections");
    reveal_strlit("Configured total connection cap (0 = unlimited)");
    lemma_well_named("oxiduct_max_connections"@);
    reveal_strlit("oxiduct_max_per_ip");
    reveal_strlit("Configured per-source-IP connection cap (0 = unlimited)");
    lemma_well_named("oxiduct_max_per_ip"@);
}

} // verus!
