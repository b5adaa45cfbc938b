//! Metric families held in a Prometheus registry.
//!
//! A family is known by its name, its help text and the names of its labels. Its series
//! are told apart by the values of those labels: `prometheus` files each series under a
//! hash of its values, so two lists of values with one hash share a series, which keeps
//! the values it was created with.

use vstd::prelude::*;

verus! {

/// `prometheus::Error`: why a family was refused. Nothing inside it is read.
#[verifier::external_type_specification]
#[verifier::external_body]
pub struct ExPrometheusError(prometheus::Error);

/// A registry and the families registered with it, counters and gauges each in order of
/// registration. The families are `prometheus::IntCounterVec` and
/// `prometheus::IntGaugeVec`.
#[verifier::external_body]
pub struct MetricStore {
    registry: prometheus::Registry,
    counters: Vec<prometheus::IntCounterVec>,
    gauges: Vec<prometheus::IntGaugeVec>,
}

/// A family's name, help text and label names.
pub type Family = (Seq<char>, Seq<char>, Seq<Seq<char>>);

/// The series of a family of counters: label values and count, by key.
pub type CounterSeries = Map<u64, (Seq<Seq<char>>, u64)>;

/// The series of a family of gauges: label values and level, by key.
pub type GaugeSeries = Map<u64, (Seq<Seq<char>>, i64)>;

/// The families of counters that are registered in a store.
pub uninterp spec fn registered_counters(store: MetricStore) -> Seq<Family>;

/// The series of each family of counters in a store.
pub uninterp spec fn counter_series(store: MetricStore) -> Seq<CounterSeries>;

/// The families of gauges that are registered in a store.
pub uninterp spec fn registered_gauges(store: MetricStore) -> Seq<Family>;

/// The series of each family of gauges in a store.
pub uninterp spec fn gauge_series(store: MetricStore) -> Seq<GaugeSeries>;

/// The text exposition of these families of counters and gauges with these series.
pub uninterp spec fn exposition(
    counter_families: Seq<Family>,
    counters: Seq<CounterSeries>,
    gauge_families: Seq<Family>,
    gauges: Seq<GaugeSeries>,
) -> Seq<u8>;

/// The FNV-1a hash after one more byte.
pub open spec fn fnv_step(hash: u64, byte: u8) -> u64 {
    ((hash ^ (byte as u64)) * 0x100_0000_01b3 % 0x1_0000_0000_0000_0000) as u64
}

/// The 64-bit FNV-1a hash of some bytes.
pub open spec fn fnv(bytes: Seq<u8>) -> u64
    decreases bytes.len(),
{
    if bytes.len() == 0 {
        0xcbf2_9ce4_8422_2325
    } else {
        fnv_step(fnv(bytes.drop_last()), bytes.last())
    }
}

/// The bytes of some texts, one after the other.
pub open spec fn joined(texts: Seq<Seq<char>>) -> Seq<u8>
    decreases texts.len(),
{
    if texts.len() == 0 {
        Seq::empty()
    } else {
        joined(texts.drop_last()) + vstd::utf8::encode_utf8(texts.last())
    }
}

/// The key under which `prometheus` files the series with these label values: a hash of
/// the values one after the other, with nothing between them.
pub open spec fn series_key(values: Seq<Seq<char>>) -> u64 {
    fnv(joined(values))
}

/// The key under which `prometheus` files the family with this name: a hash of the name
/// and a separator.
pub open spec fn name_key(name: Seq<char>) -> u64 {
    fnv(vstd::utf8::encode_utf8(name).push(0xff))
}

/// The texts of some string slices.
pub open spec fn texts(parts: Seq<&str>) -> Seq<Seq<char>> {
    parts.map_values(|part: &str| part@)
}

/// Whether `c` may stand anywhere in a name. Colons are for the names of families.
pub open spec fn name_char(c: char, colon: bool) -> bool {
    'a' <= c <= 'z' || 'A' <= c <= 'Z' || c == '_' || (colon && c == ':')
}

/// Whether `name` is a name: not empty, and with digits behind the first character only.
pub open spec fn well_named(name: Seq<char>, colon: bool) -> bool {
    &&& name.len() > 0
    &&& forall|i: int|
        0 <= i < name.len() ==> name_char(#[trigger] name[i], colon) || (i > 0 && '0' <= name[i]
            <= '9')
}

/// Whether a family can be registered: it has a name and a help text, and its labels have
/// names of their own.
pub open spec fn acceptable(family: Family) -> bool {
    &&& well_named(family.0, true)
    &&& family.1.len() > 0
    &&& forall|i: int| 0 <= i < family.2.len() ==> well_named(#[trigger] family.2[i], false)
    &&& family.2.no_duplicates()
}

/// Whether no family is filed under the key.
pub open spec fn is_free(families: Seq<Family>, key: u64) -> bool {
    forall|i: int| 0 <= i < families.len() ==> name_key((#[trigger] families[i]).0) != key
}

/// A counter's value after adding `by`: it starts over past the largest `u64`.
pub open spec fn wrapped_count(value: u64, by: u64) -> u64 {
    let sum = value + by;
    if sum > u64::MAX {
        (sum - u64::MAX - 1) as u64
    } else {
        sum as u64
    }
}

/// A gauge's value after adding `by`: it starts over past either end of `i64`.
pub open spec fn wrapped_level(value: i64, by: i64) -> i64 {
    let sum = value + by;
    if sum > i64::MAX {
        (sum - u64::MAX - 1) as i64
    } else if sum < i64::MIN {
        (sum + u64::MAX + 1) as i64
    } else {
        sum as i64
    }
}

/// A family of counters after counting `by` in the series with this key, which is
/// created with these label values where there was none.
pub open spec fn counted(
    series: CounterSeries,
    key: u64,
    values: Seq<Seq<char>>,
    by: u64,
) -> CounterSeries {
    if series.contains_key(key) {
        series.insert(key, (series[key].0, wrapped_count(series[key].1, by)))
    } else {
        series.insert(key, (values, by))
    }
}

/// A family of gauges after setting the series with this key, which is created with
/// these label values where there was none.
pub open spec fn levelled(
    series: GaugeSeries,
    key: u64,
    values: Seq<Seq<char>>,
    to: i64,
) -> GaugeSeries {
    if series.contains_key(key) {
        series.insert(key, (series[key].0, to))
    } else {
        series.insert(key, (values, to))
    }
}

/// A family of gauges after shifting the series with this key, which is created with
/// these label values where there was none.
pub open spec fn shifted(
    series: GaugeSeries,
    key: u64,
    values: Seq<Seq<char>>,
    by: i64,
) -> GaugeSeries {
    if series.contains_key(key) {
        series.insert(key, (series[key].0, wrapped_level(series[key].1, by)))
    } else {
        series.insert(key, (values, by))
    }
}

impl MetricStore {
    /// `prometheus::Registry::new`: a registry with no family.
    #[verifier::external_body]
    pub(crate) fn new() -> (r: MetricStore)
        ensures
            registered_counters(r) == Seq::<Family>::empty(),
            counter_series(r) == Seq::<CounterSeries>::empty(),
            registered_gauges(r) == Seq::<Family>::empty(),
            gauge_series(r) == Seq::<GaugeSeries>::empty(),
    {
        MetricStore {
            registry: prometheus::Registry::new(),
            counters: Vec::new(),
            gauges: Vec::new(),
        }
    }

    /// `prometheus::IntCounterVec::new` and `prometheus::Registry::register`: the first
    /// refuses a family that is not acceptable, the second one whose name has the key of an
    /// earlier one; any other family is added, with no series. A refusal changes nothing.
    #[verifier::external_body]
    pub(crate) fn add_counters(&mut self, name: &str, help: &str, labels: &[&str]) -> (r: Result<
        (),
        prometheus::Error,
    >)
        ensures
            r is Ok <==> {
                &&& acceptable((name@, help@, texts(labels@)))
                &&& is_free(registered_counters(*old(self)), name_key(name@))
                &&& is_free(registered_gauges(*old(self)), name_key(name@))
            },
            registered_counters(*final(self)) == (if r is Ok {
                registered_counters(*old(self)).push((name@, help@, texts(labels@)))
            } else {
                registered_counters(*old(self))
            }),
            counter_series(*final(self)) == (if r is Ok {
                counter_series(*old(self)).push(Map::empty())
            } else {
                counter_series(*old(self))
            }),
            registered_gauges(*final(self)) == registered_gauges(*old(self)),
            gauge_series(*final(self)) == gauge_series(*old(self)),
    {
        let family = prometheus::IntCounterVec::new(prometheus::Opts::new(name, help), labels)?;
        self.registry.register(Box::new(family.clone()))?;
        self.counters.push(family);
        Ok(())
    }

    /// `prometheus::IntGaugeVec::new` and `prometheus::Registry::register`: as
    /// `add_counters`, for a family of gauges.
    #[verifier::external_body]
    pub(crate) fn add_gauges(&mut self, name: &str, help: &str, labels: &[&str]) -> (r: Result<
        (),
        prometheus::Error,
    >)
        ensures
            r is Ok <==> {
                &&& acceptable((name@, help@, texts(labels@)))
                &&& is_free(registered_counters(*old(self)), name_key(name@))
                &&& is_free(registered_gauges(*old(self)), name_key(name@))
            },
            registered_gauges(*final(self)) == (if r is Ok {
                registered_gauges(*old(self)).push((name@, help@, texts(labels@)))
            } else {
                registered_gauges(*old(self))
            }),
            gauge_series(*final(self)) == (if r is Ok {
                gauge_series(*old(self)).push(Map::empty())
            } else {
                gauge_series(*old(self))
            }),
            registered_counters(*final(self)) == registered_counters(*old(self)),
            counter_series(*final(self)) == counter_series(*old(self)),
    {
        let family = prometheus::IntGaugeVec::new(prometheus::Opts::new(name, help), labels)?;
        self.registry.register(Box::new(family.clone()))?;
        self.gauges.push(family);
        Ok(())
    }

    /// `prometheus::IntCounterVec::with_label_values` and `prometheus::IntCounter::inc_by`:
    /// the series with these label values is created at 0 where there was none, and grows
    /// by `by`, starting over past the largest `u64`. Each label has to be given a value.
    #[verifier::external_body]
    pub(crate) fn count(&mut self, family: usize, values: &[&str], by: u64)
        requires
            family < counter_series(*old(self)).len(),
            family < registered_counters(*old(self)).len(),
            values@.len() == registered_counters(*old(self))[family as int].2.len(),
        ensures
            counter_series(*final(self)) == counter_series(*old(self)).update(
                family as int,
                counted(
                    counter_series(*old(self))[family as int],
                    series_key(texts(values@)),
                    texts(values@),
                    by,
                ),
            ),
            registered_counters(*final(self)) == registered_counters(*old(self)),
            registered_gauges(*final(self)) == registered_gauges(*old(self)),
            gauge_series(*final(self)) == gauge_series(*old(self)),
    {
        self.counters[family].with_label_values(values).inc_by(by)
    }

    /// `prometheus::IntGaugeVec::with_label_values` and `prometheus::IntGauge::set`: the
    /// series with these label values is created where there was none, and holds `to`.
    /// Each label has to be given a value.
    #[verifier::external_body]
    pub(crate) fn level(&mut self, family: usize, values: &[&str], to: i64)
        requires
            family < gauge_series(*old(self)).len(),
            family < registered_gauges(*old(self)).len(),
            values@.len() == registered_gauges(*old(self))[family as int].2.len(),
        ensures
            gauge_series(*final(self)) == gauge_series(*old(self)).update(
                family as int,
                levelled(
                    gauge_series(*old(self))[family as int],
                    series_key(texts(values@)),
                    texts(values@),
                    to,
                ),
            ),
            registered_gauges(*final(self)) == registered_gauges(*old(self)),
            registered_counters(*final(self)) == registered_counters(*old(self)),
            counter_series(*final(self)) == counter_series(*old(self)),
    {
        self.gauges[family].with_label_values(values).set(to)
    }

    /// `prometheus::IntGaugeVec::with_label_values` and `prometheus::IntGauge::add`: the
    /// series with these label values is created at 0 where there was none, and grows by
    /// `by`, starting over past either end of `i64`. Each label has to be given a value.
    #[verifier::external_body]
    pub(crate) fn shift(&mut self, family: usize, values: &[&str], by: i64)
        requires
            family < gauge_series(*old(self)).len(),
            family < registered_gauges(*old(self)).len(),
            values@.len() == registered_gauges(*old(self))[family as int].2.len(),
        ensures
            gauge_series(*final(self)) == gauge_series(*old(self)).update(
                family as int,
                shifted(
                    gauge_series(*old(self))[family as int],
                    series_key(texts(values@)),
                    texts(values@),
                    by,
                ),
            ),
            registered_gauges(*final(self)) == registered_gauges(*old(self)),
            registered_counters(*final(self)) == registered_counters(*old(self)),
            counter_series(*final(self)) == counter_series(*old(self)),
    {
        self.gauges[family].with_label_values(values).add(by)
    }

    /// `prometheus::Registry::gather` and `prometheus::TextEncoder::encode`: the text
    /// depends on the families and their series alone. Families come in the order of their
    /// names, series in that of their label values, and a family with no series is left
    /// out.
    #[verifier::external_body]
    pub(crate) fn text(&self) -> (r: Vec<u8>)
        ensures
            r@ == exposition(
                registered_counters(*self),
                counter_series(*self),
                registered_gauges(*self),
                gauge_series(*self),
            ),
    {
        let mut text = Vec::with_capacity(4096);
        let families = self.registry.gather();
        let _ = prometheus::Encoder::encode(&prometheus::TextEncoder::new(), &families, &mut text);
        text
    }
}

} // verus!
