//! Connection admission limits.
//!
//! Two layers, both per-proxy:
//!   * total cap: protects the host (FDs, memory, scheduler).
//!   * per-source-IP cap: makes a basic flooding DOS less convenient.
//!
//! Behaviour:
//!   * On the first crossing of 90 % of either limit, the admitted slot carries a
//!     single notice, so operators see trouble coming before connections are dropped.
//!     The per-IP notice is single for each address, also where it comes back later.
//!   * Every rejection at the hard limit says which limit was hit.
//!   * `try_acquire` returns a `Guard`; the slot is given back with `release`.

use std::collections::{BTreeMap, BTreeSet};

use vstd::prelude::*;

use crate::addr::{IpAddr, IpKey};

verus! {

/// Why a connection was rejected.
#[derive(Clone, Copy, Debug, PartialEq, Eq, Structural)]
pub enum Reject {
    /// Global cap reached.
    Total,
    /// Per-source-IP cap reached.
    PerIp,
}

/// How much of a cap is in use.
#[derive(Clone, Copy, Debug, PartialEq, Eq, Structural)]
pub struct Usage {
    pub used: u32,
    pub limit: u32,
}

/// A slot. It names the source address that holds it and carries the notices that
/// its admission raised.
#[derive(Debug)]
pub struct Guard {
    src_ip: IpAddr,
    total_notice: Option<Usage>,
    per_ip_notice: Option<Usage>,
}

impl Guard {
    /// The source address that holds the slot.
    pub closed spec fn ip_spec(self) -> IpAddr {
        self.src_ip
    }

    /// The notice that the total cap is close, where this admission raised it.
    pub closed spec fn total_notice_spec(self) -> Option<Usage> {
        self.total_notice
    }

    /// The notice that the per-IP cap is close, where this admission raised it.
    pub closed spec fn per_ip_notice_spec(self) -> Option<Usage> {
        self.per_ip_notice
    }

    /// The source address that holds the slot.
    pub fn src_ip(&self) -> (r: IpAddr)
        ensures
            r == self.ip_spec(),
    {
        self.src_ip
    }

    /// The notice that the total cap is close, where this admission raised it.
    pub fn total_notice(&self) -> (r: Option<Usage>)
        ensures
            r == self.total_notice_spec(),
    {
        self.total_notice
    }

    /// The notice that the per-IP cap is close, where this admission raised it.
    pub fn per_ip_notice(&self) -> (r: Option<Usage>)
        ensures
            r == self.per_ip_notice_spec(),
    {
        self.per_ip_notice
    }
}

/// The limiter of one proxy.
pub struct ConnLimits {
    max_total: u32,
    max_per_ip: u32,
    total: u32,
    per_ip: BTreeMap<IpKey, u32>,
    total_warned: bool,
    warned: BTreeSet<IpKey>,
}

/// True once `used` has reached 90 % of `cap`.
pub open spec fn near_cap(used: nat, cap: nat) -> bool {
    used * 10 >= cap * 9
}

/// True once `used` has reached 90 % of `cap` (integer arithmetic, no overflow).
pub fn reached_90pct(used: u32, cap: u32) -> (r: bool)
    ensures
        r == near_cap(used as nat, cap as nat),
{
    (used as u64) * 10 >= (cap as u64) * 9
}

// ── Model ────────────────────────────────────────────────────────────────────

/// The limiter as a value.
pub struct LimitsView {
    pub max_total: u32,
    pub max_per_ip: u32,
    /// Slots held in all.
    pub total: nat,
    /// How many slots each source address holds, by key.
    pub per_ip: Map<IpKey, u32>,
    /// Whether the approach of the total cap has been reported.
    pub total_warned: bool,
    /// The source addresses for which the approach of the per-IP cap has been reported.
    pub warned: Set<IpKey>,
}

/// All slots that the addresses of `m` hold.
pub open spec fn slots(m: Map<IpKey, u32>) -> nat
    decreases m.dom().len(),
    when m.dom().finite()
{
    if m.dom().len() == 0 {
        0
    } else {
        let k = m.dom().choose();
        m[k] as nat + slots(m.remove(k))
    }
}

impl LimitsView {
    /// Slots that `ip` holds.
    pub open spec fn count(self, ip: IpAddr) -> nat {
        if self.per_ip.contains_key(ip.key_spec()) {
            self.per_ip[ip.key_spec()] as nat
        } else {
            0
        }
    }

    /// Whether the approach of the per-IP cap has been reported for `ip`.
    pub open spec fn has_warned(self, ip: IpAddr) -> bool {
        self.warned.contains(ip.key_spec())
    }

    /// The invariant: the addresses that hold slots hold all of them, and neither cap is
    /// exceeded.
    pub open spec fn wf(self) -> bool {
        &&& self.per_ip.dom().finite()
        &&& self.total == slots(self.per_ip)
        &&& self.total <= u32::MAX
        &&& self.max_total > 0 ==> self.total <= self.max_total
        &&& forall|k: IpKey| #[trigger]
            self.per_ip.contains_key(k) ==> {
                &&& self.per_ip[k] > 0
                &&& self.max_per_ip > 0 ==> self.per_ip[k] <= self.max_per_ip
            }
    }

    /// Why a connection from `ip` would be rejected, if it would be.
    pub open spec fn rejection(self, ip: IpAddr) -> Option<Reject> {
        if self.max_total > 0 && self.total >= self.max_total {
            Some(Reject::Total)
        } else if self.max_per_ip > 0 && self.count(ip) >= self.max_per_ip {
            Some(Reject::PerIp)
        } else {
            None
        }
    }

    /// Whether admitting one more connection reports that the total cap is close.
    pub open spec fn reports_total(self) -> bool {
        &&& !self.total_warned
        &&& self.max_total > 0
        &&& near_cap(self.total + 1, self.max_total as nat)
    }

    /// Whether admitting one more connection from `ip` reports that the per-IP cap is close.
    pub open spec fn reports_per_ip(self, ip: IpAddr) -> bool {
        &&& !self.has_warned(ip)
        &&& self.max_per_ip > 0
        &&& near_cap(self.count(ip) + 1, self.max_per_ip as nat)
    }

    /// The notice that is due with one more connection: that the total cap is close.
    pub open spec fn total_notice_due(self) -> Option<Usage> {
        if self.reports_total() {
            Some(Usage { used: (self.total + 1) as u32, limit: self.max_total })
        } else {
            None
        }
    }

    /// The notice that is due with one more connection from `ip`: that its cap is close.
    pub open spec fn per_ip_notice_due(self, ip: IpAddr) -> Option<Usage> {
        if self.reports_per_ip(ip) {
            Some(Usage { used: (self.count(ip) + 1) as u32, limit: self.max_per_ip })
        } else {
            None
        }
    }

    /// Whether `guard` is the slot that one more connection from `ip` is admitted with: it
    /// names the address and carries the notices that are due.
    pub open spec fn grants(self, ip: IpAddr, guard: Guard) -> bool {
        &&& guard.ip_spec() == ip
        &&& guard.total_notice_spec() == self.total_notice_due()
        &&& guard.per_ip_notice_spec() == self.per_ip_notice_due(ip)
    }

    /// The limiter after one more connection from `ip` was admitted.
    pub open spec fn acquired(self, ip: IpAddr) -> LimitsView {
        LimitsView {
            total: self.total + 1,
            total_warned: self.total_warned || self.reports_total(),
            per_ip: self.per_ip.insert(ip.key_spec(), (self.count(ip) + 1) as u32),
            warned: if self.reports_per_ip(ip) {
                self.warned.insert(ip.key_spec())
            } else {
                self.warned
            },
            ..self
        }
    }

    /// The limiter after one slot of `ip` was given back.
    pub open spec fn released(self, ip: IpAddr) -> LimitsView {
        LimitsView {
            total: (self.total - 1) as nat,
            per_ip: if self.count(ip) <= 1 {
                self.per_ip.remove(ip.key_spec())
            } else {
                self.per_ip.insert(ip.key_spec(), (self.count(ip) - 1) as u32)
            },
            ..self
        }
    }

    /// The limiter as it starts.
    pub open spec fn fresh(max_total: u32, max_per_ip: u32) -> LimitsView {
        LimitsView {
            max_total,
            max_per_ip,
            total: 0,
            per_ip: Map::empty(),
            total_warned: false,
            warned: Set::empty(),
        }
    }
}

/// The slots of all addresses are those of one address and those of the others.
pub proof fn lemma_slots_remove(m: Map<IpKey, u32>, k: IpKey)
    requires
        m.dom().finite(),
        m.contains_key(k),
    ensures
        slots(m) == m[k] as nat + slots(m.remove(k)),
    decreases m.dom().len(),
{
    let c = m.dom().choose();
    if c != k {
        lemma_slots_remove(m.remove(c), k);
        lemma_slots_remove(m.remove(k), c);
        assert(m.remove(c).remove(k) =~= m.remove(k).remove(c));
    }
}

/// Giving an address another number of slots changes the sum by the difference.
pub proof fn lemma_slots_insert(m: Map<IpKey, u32>, k: IpKey, n: u32)
    requires
        m.dom().finite(),
    ensures
        m.insert(k, n).dom().finite(),
        m.remove(k).dom().finite(),
        slots(m.insert(k, n)) == slots(m.remove(k)) + n,
        m.contains_key(k) ==> slots(m) == slots(m.remove(k)) + m[k],
        !m.contains_key(k) ==> slots(m) == slots(m.remove(k)),
{
    lemma_slots_remove(m.insert(k, n), k);
    assert(m.insert(k, n).remove(k) =~= m.remove(k));
    if m.contains_key(k) {
        lemma_slots_remove(m, k);
    } else {
        assert(m.remove(k) =~= m);
    }
}

impl View for ConnLimits {
    type V = LimitsView;

    closed spec fn view(&self) -> LimitsView {
        LimitsView {
            max_total: self.max_total,
            max_per_ip: self.max_per_ip,
            total: self.total as nat,
            per_ip: self.per_ip@,
            total_warned: self.total_warned,
            warned: self.warned@,
        }
    }
}

impl ConnLimits {
    /// A limiter with no slot taken. A cap of 0 disables its layer.
    pub fn new(max_total: u32, max_per_ip: u32) -> (r: ConnLimits)
        ensures
            r@ == LimitsView::fresh(max_total, max_per_ip),
            r@.wf(),
    {
        ConnLimits {
            max_total,
            max_per_ip,
            total: 0,
            per_ip: BTreeMap::new(),
            total_warned: false,
            warned: BTreeSet::new(),
        }
    }

    /// Reserve a slot for a connection from `src_ip`. Either returns a
    /// `Guard` (which must be kept for the connection's lifetime) or
    /// the reason for rejection.
    ///
    /// `max_total == 0` or `max_per_ip == 0` disables that specific layer; the number of
    /// slots must then stay one that the counter can hold.
    pub fn try_acquire(&mut self, src_ip: IpAddr) -> (r: Result<Guard, Reject>)
        requires
            old(self)@.wf(),
            old(self)@.max_total == 0 && old(self)@.rejection(src_ip) is None ==> old(self)@.total
                < u32::MAX,
        ensures
            final(self)@.wf(),
            match r {
                Err(reason) => {
                    &&& old(self)@.rejection(src_ip) == Some(reason)
                    &&& final(self)@ == old(self)@
                },
                Ok(guard) => {
                    &&& old(self)@.rejection(src_ip) is None
                    &&& final(self)@ == old(self)@.acquired(src_ip)
                    &&& old(self)@.grants(src_ip, guard)
                },
            },
    {
        if self.max_total > 0 && self.total >= self.max_total {
            return Err(Reject::Total);
        }
        let key = src_ip.key();
        let count = match self.per_ip.get(&key) {
            Some(count) => *count,
            None => 0,
        };
        if self.max_per_ip > 0 && count >= self.max_per_ip {
            return Err(Reject::PerIp);
        }
        proof {
            if self.per_ip@.contains_key(key) {
                lemma_slots_remove(self.per_ip@, key);
            }
        }
        // Admit.

        let total_now = self.total + 1;
        let total_should_warn = !self.total_warned && self.max_total > 0 && reached_90pct(
            total_now,
            self.max_total,
        );
        let per_ip_count = count + 1;
        let per_ip_should_warn = !self.warned.contains(&key) && self.max_per_ip > 0
            && reached_90pct(per_ip_count, self.max_per_ip);
        proof {
            lemma_slots_insert(self.per_ip@, key, per_ip_count);
        }
        self.total = total_now;
        if total_should_warn {
            self.total_warned = true;
        }
        self.per_ip.insert(key, per_ip_count);
        if per_ip_should_warn {
            self.warned.insert(key);
        }
        Ok(
            Guard {
                src_ip,
                total_notice: if total_should_warn {
                    Some(Usage { used: total_now, limit: self.max_total })
                } else {
                    None
                },
                per_ip_notice: if per_ip_should_warn {
                    Some(Usage { used: per_ip_count, limit: self.max_per_ip })
                } else {
                    None
                },
            },
        )
    }

    /// Give a slot back to the limiter that handed it out.
    pub fn release(&mut self, guard: Guard)
        requires
            old(self)@.wf(),
            old(self)@.count(guard.ip_spec()) > 0,
        ensures
            final(self)@.wf(),
            final(self)@ == old(self)@.released(guard.ip_spec()),
    {
        let key = guard.src_ip.key();
        let ghost before = self@;
        proof {
            lemma_slots_remove(self.per_ip@, key);
        }
        self.total = self.total - 1;
        let count = match self.per_ip.get(&key) {
            Some(count) => *count,
            None => 0,
        };
        if count <= 1 {
            self.per_ip.remove(&key);
        } else {
            proof {
                lemma_slots_insert(self.per_ip@, key, (count - 1) as u32);
            }
            self.per_ip.insert(key, count - 1);
        }
        assert(self@ == before.released(guard.ip_spec()));
    }

    /// The total cap; 0 means that there is none.
    pub fn max_total(&self) -> (r: u32)
        ensures
            r == self@.max_total,
    {
        self.max_total
    }

    /// The cap per source address; 0 means that there is none.
    pub fn max_per_ip(&self) -> (r: u32)
        ensures
            r == self@.max_per_ip,
    {
        self.max_per_ip
    }

    /// Whether one more connection from `src_ip` would be rejected.
    pub fn would_reject(&self, src_ip: IpAddr) -> (r: bool)
        ensures
            r == (self@.rejection(src_ip) is Some),
    {
        (self.max_total > 0 && self.total >= self.max_total) || (self.max_per_ip > 0
            && self.per_ip(src_ip) >= self.max_per_ip)
    }

    /// Whether one more connection from `src_ip` is one that the slot counter can hold, or
    /// is rejected.
    pub fn can_acquire(&self, src_ip: IpAddr) -> (r: bool)
        ensures
            r == (self@.max_total == 0 && self@.rejection(src_ip) is None ==> self@.total
                < u32::MAX),
    {
        self.max_total != 0 || self.total < u32::MAX || self.would_reject(src_ip)
    }

    /// Current total slot usage.
    pub fn total(&self) -> (r: u32)
        ensures
            r == self@.total,
    {
        self.total
    }

    /// Current per-IP usage.
    pub fn per_ip(&self, ip: IpAddr) -> (r: u32)
        ensures
            r == self@.count(ip),
    {
        match self.per_ip.get(&ip.key()) {
            Some(count) => *count,
            None => 0,
        }
    }
}

// ── Laws ─────────────────────────────────────────────────────────────────────

/// What can happen to a limiter.
pub enum LimitsOp {
    /// A connection from the address asks for a slot.
    Acquire(IpAddr),
    /// A connection from the address ends.
    Release(IpAddr),
}

impl LimitsView {
    /// The limiter after one operation. Only an address that holds a slot can give one back.
    pub open spec fn step(self, op: LimitsOp) -> LimitsView {
        match op {
            LimitsOp::Acquire(ip) => if self.rejection(ip) is None {
                self.acquired(ip)
            } else {
                self
            },
            LimitsOp::Release(ip) => if self.count(ip) > 0 {
                self.released(ip)
            } else {
                self
            },
        }
    }

    /// The limiter after a history of operations.
    pub open spec fn after(self, ops: Seq<LimitsOp>) -> LimitsView
        decreases ops.len(),
    {
        if ops.len() == 0 {
            self
        } else {
            self.after(ops.drop_last()).step(ops.last())
        }
    }

    /// Whether the operation raises the notice that the total cap is close.
    pub open spec fn raises_total(self, op: LimitsOp) -> bool {
        op matches LimitsOp::Acquire(ip) && self.rejection(ip) is None && self.reports_total()
    }

    /// Whether the operation raises the notice that the per-IP cap is close for `of`.
    pub open spec fn raises_per_ip(self, op: LimitsOp, of: IpAddr) -> bool {
        op matches LimitsOp::Acquire(ip) && ip == of && self.rejection(ip) is None
            && self.reports_per_ip(ip)
    }

    /// How often a history raises the notice that the total cap is close.
    pub open spec fn total_notices(self, ops: Seq<LimitsOp>) -> nat
        decreases ops.len(),
    {
        if ops.len() == 0 {
            0
        } else {
            self.total_notices(ops.drop_last()) + if self.after(ops.drop_last()).raises_total(
                ops.last(),
            ) {
                1nat
            } else {
                0nat
            }
        }
    }

    /// How often a history raises the notice that the per-IP cap is close for `of`.
    pub open spec fn per_ip_notices(self, ops: Seq<LimitsOp>, of: IpAddr) -> nat
        decreases ops.len(),
    {
        if ops.len() == 0 {
            0
        } else {
            self.per_ip_notices(ops.drop_last(), of) + if self.after(
                ops.drop_last(),
            ).raises_per_ip(ops.last(), of) {
                1nat
            } else {
                0nat
            }
        }
    }
}

/// One operation keeps the invariant, as long as the slot counter can hold the slots.
pub proof fn lemma_step_keeps_wf(v: LimitsView, op: LimitsOp)
    requires
        v.wf(),
        v.max_total == 0 ==> v.step(op).total <= u32::MAX,
    ensures
        v.step(op).wf(),
{
    match op {
        LimitsOp::Acquire(ip) => {
            let k = ip.key_spec();
            if v.per_ip.contains_key(k) {
                lemma_slots_remove(v.per_ip, k);
            }
            lemma_slots_insert(v.per_ip, k, v.acquired(ip).per_ip[k]);
        },
        LimitsOp::Release(ip) => {
            let k = ip.key_spec();
            if v.count(ip) > 0 {
                lemma_slots_remove(v.per_ip, k);
                lemma_slots_insert(v.per_ip, k, v.released(ip).per_ip[k]);
            }
        },
    }
}

/// Whether the slots that are held at a time during a history are always so many that the
/// slot counter can hold their number. Under a total cap they are.
pub open spec fn slots_fit(v: LimitsView, ops: Seq<LimitsOp>) -> bool {
    v.max_total == 0 ==> forall|n: int|
        0 <= n <= ops.len() ==> (#[trigger] v.after(ops.take(n))).total <= u32::MAX
}

proof fn lemma_slots_fit_before(v: LimitsView, ops: Seq<LimitsOp>)
    requires
        ops.len() > 0,
        slots_fit(v, ops),
    ensures
        slots_fit(v, ops.drop_last()),
        v.max_total == 0 ==> v.after(ops).total <= u32::MAX,
{
    if v.max_total == 0 {
        let init = ops.drop_last();
        assert forall|n: int| 0 <= n <= init.len() implies (#[trigger] v.after(init.take(n))).total
            <= u32::MAX by {
            assert(init.take(n) =~= ops.take(n));
        }
        assert(ops.take(ops.len() as int) =~= ops);
    }
}

/// Whatever connections come and go, neither cap is ever exceeded, and the slots taken are
/// exactly those that the recorded source addresses hold.
pub proof fn law_caps_always_hold(max_total: u32, max_per_ip: u32, ops: Seq<LimitsOp>)
    requires
        slots_fit(LimitsView::fresh(max_total, max_per_ip), ops),
    ensures
        LimitsView::fresh(max_total, max_per_ip).after(ops).wf(),
        max_total > 0 ==> LimitsView::fresh(max_total, max_per_ip).after(ops).total <= max_total,
        max_per_ip > 0 ==> forall|ip: IpAddr|
            #![trigger LimitsView::fresh(max_total, max_per_ip).after(ops).count(ip)]
            LimitsView::fresh(max_total, max_per_ip).after(ops).count(ip) <= max_per_ip,
    decreases ops.len(),
{
    let start = LimitsView::fresh(max_total, max_per_ip);
    lemma_caps_fixed(start, ops);
    if ops.len() > 0 {
        lemma_slots_fit_before(start, ops);
        law_caps_always_hold(max_total, max_per_ip, ops.drop_last());
        lemma_caps_fixed(start, ops.drop_last());
        lemma_step_keeps_wf(start.after(ops.drop_last()), ops.last());
    }
}

proof fn lemma_caps_fixed(v: LimitsView, ops: Seq<LimitsOp>)
    ensures
        v.after(ops).max_total == v.max_total,
        v.after(ops).max_per_ip == v.max_per_ip,
    decreases ops.len(),
{
    if ops.len() > 0 {
        lemma_caps_fixed(v, ops.drop_last());
    }
}

impl LimitsView {
    /// How many slots of `of` the operation hands out, less those it takes back; of all
    /// addresses, where `of` is none.
    pub open spec fn handed_out(self, op: LimitsOp, of: Option<IpAddr>) -> int {
        match op {
            LimitsOp::Acquire(ip) => if self.rejection(ip) is None && (of is None || of == Some(
                ip,
            )) {
                1
            } else {
                0
            },
            LimitsOp::Release(ip) => if self.count(ip) > 0 && (of is None || of == Some(ip)) {
                -1
            } else {
                0
            },
        }
    }

    /// How many slots a history hands out, less those it takes back: the live ones.
    pub open spec fn live(self, ops: Seq<LimitsOp>, of: Option<IpAddr>) -> int
        decreases ops.len(),
    {
        if ops.len() == 0 {
            0
        } else {
            self.live(ops.drop_last(), of) + self.after(ops.drop_last()).handed_out(ops.last(), of)
        }
    }
}

/// One operation changes the counts by the slots that it hands out or takes back: an
/// admitted connection adds exactly one in all and one to its address, a rejected one adds
/// nothing, and no other address's count changes.
pub proof fn law_counts_follow_the_operation(v: LimitsView, op: LimitsOp, ip: IpAddr)
    requires
        v.wf(),
        v.max_total == 0 ==> v.step(op).total <= u32::MAX,
    ensures
        v.step(op).total == v.total + v.handed_out(op, None),
        v.step(op).count(ip) == v.count(ip) + v.handed_out(op, Some(ip)),
{
    let of = match op {
        LimitsOp::Acquire(x) => x,
        LimitsOp::Release(x) => x,
    };
    if of.key_spec() == ip.key_spec() {
        crate::addr::lemma_ip_key_injective(of, ip);
    }
    if v.per_ip.contains_key(of.key_spec()) {
        lemma_slots_remove(v.per_ip, of.key_spec());
    }
}

/// After every history the total is the number of live slots, and so is each address's
/// count of its own.
pub proof fn law_counts_are_the_live_slots(
    max_total: u32,
    max_per_ip: u32,
    ops: Seq<LimitsOp>,
    ip: IpAddr,
)
    requires
        slots_fit(LimitsView::fresh(max_total, max_per_ip), ops),
    ensures
        ({
            let start = LimitsView::fresh(max_total, max_per_ip);
            &&& start.after(ops).total == start.live(ops, None)
            &&& start.after(ops).count(ip) == start.live(ops, Some(ip))
            &&& start.after(ops).total == slots(start.after(ops).per_ip)
        }),
    decreases ops.len(),
{
    let start = LimitsView::fresh(max_total, max_per_ip);
    law_caps_always_hold(max_total, max_per_ip, ops);
    if ops.len() > 0 {
        lemma_slots_fit_before(start, ops);
        law_caps_always_hold(max_total, max_per_ip, ops.drop_last());
        lemma_caps_fixed(start, ops.drop_last());
        law_counts_are_the_live_slots(max_total, max_per_ip, ops.drop_last(), ip);
        law_counts_follow_the_operation(start.after(ops.drop_last()), ops.last(), ip);
    }
}

/// With both caps at 0 no connection is ever rejected.
pub proof fn law_unlimited_never_rejects(v: LimitsView, ip: IpAddr)
    requires
        v.max_total == 0,
        v.max_per_ip == 0,
    ensures
        v.rejection(ip) is None,
{
}

/// Giving a slot back undoes taking it: the total and every address's count are as before,
/// and nothing is left of an address that held no slot, but for the notices.
pub proof fn law_release_undoes_acquire(v: LimitsView, ip: IpAddr)
    requires
        v.wf(),
        v.total < u32::MAX,
    ensures
        v.acquired(ip).released(ip).total == v.total,
        v.acquired(ip).released(ip).per_ip == v.per_ip,
        forall|other: IpAddr| #[trigger]
            v.acquired(ip).released(ip).count(other) == v.count(other),
{
    let k = ip.key_spec();
    if v.per_ip.contains_key(k) {
        lemma_slots_remove(v.per_ip, k);
    }
    assert(v.acquired(ip).released(ip).per_ip =~= v.per_ip);
}

/// A slot given back makes room for its source again.
pub proof fn law_release_makes_room(v: LimitsView, ip: IpAddr)
    requires
        v.wf(),
        v.count(ip) > 0,
    ensures
        v.released(ip).rejection(ip) is None,
{
    lemma_slots_remove(v.per_ip, ip.key_spec());
}

/// What one address does changes no other address's count and raises no notice for it, so
/// a flooding source uses up no other source's share.
pub proof fn law_addresses_are_counted_apart(v: LimitsView, op: LimitsOp, other: IpAddr)
    requires
        match op {
            LimitsOp::Acquire(ip) => ip != other,
            LimitsOp::Release(ip) => ip != other,
        },
    ensures
        v.step(op).count(other) == v.count(other),
        v.step(op).has_warned(other) == v.has_warned(other),
{
    let of = match op {
        LimitsOp::Acquire(x) => x,
        LimitsOp::Release(x) => x,
    };
    if of.key_spec() == other.key_spec() {
        crate::addr::lemma_ip_key_injective(of, other);
    }
}

/// However connections come and go, the notice that the total cap is close is raised at
/// most once.
pub proof fn law_total_notice_is_single(v: LimitsView, ops: Seq<LimitsOp>)
    ensures
        v.total_notices(ops) <= 1,
        v.total_warned ==> v.total_notices(ops) == 0,
        v.after(ops).total_warned <==> v.total_warned || v.total_notices(ops) == 1,
    decreases ops.len(),
{
    if ops.len() > 0 {
        law_total_notice_is_single(v, ops.drop_last());
    }
}

/// However connections come and go, the notice that the per-IP cap is close is raised at
/// most once for each address, also where the address leaves and comes back.
pub proof fn law_per_ip_notice_is_single(v: LimitsView, ops: Seq<LimitsOp>, ip: IpAddr)
    ensures
        v.per_ip_notices(ops, ip) <= 1,
        v.has_warned(ip) ==> v.per_ip_notices(ops, ip) == 0,
        v.after(ops).has_warned(ip) <==> v.has_warned(ip) || v.per_ip_notices(ops, ip) == 1,
    decreases ops.len(),
{
    if ops.len() > 0 {
        law_per_ip_notice_is_single(v, ops.drop_last(), ip);
        let of = match ops.last() {
            LimitsOp::Acquire(x) => x,
            LimitsOp::Release(x) => x,
        };
        if of.key_spec() == ip.key_spec() {
            crate::addr::lemma_ip_key_injective(of, ip);
        }
    }
}

/// Who is admitted: a connection, exactly while the total is below its cap and its address
/// below the cap per address, where a cap of 0 is none. The total cap is named first.
pub proof fn law_admission_is_exact(v: LimitsView, ip: IpAddr)
    ensures
        v.rejection(ip) is None <==> (v.max_total == 0 || v.total < v.max_total) && (v.max_per_ip
            == 0 || v.count(ip) < v.max_per_ip),
        v.rejection(ip) == Some(Reject::Total) <==> v.max_total > 0 && v.total >= v.max_total,
        v.rejection(ip) == Some(Reject::PerIp) <==> !(v.max_total > 0 && v.total >= v.max_total)
            && v.max_per_ip > 0 && v.count(ip) >= v.max_per_ip,
{
}

/// When the notices are raised: with the admission that brings the use to nine tenths of a
/// cap or beyond, unless it was raised before; and what they say.
pub proof fn law_notices_are_exact(v: LimitsView, ip: IpAddr, guard: Guard)
    requires
        v.wf(),
        v.total < u32::MAX,
        v.grants(ip, guard),
    ensures
        guard.ip_spec() == ip,
        guard.total_notice_spec() is Some <==> !v.total_warned && v.max_total > 0 && 10 * (v.total
            + 1) >= 9 * v.max_total,
        guard.total_notice_spec() matches Some(u) ==> u.used == v.total + 1 && u.limit
            == v.max_total,
        guard.per_ip_notice_spec() is Some <==> !v.warned.contains(ip.key_spec()) && v.max_per_ip
            > 0 && 10 * (v.count(ip) + 1) >= 9 * v.max_per_ip,
        guard.per_ip_notice_spec() matches Some(u) ==> u.used == v.count(ip) + 1 && u.limit
            == v.max_per_ip,
{
    if v.per_ip.contains_key(ip.key_spec()) {
        lemma_slots_remove(v.per_ip, ip.key_spec());
    }
}

/// Nine tenths, exactly.
pub proof fn law_near_cap_is_nine_tenths(used: nat, cap: nat)
    ensures
        near_cap(used, cap) <==> 10 * used >= 9 * cap,
{
}

/// A limiter starts with its caps, no slot taken and nothing reported, and no operation
/// changes its caps.
pub proof fn law_limiter_starts_empty(max_total: u32, max_per_ip: u32, ip: IpAddr, op: LimitsOp)
    ensures
        ({
            let v = LimitsView::fresh(max_total, max_per_ip);
            &&& v.max_total == max_total
            &&& v.max_per_ip == max_per_ip
            &&& v.total == 0
            &&& v.count(ip) == 0
            &&& !v.total_warned
            &&& !v.has_warned(ip)
        }),
        forall|v: LimitsView| #[trigger]
            v.step(op).max_total == v.max_total && v.step(op).max_per_ip == v.max_per_ip,
{
}

/// What an admission and a release do, slot by slot.
pub proof fn law_operations_are_exact(v: LimitsView, ip: IpAddr, other: IpAddr)
    requires
        v.wf(),
        v.total < u32::MAX,
    ensures
        v.acquired(ip).total == v.total + 1,
        v.acquired(ip).count(ip) == v.count(ip) + 1,
        other != ip ==> v.acquired(ip).count(other) == v.count(other),
        v.acquired(ip).total_warned <==> v.total_warned || (v.max_total > 0 && 10 * (v.total + 1)
            >= 9 * v.max_total),
        v.acquired(ip).has_warned(ip) <==> v.has_warned(ip) || (v.max_per_ip > 0 && 10 * (v.count(
            ip,
        ) + 1) >= 9 * v.max_per_ip),
        v.count(ip) > 0 ==> {
            &&& v.released(ip).total == v.total - 1
            &&& v.released(ip).count(ip) == v.count(ip) - 1
            &&& other != ip ==> v.released(ip).count(other) == v.count(other)
            &&& v.released(ip).total_warned == v.total_warned
            &&& v.released(ip).warned == v.warned
        },
        v.count(ip) == 1 ==> !v.released(ip).per_ip.contains_key(ip.key_spec()),
        v.rejection(ip) is Some ==> v.step(LimitsOp::Acquire(ip)) == v,
        v.rejection(ip) is None ==> v.step(LimitsOp::Acquire(ip)) == v.acquired(ip),
{
    if ip.key_spec() == other.key_spec() {
        crate::addr::lemma_ip_key_injective(ip, other);
    }
    if v.per_ip.contains_key(ip.key_spec()) {
        lemma_slots_remove(v.per_ip, ip.key_spec());
    }
}

/// The notices that are due with one more connection, without a slot to carry them.
pub proof fn law_notices_due_are_exact(v: LimitsView, ip: IpAddr)
    requires
        v.wf(),
        v.total < u32::MAX,
    ensures
        v.total_notice_due() is Some <==> !v.total_warned && v.max_total > 0 && 10 * (v.total + 1)
            >= 9 * v.max_total,
        v.total_notice_due() matches Some(u) ==> u.used == v.total + 1 && u.limit == v.max_total,
        v.per_ip_notice_due(ip) is Some <==> !v.warned.contains(ip.key_spec()) && v.max_per_ip > 0
            && 10 * (v.count(ip) + 1) >= 9 * v.max_per_ip,
        v.per_ip_notice_due(ip) matches Some(u) ==> u.used == v.count(ip) + 1 && u.limit
            == v.max_per_ip,
{
    if v.per_ip.contains_key(ip.key_spec()) {
        lemma_slots_remove(v.per_ip, ip.key_spec());
    }
}

} // verus!
