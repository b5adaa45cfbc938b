//! The watchdog of one TCP connection: idle timeout, half-close grace and shutdown.

use vstd::prelude::*;

use crate::metrics::CloseReason;
use crate::proxy::tcp::{Dir, End};

verus! {

/// How long the watchdog sleeps at most before it re-checks the idle / half-close
/// deadlines, in milliseconds.
pub const WATCHDOG_TICK_MS: u64 = 5_000;

/// How long it sleeps at least, to avoid a busy spin when a deadline is essentially now.
pub const WATCHDOG_FLOOR_MS: u64 = 20;

/// What wakes the watchdog.
#[derive(Clone, Copy, Debug, PartialEq, Eq, Structural)]
pub enum WatchEvent {
    /// The proxy shuts down.
    Shutdown,
    /// A direction reported its end.
    Done(Dir, End),
    /// No direction will report any more.
    ChannelClosed,
    /// The sleep ran out.
    Tick,
}

/// Enforces L3 (idle) and L4 (half-close) on one connection and forwards global shutdown.
/// Times are milliseconds of one monotonic clock.
#[derive(Clone, Copy, Debug, PartialEq, Eq, Structural)]
pub struct Watchdog {
    /// The idle timeout in seconds; 0 disables it.
    pub idle_secs: u64,
    /// The half-close grace in seconds; 0 disables it.
    pub half_close_secs: u64,
    /// The client's direction has ended.
    pub up_done: bool,
    /// The upstream's direction has ended.
    pub down_done: bool,
    /// A direction ended with an error.
    pub saw_error: bool,
    /// A direction may still report.
    pub channel_open: bool,
    /// When one direction alone was first seen to have ended.
    pub half_close_since: Option<u64>,
}

/// How many of the milliseconds from `now` to `deadline` are left.
pub open spec fn left_until(deadline: int, now: int) -> int {
    if deadline <= now {
        0
    } else {
        deadline - now
    }
}

/// The smaller of two numbers.
pub open spec fn smaller(a: int, b: int) -> int {
    if a <= b {
        a
    } else {
        b
    }
}

impl Watchdog {
    /// The watchdog of a connection whose relay begins.
    pub open spec fn fresh(idle_secs: u64, half_close_secs: u64) -> Watchdog {
        Watchdog {
            idle_secs,
            half_close_secs,
            up_done: false,
            down_done: false,
            saw_error: false,
            channel_open: true,
            half_close_since: None,
        }
    }

    /// When the connection counts as idle.
    pub open spec fn idle_deadline(self, last_activity: u64) -> int {
        last_activity + self.idle_secs * 1000
    }

    /// When the half-close grace is over, where one direction alone was seen to have ended.
    pub open spec fn half_close_deadline(self) -> int
        recommends
            self.half_close_since is Some,
    {
        self.half_close_since->0 + self.half_close_secs * 1000
    }

    /// How long to sleep: until the nearest deadline, within the two bounds.
    pub open spec fn wake(self, now: u64, last_activity: u64) -> int {
        let tick = WATCHDOG_TICK_MS as int;
        let with_idle = if self.idle_secs > 0 {
            smaller(tick, left_until(self.idle_deadline(last_activity), now as int))
        } else {
            tick
        };
        let with_half_close = if self.half_close_secs > 0 && self.half_close_since is Some {
            smaller(with_idle, left_until(self.half_close_deadline(), now as int))
        } else {
            with_idle
        };
        if with_half_close < WATCHDOG_FLOOR_MS {
            WATCHDOG_FLOOR_MS as int
        } else {
            with_half_close
        }
    }

    /// The watchdog once it has taken note of an event. A report after the channel closed
    /// counts for nothing.
    pub open spec fn noted(self, event: WatchEvent) -> Watchdog {
        match event {
            WatchEvent::Done(dir, end) if self.channel_open => Watchdog {
                up_done: self.up_done || dir == Dir::Up,
                down_done: self.down_done || dir == Dir::Down,
                saw_error: self.saw_error || end == End::Error,
                ..self
            },
            WatchEvent::ChannelClosed => Watchdog { channel_open: false, ..self },
            _ => self,
        }
    }

    /// Whether no byte moved for the idle timeout.
    pub open spec fn is_idle(self, now: u64, last_activity: u64) -> bool {
        self.idle_secs > 0 && now >= self.idle_deadline(last_activity)
    }

    /// Since when one direction alone has ended, as seen at `now`.
    pub open spec fn alone_since(self, now: u64) -> u64 {
        match self.half_close_since {
            Some(since) => since,
            None => now,
        }
    }

    /// Whether one direction has ended and the other did not follow within the grace.
    pub open spec fn is_half_closed(self, now: u64) -> bool {
        &&& self.half_close_secs > 0
        &&& self.up_done || self.down_done
        &&& now >= self.alone_since(now) + self.half_close_secs * 1000
    }

    /// Why the connection ends with this event, if it does.
    pub open spec fn verdict(self, event: WatchEvent, now: u64, last_activity: u64) -> Option<
        CloseReason,
    > {
        let w = self.noted(event);
        if event == WatchEvent::Shutdown {
            Some(CloseReason::Shutdown)
        } else if w.up_done && w.down_done {
            Some(
                if w.saw_error {
                    CloseReason::Reset
                } else {
                    CloseReason::Eof
                },
            )
        } else if w.is_idle(now, last_activity) {
            Some(CloseReason::IdleTimeout)
        } else if w.is_half_closed(now) {
            Some(CloseReason::HalfCloseTimeout)
        } else {
            None
        }
    }

    /// The watchdog after an event that does not end the connection: it remembers since
    /// when one direction alone has ended, unless there is no grace.
    pub open spec fn after(self, event: WatchEvent, now: u64) -> Watchdog {
        let w = self.noted(event);
        if w.half_close_secs > 0 && (w.up_done || w.down_done) {
            Watchdog { half_close_since: Some(w.alone_since(now)), ..w }
        } else if !w.up_done && !w.down_done {
            Watchdog { half_close_since: None, ..w }
        } else {
            w
        }
    }

    /// The watchdog of a connection whose relay begins.
    pub fn new(idle_secs: u64, half_close_secs: u64) -> (r: Watchdog)
        ensures
            r == Watchdog::fresh(idle_secs, half_close_secs),
    {
        Watchdog {
            idle_secs,
            half_close_secs,
            up_done: false,
            down_done: false,
            saw_error: false,
            channel_open: true,
            half_close_since: None,
        }
    }

    /// How many milliseconds to sleep unless an event comes first. Sleeping only as long as
    /// the nearest deadline needs keeps small timeouts accurate instead of rounding them
    /// up to a fixed tick.
    pub fn wake_ms(&self, now: u64, last_activity: u64) -> (r: u64)
        ensures
            r == self.wake(now, last_activity),
    {
        let mut wake = WATCHDOG_TICK_MS;
        if self.idle_secs > 0 {
            wake = min_left(wake, last_activity, self.idle_secs, now);
        }
        if self.half_close_secs > 0 {
            if let Some(since) = self.half_close_since {
                wake = min_left(wake, since, self.half_close_secs, now);
            }
        }
        if wake < WATCHDOG_FLOOR_MS {
            WATCHDOG_FLOOR_MS
        } else {
            wake
        }
    }

    /// Take an event in at `now`. Returns why the connection ends, if it does.
    pub fn on_event(&mut self, event: WatchEvent, now: u64, last_activity: u64) -> (r: Option<
        CloseReason,
    >)
        ensures
            r == old(self).verdict(event, now, last_activity),
            *final(self) == (if r is None {
                old(self).after(event, now)
            } else {
                old(self).noted(event)
            }),
    {
        match event {
            WatchEvent::Shutdown => {
                return Some(CloseReason::Shutdown);
            },
            WatchEvent::Done(dir, end) => {
                // Ignored once the channel has closed.
                if self.channel_open {
                    match dir {
                        Dir::Up => {
                            self.up_done = true;
                        },
                        Dir::Down => {
                            self.down_done = true;
                        },
                    }
                    if end == End::Error {
                        self.saw_error = true;
                    }
                }
            },
            WatchEvent::ChannelClosed => {
                self.channel_open = false;
            },
            WatchEvent::Tick => {},
        }
        // Both directions finished → clean EOF, or reset if either errored.
        if self.up_done && self.down_done {
            return Some(
                if self.saw_error {
                    CloseReason::Reset
                } else {
                    CloseReason::Eof
                },
            );
        }
        // L3: application-level idle timeout.
        if self.idle_secs > 0 && elapsed(last_activity, self.idle_secs, now) {
            return Some(CloseReason::IdleTimeout);
        }
        // L4: half-close grace period.
        if self.half_close_secs > 0 && (self.up_done || self.down_done) {
            let since = match self.half_close_since {
                Some(since) => since,
                None => now,
            };
            if elapsed(since, self.half_close_secs, now) {
                return Some(CloseReason::HalfCloseTimeout);
            }
            self.half_close_since = Some(since);
        } else if !self.up_done && !self.down_done {
            self.half_close_since = None;
        }
        None
    }
}

/// The smaller of `wake` and what is left at `now` of the `secs` seconds after `since`.
fn min_left(wake: u64, since: u64, secs: u64, now: u64) -> (r: u64)
    ensures
        r == smaller(wake as int, left_until(since + secs * 1000, now as int)),
{
    let deadline = since as u128 + secs as u128 * 1000;
    let now = now as u128;
    if deadline <= now {
        0
    } else if deadline - now < wake as u128 {
        (deadline - now) as u64
    } else {
        wake
    }
}

/// Whether at `now` the `secs` seconds after `since` are over.
fn elapsed(since: u64, secs: u64, now: u64) -> (r: bool)
    ensures
        r == (now >= since + secs * 1000),
{
    now as u128 >= since as u128 + secs as u128 * 1000
}

// ── Laws ─────────────────────────────────────────────────────────────────────

/// An event as the watchdog sees it: what came, when, and when a byte last moved.
pub struct Observation {
    pub event: WatchEvent,
    pub now: u64,
    pub last_activity: u64,
}

impl Watchdog {
    /// The watchdog after a history that did not end the connection.
    pub open spec fn after_all(self, seen: Seq<Observation>) -> Watchdog
        decreases seen.len(),
    {
        if seen.len() == 0 {
            self
        } else {
            self.after_all(seen.drop_last()).after(seen.last().event, seen.last().now)
        }
    }

    /// Whether the connection outlives a history.
    pub open spec fn survives(self, seen: Seq<Observation>) -> bool
        decreases seen.len(),
    {
        seen.len() == 0 || {
            &&& self.survives(seen.drop_last())
            &&& self.after_all(seen.drop_last()).verdict(
                seen.last().event,
                seen.last().now,
                seen.last().last_activity,
            ) is None
        }
    }
}

/// Whether the directions may report throughout a history.
pub open spec fn channel_stays_open(seen: Seq<Observation>) -> bool {
    forall|i: int| 0 <= i < seen.len() ==> (#[trigger] seen[i]).event != WatchEvent::ChannelClosed
}

/// The watchdog never sleeps for less than its floor or for more than its tick.
pub proof fn law_wake_is_bounded(w: Watchdog, now: u64, last_activity: u64)
    ensures
        WATCHDOG_FLOOR_MS <= w.wake(now, last_activity) <= WATCHDOG_TICK_MS,
{
}

/// The watchdog never sleeps past a deadline, unless the deadline is nearer than its floor:
/// so a deadline that lies ahead is overrun by less than the floor.
pub proof fn law_wake_meets_the_deadlines(w: Watchdog, now: u64, last_activity: u64)
    ensures
        w.idle_secs > 0 ==> {
            ||| now + w.wake(now, last_activity) <= w.idle_deadline(last_activity)
            ||| w.wake(now, last_activity) == WATCHDOG_FLOOR_MS
        },
        w.idle_secs > 0 && now < w.idle_deadline(last_activity) ==> now + w.wake(
            now,
            last_activity,
        ) < w.idle_deadline(last_activity) + WATCHDOG_FLOOR_MS,
        w.half_close_secs > 0 && w.half_close_since is Some ==> {
            ||| now + w.wake(now, last_activity) <= w.half_close_deadline()
            ||| w.wake(now, last_activity) == WATCHDOG_FLOOR_MS
        },
        w.half_close_secs > 0 && w.half_close_since is Some && now < w.half_close_deadline()
            ==> now + w.wake(now, last_activity) < w.half_close_deadline() + WATCHDOG_FLOOR_MS,
{
}

/// A timeout of 0 is disabled, and neither timeout strikes before its time.
pub proof fn law_no_timeout_before_its_time(
    w: Watchdog,
    event: WatchEvent,
    now: u64,
    last_activity: u64,
)
    ensures
        w.verdict(event, now, last_activity) == Some(CloseReason::IdleTimeout) ==> {
            &&& w.idle_secs > 0
            &&& now - last_activity >= w.idle_secs * 1000
        },
        w.verdict(event, now, last_activity) == Some(CloseReason::HalfCloseTimeout) ==> {
            &&& w.half_close_secs > 0
            &&& w.half_close_since is Some
            &&& now - w.half_close_since->0 >= w.half_close_secs * 1000
        },
{
}

/// A connection on which no byte moves for the idle timeout does not outlive the next
/// event, whatever it is.
pub proof fn law_idle_connection_ends(
    w: Watchdog,
    event: WatchEvent,
    now: u64,
    last_activity: u64,
)
    requires
        w.idle_secs > 0,
        now - last_activity >= w.idle_secs * 1000,
    ensures
        w.verdict(event, now, last_activity) is Some,
{
}

/// Whether the report of this direction's end is part of a history.
pub open spec fn reports_end(seen: Seq<Observation>, dir: Dir) -> bool {
    exists|i: int| 0 <= i < seen.len() && is_end_of((#[trigger] seen[i]).event, dir)
}

/// Whether a report of an end with an error is part of a history.
pub open spec fn reports_error(seen: Seq<Observation>) -> bool {
    exists|i: int| 0 <= i < seen.len() && is_error((#[trigger] seen[i]).event)
}

/// Whether the event reports the end of this direction.
pub open spec fn is_end_of(event: WatchEvent, dir: Dir) -> bool {
    event matches WatchEvent::Done(d, _) && d == dir
}

/// Whether the event reports an end with an error.
pub open spec fn is_error(event: WatchEvent) -> bool {
    event matches WatchEvent::Done(_, end) && end == End::Error
}

/// What the watchdog knows after a history.
proof fn lemma_watchdog_history(idle_secs: u64, half_close_secs: u64, seen: Seq<Observation>)
    requires
        channel_stays_open(seen),
    ensures
        ({
            let w = Watchdog::fresh(idle_secs, half_close_secs).after_all(seen);
            &&& w.idle_secs == idle_secs
            &&& w.half_close_secs == half_close_secs
            &&& w.channel_open
            &&& w.up_done == reports_end(seen, Dir::Up)
            &&& w.down_done == reports_end(seen, Dir::Down)
            &&& w.saw_error == reports_error(seen)
        }),
    decreases seen.len(),
{
    if seen.len() > 0 {
        let init = seen.drop_last();
        let last = seen[seen.len() - 1];
        assert(channel_stays_open(init)) by {
            assert(forall|i: int| 0 <= i < init.len() ==> #[trigger] init[i] == seen[i]);
        }
        lemma_watchdog_history(idle_secs, half_close_secs, init);
        assert(last.event != WatchEvent::ChannelClosed);
        lemma_reports_end_push(seen, Dir::Up);
        lemma_reports_end_push(seen, Dir::Down);
        lemma_reports_error_push(seen);
    }
}

proof fn lemma_reports_end_push(seen: Seq<Observation>, dir: Dir)
    requires
        seen.len() > 0,
    ensures
        reports_end(seen, dir) == (reports_end(seen.drop_last(), dir) || is_end_of(
            seen.last().event,
            dir,
        )),
{
    let init = seen.drop_last();
    if reports_end(init, dir) {
        let i = choose|i: int| 0 <= i < init.len() && is_end_of((#[trigger] init[i]).event, dir);
        assert(is_end_of(seen[i].event, dir));
    }
    if is_end_of(seen.last().event, dir) {
        assert(is_end_of(seen[seen.len() - 1].event, dir));
    } else if reports_end(seen, dir) {
        let i = choose|i: int| 0 <= i < seen.len() && is_end_of((#[trigger] seen[i]).event, dir);
        assert(is_end_of(init[i].event, dir));
    }
}

proof fn lemma_reports_error_push(seen: Seq<Observation>)
    requires
        seen.len() > 0,
    ensures
        reports_error(seen) == (reports_error(seen.drop_last()) || is_error(seen.last().event)),
{
    let init = seen.drop_last();
    if reports_error(init) {
        let i = choose|i: int| 0 <= i < init.len() && is_error((#[trigger] init[i]).event);
        assert(is_error(seen[i].event));
    }
    if is_error(seen.last().event) {
        assert(is_error(seen[seen.len() - 1].event));
    } else if reports_error(seen) {
        let i = choose|i: int| 0 <= i < seen.len() && is_error((#[trigger] seen[i]).event);
        assert(is_error(init[i].event));
    }
}

/// When the first end was reported.
spec fn first_end(seen: Seq<Observation>) -> Option<u64>
    decreases seen.len(),
{
    if seen.len() == 0 {
        None
    } else if first_end(seen.drop_last()) is Some {
        first_end(seen.drop_last())
    } else if seen.last().event is Done {
        Some(seen.last().now)
    } else {
        None
    }
}

/// The half-close grace counts from the first reported end.
proof fn lemma_grace_counts_from_first_end(
    idle_secs: u64,
    half_close_secs: u64,
    seen: Seq<Observation>,
)
    requires
        channel_stays_open(seen),
        half_close_secs > 0,
    ensures
        ({
            let w = Watchdog::fresh(idle_secs, half_close_secs).after_all(seen);
            &&& w.half_close_secs == half_close_secs
            &&& w.channel_open
            &&& w.half_close_since == first_end(seen)
            &&& (w.up_done || w.down_done) == (first_end(seen) is Some)
        }),
    decreases seen.len(),
{
    if seen.len() > 0 {
        let init = seen.drop_last();
        assert(channel_stays_open(init)) by {
            assert(forall|i: int| 0 <= i < init.len() ==> #[trigger] init[i] == seen[i]);
        }
        assert(seen[seen.len() - 1].event != WatchEvent::ChannelClosed);
        lemma_grace_counts_from_first_end(idle_secs, half_close_secs, init);
    }
}

proof fn lemma_first_end_is_first(seen: Seq<Observation>, i: int)
    requires
        in_order(seen),
        0 <= i < seen.len(),
        seen[i].event is Done,
    ensures
        first_end(seen) is Some,
        first_end(seen)->0 <= seen[i].now,
    decreases seen.len(),
{
    let init = seen.drop_last();
    assert(in_order(init)) by {
        assert(forall|k: int| 0 <= k < init.len() ==> #[trigger] init[k] == seen[k]);
    }
    if i < init.len() {
        assert(init[i] == seen[i]);
        lemma_first_end_is_first(init, i);
    } else {
        lemma_first_end_is_seen(init, seen.last().now);
        assert(seen.last() == seen[i]);
    }
}

proof fn lemma_first_end_is_seen(seen: Seq<Observation>, now: u64)
    requires
        forall|k: int| 0 <= k < seen.len() ==> (#[trigger] seen[k]).now <= now,
    ensures
        first_end(seen) is Some ==> first_end(seen)->0 <= now,
    decreases seen.len(),
{
    if seen.len() > 0 {
        let init = seen.drop_last();
        assert forall|k: int| 0 <= k < init.len() implies (#[trigger] init[k]).now <= now by {
            assert(init[k] == seen[k]);
        }
        assert(seen[seen.len() - 1].now <= now);
        lemma_first_end_is_seen(init, now);
    }
}

/// Whether the times of a history never run backwards.
pub open spec fn in_order(seen: Seq<Observation>) -> bool {
    forall|a: int, b: int|
        0 <= a <= b < seen.len() ==> (#[trigger] seen[a]).now <= (#[trigger] seen[b]).now
}

/// While a connection lives, no event comes later than a direction's end plus the
/// half-close grace: the connection would have ended. The end is one that was heard, which
/// it is unless the channel had closed before.
pub proof fn law_half_close_grace_is_enforced(
    idle_secs: u64,
    half_close_secs: u64,
    seen: Seq<Observation>,
    i: int,
)
    requires
        in_order(seen),
        Watchdog::fresh(idle_secs, half_close_secs).survives(seen),
        half_close_secs > 0,
        0 <= i < seen.len(),
        channel_stays_open(seen.take(i)),
        seen[i].event is Done,
    ensures
        seen.last().now < seen[i].now + half_close_secs * 1000,
{
    let start = Watchdog::fresh(idle_secs, half_close_secs);
    let heard = seen.take(i + 1);
    assert(channel_stays_open(heard)) by {
        assert forall|k: int| 0 <= k < heard.len() implies (#[trigger] heard[k]).event
            != WatchEvent::ChannelClosed by {
            if k < i {
                assert(heard[k] == seen.take(i)[k]);
            }
        }
    }
    assert(in_order(heard)) by {
        assert(forall|k: int| 0 <= k < heard.len() ==> #[trigger] heard[k] == seen[k]);
    }
    lemma_grace_counts_from_first_end(idle_secs, half_close_secs, heard);
    lemma_first_end_is_first(heard, i);
    lemma_grace_goes_on(start, seen, i + 1);
    lemma_survivor_is_within_grace(start.after_all(seen.drop_last()), seen.last());
}

/// Once a direction's end was heard, the start of the grace stays.
proof fn lemma_grace_goes_on(start: Watchdog, seen: Seq<Observation>, n: int)
    requires
        0 <= n <= seen.len(),
        start.after_all(seen.take(n)).half_close_secs > 0,
        start.after_all(seen.take(n)).half_close_since is Some,
        start.after_all(seen.take(n)).up_done || start.after_all(seen.take(n)).down_done,
    ensures
        start.after_all(seen).half_close_secs == start.after_all(seen.take(n)).half_close_secs,
        start.after_all(seen).half_close_since == start.after_all(seen.take(n)).half_close_since,
        start.after_all(seen).up_done || start.after_all(seen).down_done,
    decreases seen.len(),
{
    if n < seen.len() {
        assert(seen.drop_last().take(n) =~= seen.take(n));
        lemma_grace_goes_on(start, seen.drop_last(), n);
    } else {
        assert(seen.take(n) =~= seen);
    }
}

proof fn lemma_survivor_is_within_grace(w: Watchdog, o: Observation)
    requires
        w.verdict(o.event, o.now, o.last_activity) is None,
        w.after(o.event, o.now).half_close_secs > 0,
        w.after(o.event, o.now).up_done || w.after(o.event, o.now).down_done,
    ensures
        w.after(o.event, o.now).half_close_since is Some,
        o.now < w.after(o.event, o.now).half_close_since->0 + w.half_close_secs * 1000,
{
}

/// A connection whose two directions have both reported their end is closed by the later
/// report: as reset where either of them reported an error, as a clean end otherwise.
pub proof fn law_both_ends_close_the_connection(
    idle_secs: u64,
    half_close_secs: u64,
    seen: Seq<Observation>,
    last: Observation,
)
    requires
        channel_stays_open(seen.push(last)),
        last.event is Done,
        reports_end(seen.push(last), Dir::Up),
        reports_end(seen.push(last), Dir::Down),
    ensures
        Watchdog::fresh(idle_secs, half_close_secs).after_all(seen).verdict(
            last.event,
            last.now,
            last.last_activity,
        ) == Some(
            if reports_error(seen.push(last)) {
                CloseReason::Reset
            } else {
                CloseReason::Eof
            },
        ),
{
    let all = seen.push(last);
    assert(all.drop_last() =~= seen);
    lemma_watchdog_history(idle_secs, half_close_secs, all);
}

/// A watchdog begins with the timeouts it is given, with both directions open and nothing
/// seen.
pub proof fn law_watchdog_starts_with_its_timeouts(idle_secs: u64, half_close_secs: u64)
    ensures
        ({
            let w = Watchdog::fresh(idle_secs, half_close_secs);
            &&& w.idle_secs == idle_secs
            &&& w.half_close_secs == half_close_secs
            &&& !w.up_done && !w.down_done && !w.saw_error
            &&& w.channel_open
            &&& w.half_close_since is None
        }),
{
}

/// When and why a connection ends, whatever the watchdog has seen: at once on shutdown;
/// when both directions have ended; when nothing moved for the idle timeout; when one
/// direction has been over for the half-close grace; and for nothing else.
pub proof fn law_verdict_is_exact(w: Watchdog, event: WatchEvent, now: u64, last_activity: u64)
    ensures
        ({
            let up = w.up_done || (w.channel_open && is_end_of(event, Dir::Up));
            let down = w.down_done || (w.channel_open && is_end_of(event, Dir::Down));
            let error = w.saw_error || (w.channel_open && is_error(event));
            let idle = w.idle_secs > 0 && now - last_activity >= w.idle_secs * 1000;
            let overdue = w.half_close_secs > 0 && (up || down) && (w.half_close_since matches Some(
                since,
            ) && now - since >= w.half_close_secs * 1000);
            let verdict = w.verdict(event, now, last_activity);
            &&& verdict == Some(CloseReason::Shutdown) <==> event == WatchEvent::Shutdown
            &&& verdict == Some(CloseReason::Reset) <==> event != WatchEvent::Shutdown && up && down
                && error
            &&& verdict == Some(CloseReason::Eof) <==> event != WatchEvent::Shutdown && up && down
                && !error
            &&& verdict == Some(CloseReason::IdleTimeout) <==> event != WatchEvent::Shutdown && !(up
                && down) && idle
            &&& verdict == Some(CloseReason::HalfCloseTimeout) <==> event != WatchEvent::Shutdown
                && !(up && down) && !idle && overdue
            &&& verdict is None <==> event != WatchEvent::Shutdown && !(up && down) && !idle
                && !overdue
        }),
{
}

/// What the watchdog remembers after an event that did not end the connection.
pub proof fn law_memory_is_exact(w: Watchdog, event: WatchEvent, now: u64)
    ensures
        ({
            let up = w.up_done || (w.channel_open && is_end_of(event, Dir::Up));
            let down = w.down_done || (w.channel_open && is_end_of(event, Dir::Down));
            let next = w.after(event, now);
            &&& next.idle_secs == w.idle_secs
            &&& next.half_close_secs == w.half_close_secs
            &&& next.up_done == up
            &&& next.down_done == down
            &&& next.saw_error == (w.saw_error || (w.channel_open && is_error(event)))
            &&& next.channel_open == (w.channel_open && event != WatchEvent::ChannelClosed)
            &&& !up && !down ==> next.half_close_since is None
            &&& (up || down) && w.half_close_secs > 0 ==> next.half_close_since == Some(
                match w.half_close_since {
                    Some(since) => since,
                    None => now,
                },
            )
            &&& (up || down) && w.half_close_secs == 0 ==> next.half_close_since
                == w.half_close_since
        }),
{
}

/// The watchdog sleeps as long as it may: any time between the two bounds that passes no
/// deadline is no longer than the one it sleeps.
pub proof fn law_wake_is_as_late_as_can_be(
    w: Watchdog,
    now: u64,
    last_activity: u64,
    sleep: int,
)
    requires
        20 <= sleep <= 5000,
        w.idle_secs > 0 ==> now + sleep <= last_activity + w.idle_secs * 1000,
        w.half_close_secs > 0 ==> (w.half_close_since matches Some(since) ==> now + sleep <= since
            + w.half_close_secs * 1000),
    ensures
        sleep <= w.wake(now, last_activity),
{
}

/// The watchdog sleeps for twenty milliseconds at least and five seconds at most, and past
/// no deadline, unless the deadline is less than twenty milliseconds away.
pub proof fn law_wake_is_as_early_as_must_be(w: Watchdog, now: u64, last_activity: u64)
    ensures
        20 <= w.wake(now, last_activity) <= 5000,
        w.wake(now, last_activity) > 20 && w.idle_secs > 0 ==> now + w.wake(now, last_activity)
            <= last_activity + w.idle_secs * 1000,
        w.wake(now, last_activity) > 20 && w.half_close_secs > 0 ==> (
        w.half_close_since matches Some(since) ==> now + w.wake(now, last_activity) <= since
            + w.half_close_secs * 1000),
{
}

} // verus!
