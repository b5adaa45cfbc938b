//! Monotonic millisecond clock for the proxy liveness timers.
//!
//! Uses `std::time::Instant` so the idle / half-close math is immune to wall-clock jumps
//! (NTP steps, suspend/resume). All durations in oxiduct are relative, so an arbitrary
//! fixed origin is all that is needed.

use vstd::prelude::*;

verus! {

/// `std::time::Instant`: a point in time. Nothing inside it is read.
#[verifier::external_type_specification]
#[verifier::external_body]
pub struct ExInstant(std::time::Instant);

/// The whole milliseconds of a duration.
pub uninterp spec fn whole_millis(duration: core::time::Duration) -> u128;

/// `std::time::Instant::now`: the time of the call, of which nothing is said.
pub assume_specification[ std::time::Instant::now ]() -> std::time::Instant;

/// The time from one point to a later one; none, where it is not later.
pub uninterp spec fn between(
    earlier: std::time::Instant,
    later: std::time::Instant,
) -> core::time::Duration;

/// `std::time::Instant::duration_since`: the time from `earlier` to `later`.
pub assume_specification[ std::time::Instant::duration_since ](
    later: &std::time::Instant,
    earlier: std::time::Instant,
) -> (r: core::time::Duration)
    ensures
        r == between(earlier, *later),
;

/// `std::time::Duration::as_millis`: the whole milliseconds of the duration.
pub assume_specification[ core::time::Duration::as_millis ](
    duration: &core::time::Duration,
) -> (r: u128)
    ensures
        r == whole_millis(*duration),
;

/// A clock: the point in time from which it counts, and the one at which it was last read.
/// Both are private, and nothing but a call of `std::time::Instant::now` ever sets them.
pub struct Clock {
    origin: std::time::Instant,
    last: std::time::Instant,
}

impl Clock {
    /// The point in time from which the clock counts.
    pub closed spec fn origin_spec(self) -> std::time::Instant {
        self.origin
    }

    /// The point in time at which the clock was last read; its origin, before that.
    pub closed spec fn last_spec(self) -> std::time::Instant {
        self.last
    }

    /// The whole milliseconds from the origin to the last reading.
    pub open spec fn elapsed(self) -> u128 {
        whole_millis(between(self.origin_spec(), self.last_spec()))
    }

    /// What the clock showed when it was last read.
    pub open spec fn shown(self) -> u64 {
        reading(self.elapsed())
    }

    /// A clock that counts from now on.
    pub fn start() -> (r: Clock)
        ensures
            call_ensures(std::time::Instant::now, (), r.origin_spec()),
            r.last_spec() == r.origin_spec(),
    {
        let now = std::time::Instant::now();
        Clock { origin: now, last: now }
    }
}

/// `std::time::Instant::now`, called after the instants of `clock` were measured, as those
/// of every clock are. As its documentation guarantees, barring platform bugs, the result
/// is no less than any instant measured before: so from the clock's origin to it is no less
/// time than to the clock's last reading.
#[verifier::external_body]
fn now_after(clock: &Clock) -> (r: std::time::Instant)
    ensures
        call_ensures(std::time::Instant::now, (), r),
        whole_millis(between(clock.origin_spec(), clock.last_spec())) <= whole_millis(
            between(clock.origin_spec(), r),
        ),
{
    std::time::Instant::now()
}

/// What the clock shows after so many milliseconds: past the largest `u64` it starts over.
pub open spec fn reading(millis: u128) -> u64 {
    (millis % 0x1_0000_0000_0000_0000) as u64
}

/// What the clock shows after so many milliseconds: past the largest `u64` it starts over.
pub fn clock_reading(millis: u128) -> (r: u64)
    ensures
        r == reading(millis),
{
    (millis % 0x1_0000_0000_0000_0000) as u64
}

/// Milliseconds since the clock was started. Monotonic: unless the clock starts over, it
/// shows no less than when it was last read.
pub fn now_ms(clock: &mut Clock) -> (r: u64)
    ensures
        final(clock).origin_spec() == old(clock).origin_spec(),
        call_ensures(std::time::Instant::now, (), final(clock).last_spec()),
        r == final(clock).shown(),
        final(clock).elapsed() >= old(clock).elapsed(),
        final(clock).elapsed() <= u64::MAX ==> r >= old(clock).shown(),
{
    clock.last = now_after(clock);
    clock_reading(clock.last.duration_since(clock.origin).as_millis())
}

/// As long as the clock does not start over, each reading is the milliseconds since its
/// origin as they are, and no reading is smaller than an earlier one, however often the
/// clock was read in between. (`clocks` is one clock after each of its readings, of which
/// `now_ms` says that they never elapse less than the one before.)
pub proof fn law_clock_never_runs_backwards(clocks: Seq<Clock>, i: int, j: int)
    requires
        forall|k: int|
            0 < k < clocks.len() ==> (#[trigger] clocks[k]).elapsed() >= clocks[k - 1].elapsed(),
        0 <= i <= j < clocks.len(),
        clocks[j].elapsed() <= u64::MAX,
    ensures
        clocks[i].shown() == clocks[i].elapsed(),
        clocks[j].shown() == clocks[j].elapsed(),
        clocks[i].shown() <= clocks[j].shown(),
    decreases j - i,
{
    if i < j {
        assert(clocks[j].elapsed() >= clocks[j - 1].elapsed());
        law_clock_never_runs_backwards(clocks, i, j - 1);
    }
}

/// A reading differs from the milliseconds that elapsed by whole turns of the counter
/// alone, and what elapsed is counted from the origin to the last reading.
pub proof fn law_reading_is_exact(clock: Clock)
    ensures
        clock.elapsed() == whole_millis(between(clock.origin_spec(), clock.last_spec())),
        (clock.elapsed() - clock.shown()) % 0x1_0000_0000_0000_0000 == 0,
        clock.elapsed() < 0x1_0000_0000_0000_0000 ==> clock.shown() == clock.elapsed(),
{
}

} // verus!
