//! Millisecond time keeping of the firmware: a counter advanced by the
//! timer's compare-match interrupt, and the `Instant` and `Duration` values
//! read from it.
use vstd::prelude::*;

use core::cmp::Ordering;
use vstd::std_specs::cmp::PartialOrdSpecImpl;

verus! {

/// Timer prescaler: the timer counts at 16 MHz / 1024.
pub const PRESCALER: u32 = 1024;

/// Timer counts between two compare-match interrupts.
pub const TIMER_COUNTS: u32 = 125;

/// Milliseconds that pass between two compare-match interrupts.
pub const MILLIS_INCREMENT: u32 = PRESCALER * TIMER_COUNTS / 16000;

/// The global millisecond counter.
#[derive(Debug)]
pub struct MillisCounter {
    millis: u32,
}

impl View for MillisCounter {
    type V = u32;

    closed spec fn view(&self) -> u32 {
        self.millis
    }
}

impl MillisCounter {
    /// The counter as the timer is installed: reset to zero.
    pub fn install() -> (c: Self)
        ensures
            c@ == 0,
    {
        MillisCounter { millis: 0 }
    }

    /// What the compare-match interrupt does: advance the counter by the
    /// interval between two interrupts.
    pub fn on_compare_match(&mut self)
        requires
            old(self)@ + MILLIS_INCREMENT <= u32::MAX,
        ensures
            final(self)@ == old(self)@ + MILLIS_INCREMENT,
    {
        self.millis = self.millis + MILLIS_INCREMENT;
    }

    /// Milliseconds counted since the timer was installed.
    pub fn millis(&self) -> (m: u32)
        ensures
            m == self@,
    {
        self.millis
    }
}

/// A point in time, in milliseconds since the timer was installed.
#[derive(Clone, Copy, Debug, PartialEq, Eq, Structural, Ord)]
pub struct Instant {
    millis: u32,
}

/// A span of time in milliseconds.
#[derive(Clone, Copy, Debug, PartialEq, Eq, Structural, Ord)]
pub struct Duration {
    millis: u32,
}

impl View for Instant {
    type V = u32;

    closed spec fn view(&self) -> u32 {
        self.millis
    }
}

impl View for Duration {
    type V = u32;

    closed spec fn view(&self) -> u32 {
        self.millis
    }
}

impl Instant {
    /// The current time, read from the millisecond counter.
    pub fn now(counter: &MillisCounter) -> (i: Self)
        ensures
            i@ == counter@,
    {
        Instant { millis: counter.millis() }
    }

    /// Time passed since `self`, measured on the millisecond counter.
    pub fn elapsed(&self, counter: &MillisCounter) -> (d: Duration)
        requires
            self@ <= counter@,
        ensures
            d@ == counter@ - self@,
    {
        Instant::now(counter) - *self
    }

    /// The instant at which the counter is installed.
    pub fn install() -> (i: Self)
        ensures
            i@ == 0,
    {
        Instant { millis: 0 }
    }
}

impl Duration {
    pub fn from_secs(seconds: u32) -> (d: Self)
        requires
            seconds * 1000 <= u32::MAX,
        ensures
            d@ == seconds * 1000,
    {
        Duration { millis: seconds * 1000 }
    }

    pub fn from_millis(millis: u32) -> (d: Self)
        ensures
            d@ == millis,
    {
        Duration { millis }
    }

    pub fn as_millis(&self) -> (m: u32)
        ensures
            m == self@,
    {
        self.millis
    }

    /// Whole seconds, rounded down.
    pub fn as_secs(&self) -> (s: u32)
        ensures
            s == self@ / 1000,
    {
        self.millis / 1000
    }
}

impl core::ops::Add<Duration> for Instant {
    type Output = Instant;

    fn add(self, rhs: Duration) -> (r: Instant)
        ensures
            r@ == self@ + rhs@,
    {
        Instant { millis: self.millis + rhs.millis }
    }
}

impl vstd::std_specs::ops::AddSpecImpl<Duration> for Instant {
    open spec fn obeys_add_spec() -> bool {
        false
    }

    open spec fn add_req(self, rhs: Duration) -> bool {
        self@ + rhs@ <= u32::MAX
    }

    closed spec fn add_spec(self, rhs: Duration) -> Instant {
        Instant { millis: (self.millis + rhs.millis) as u32 }
    }
}

impl core::ops::Sub for Instant {
    type Output = Duration;

    fn sub(self, rhs: Instant) -> (r: Duration)
        ensures
            r@ == self@ - rhs@,
    {
        Duration { millis: self.millis - rhs.millis }
    }
}

impl vstd::std_specs::ops::SubSpecImpl for Instant {
    open spec fn obeys_sub_spec() -> bool {
        false
    }

    open spec fn sub_req(self, rhs: Instant) -> bool {
        rhs@ <= self@
    }

    closed spec fn sub_spec(self, rhs: Instant) -> Duration {
        Duration { millis: (self.millis - rhs.millis) as u32 }
    }
}

impl core::ops::Sub<Duration> for Instant {
    type Output = Instant;

    fn sub(self, rhs: Duration) -> (r: Instant)
        ensures
            r@ == self@ - rhs@,
    {
        Instant { millis: self.millis - rhs.millis }
    }
}

impl vstd::std_specs::ops::SubSpecImpl<Duration> for Instant {
    open spec fn obeys_sub_spec() -> bool {
        false
    }

    open spec fn sub_req(self, rhs: Duration) -> bool {
        rhs@ <= self@
    }

    closed spec fn sub_spec(self, rhs: Duration) -> Instant {
        Instant { millis: (self.millis - rhs.millis) as u32 }
    }
}

/// A duration made from whole seconds reads back the same seconds and a
/// thousand times as many milliseconds; one made from milliseconds reads
/// back those milliseconds and their whole seconds.
pub proof fn lemma_duration_round_trip(seconds: u32, millis: u32)
    requires
        seconds * 1000 <= u32::MAX,
    ensures
        (seconds * 1000) as u32 / 1000 == seconds,
        millis / 1000 * 1000 <= millis < (millis / 1000 + 1) * 1000,
{
}

/// Adding a duration to an instant and subtracting it again gives the
/// instant back, and the difference of the two instants is the duration;
/// an instant plus the time elapsed since it is the current time.
pub proof fn lemma_instant_arithmetic(instant: u32, duration: u32, now: u32)
    requires
        instant + duration <= u32::MAX,
        instant <= now,
    ensures
        (instant + duration) - duration == instant,
        (instant + duration) - instant == duration,
        instant + (now - instant) == now,
{
}

/// The counter after `k` compare-match interrupts, starting from `millis`.
pub open spec fn after_interrupts(millis: int, k: nat) -> int
    decreases k,
{
    if k == 0 {
        millis
    } else {
        after_interrupts(millis, (k - 1) as nat) + MILLIS_INCREMENT
    }
}

/// The clock never runs backwards: between two readings, however many
/// compare-match interrupts come, the later reading is the earlier one plus
/// a multiple of the interrupt interval of 8 ms.
pub proof fn lemma_clock_monotonic(millis: u32, k: nat)
    ensures
        MILLIS_INCREMENT == 8,
        after_interrupts(millis as int, k) == millis + 8 * k,
        millis <= after_interrupts(millis as int, k),
        (after_interrupts(millis as int, k) - millis) % 8 == 0,
    decreases k,
{
    if k > 0 {
        lemma_clock_monotonic(millis, (k - 1) as nat);
    }
}

/// The order of instants is the order of their millisecond counts.
pub open spec fn order_of(a: u32, b: u32) -> Option<Ordering> {
    if a < b {
        Some(Ordering::Less)
    } else if a == b {
        Some(Ordering::Equal)
    } else {
        Some(Ordering::Greater)
    }
}

impl PartialOrd for Instant {
    fn partial_cmp(&self, other: &Instant) -> (r: Option<Ordering>)
        ensures
            r == order_of(self@, other@),
    {
        if self.millis < other.millis {
            Some(Ordering::Less)
        } else if self.millis == other.millis {
            Some(Ordering::Equal)
        } else {
            Some(Ordering::Greater)
        }
    }
}

impl PartialOrdSpecImpl for Instant {
    open spec fn obeys_partial_cmp_spec() -> bool {
        true
    }

    open spec fn partial_cmp_spec(&self, other: &Instant) -> Option<Ordering> {
        order_of(self@, other@)
    }
}

impl PartialOrd for Duration {
    fn partial_cmp(&self, other: &Duration) -> (r: Option<Ordering>)
        ensures
            r == order_of(self@, other@),
    {
        if self.millis < other.millis {
            Some(Ordering::Less)
        } else if self.millis == other.millis {
            Some(Ordering::Equal)
        } else {
            Some(Ordering::Greater)
        }
    }
}

impl PartialOrdSpecImpl for Duration {
    open spec fn obeys_partial_cmp_spec() -> bool {
        true
    }

    open spec fn partial_cmp_spec(&self, other: &Duration) -> Option<Ordering> {
        order_of(self@, other@)
    }
}

/// Durations compare, and are equal, as their millisecond counts do; so do
/// instants.
pub proof fn lemma_order_follows_millis(a: Duration, b: Duration, s: Instant, t: Instant)
    ensures
        (order_of(a@, b@) matches Some(Ordering::Less | Ordering::Equal)) <==> a@ <= b@,
        (order_of(a@, b@) == Some(Ordering::Less)) <==> a@ < b@,
        (a == b) <==> a@ == b@,
        (order_of(s@, t@) matches Some(Ordering::Less | Ordering::Equal)) <==> s@ <= t@,
        (order_of(s@, t@) == Some(Ordering::Less)) <==> s@ < t@,
        (s == t) <==> s@ == t@,
{
}

} // verus!
