//! Spans of time, points in time, and the worker's timing arithmetic.

use vstd::prelude::*;

verus! {

/// The largest span a `Duration` holds, in nanoseconds: `u64::MAX` seconds and
/// 999 999 999 nanoseconds, the range of `std::time::Duration`.
pub open spec fn max_duration_nanos() -> nat {
    0xffff_ffff_ffff_ffff * 1_000_000_000 + 999_999_999
}

/// Nanoseconds per unit.
pub open spec fn nanos_per_second() -> nat { 1_000_000_000 }

/// A span of time with nanosecond precision and the range of `std::time::Duration`.
#[derive(Clone, Copy, Debug, PartialEq, Eq)]
pub struct Duration {
    nanos: u128,
}

impl View for Duration {
    type V = nat;

    closed spec fn view(&self) -> nat {
        self.nanos as nat
    }
}

impl Duration {
    #[verifier::type_invariant]
    spec fn inv(self) -> bool {
        self.nanos <= 0xffff_ffff_ffff_ffff * 1_000_000_000 + 999_999_999
    }

    /// The empty span.
    pub fn zero() -> (d: Duration)
        ensures
            d@ == 0,
    {
        Duration { nanos: 0 }
    }

    /// `secs` whole seconds and `nanos` further nanoseconds, which may exceed a second.
    pub fn new(secs: u64, nanos: u32) -> (d: Duration)
        requires
            secs as nat * 1_000_000_000 + nanos as nat <= max_duration_nanos(),
        ensures
            d@ == secs as nat * 1_000_000_000 + nanos as nat,
    {
        Duration { nanos: (secs as u128) * 1_000_000_000 + (nanos as u128) }
    }

    /// A span of whole seconds.
    pub fn from_secs(secs: u64) -> (d: Duration)
        ensures
            d@ == secs as nat * 1_000_000_000,
    {
        Duration { nanos: (secs as u128) * 1_000_000_000 }
    }

    /// A span of whole milliseconds.
    pub fn from_millis(millis: u64) -> (d: Duration)
        ensures
            d@ == millis as nat * 1_000_000,
    {
        Duration { nanos: (millis as u128) * 1_000_000 }
    }

    /// A span of whole microseconds.
    pub fn from_micros(micros: u64) -> (d: Duration)
        ensures
            d@ == micros as nat * 1_000,
    {
        Duration { nanos: (micros as u128) * 1_000 }
    }

    /// A span of nanoseconds.
    pub fn from_nanos(nanos: u64) -> (d: Duration)
        ensures
            d@ == nanos as nat,
    {
        Duration { nanos: nanos as u128 }
    }

    /// A span of nanoseconds, capped at the largest duration.
    pub fn from_nanos_saturating(nanos: u128) -> (d: Duration)
        ensures
            d@ == if nanos <= max_duration_nanos() { nanos as nat } else { max_duration_nanos() },
    {
        let limit: u128 = 0xffff_ffff_ffff_ffff * 1_000_000_000 + 999_999_999;
        if nanos <= limit {
            Duration { nanos }
        } else {
            Duration { nanos: limit }
        }
    }

    /// Whether the span is empty.
    pub fn is_zero(&self) -> (b: bool)
        ensures
            b == (self@ == 0),
    {
        self.nanos == 0
    }

    /// Whole milliseconds, rounded down.
    pub fn as_millis(&self) -> (m: u128)
        ensures
            m as nat == self@ / 1_000_000,
    {
        self.nanos / 1_000_000
    }

    /// Whole microseconds, rounded down.
    pub fn as_micros(&self) -> (m: u128)
        ensures
            m as nat == self@ / 1_000,
    {
        self.nanos / 1_000
    }

    /// The span in nanoseconds.
    pub fn as_nanos(&self) -> (n: u128)
        ensures
            n as nat == self@,
    {
        self.nanos
    }

    /// Whole seconds, rounded down.
    pub fn as_secs(&self) -> (s: u64)
        ensures
            s as nat == self@ / 1_000_000_000,
    {
        proof {
            use_type_invariant(self);
        }
        (self.nanos / 1_000_000_000) as u64
    }

    /// The nanoseconds beyond the whole seconds.
    pub fn subsec_nanos(&self) -> (n: u32)
        ensures
            n as nat == self@ % 1_000_000_000,
    {
        (self.nanos % 1_000_000_000) as u32
    }

    /// Whether `self` is no longer than `other`.
    pub fn le(&self, other: &Duration) -> (b: bool)
        ensures
            b == (self@ <= other@),
    {
        self.nanos <= other.nanos
    }

    /// Whether `self` is shorter than `other`.
    pub fn lt(&self, other: &Duration) -> (b: bool)
        ensures
            b == (self@ < other@),
    {
        self.nanos < other.nanos
    }

    /// The shorter of two spans.
    pub fn min(self, other: Duration) -> (d: Duration)
        ensures
            d@ == if self@ <= other@ { self@ } else { other@ },
    {
        if self.nanos <= other.nanos { self } else { other }
    }

    /// `self` times `factor`, or the largest duration where that exceeds the range.
    pub fn saturating_mul(self, factor: u32) -> (d: Duration)
        ensures
            d@ == if self@ * (factor as nat) <= max_duration_nanos() {
                self@ * (factor as nat)
            } else {
                max_duration_nanos()
            },
    {
        proof {
            use_type_invariant(self);
            assert(self.nanos as nat * factor as nat <= 0xffff_ffff_ffff_ffff_ffff_ffff_ffff_ffff * 0xffff_ffff) by (nonlinear_arith)
                requires self.nanos <= 0xffff_ffff_ffff_ffff * 1_000_000_000 + 999_999_999,
                    factor <= 0xffff_ffff;
        }
        let limit: u128 = 0xffff_ffff_ffff_ffff * 1_000_000_000 + 999_999_999;
        if factor == 0 {
            return Duration { nanos: 0 };
        }
        if self.nanos > limit / (factor as u128) {
            proof {
                assert(self.nanos as nat * factor as nat > limit) by (nonlinear_arith)
                    requires self.nanos > limit / (factor as u128), factor > 0;
            }
            Duration { nanos: limit }
        } else {
            proof {
                assert(self.nanos as nat * factor as nat <= limit) by (nonlinear_arith)
                    requires self.nanos <= limit / (factor as u128), factor > 0;
            }
            Duration { nanos: self.nanos * (factor as u128) }
        }
    }
}


/// The earliest instant `chrono::DateTime<Utc>` represents, in microseconds since the
/// Unix epoch: the start of January 1 of year -262143.
pub open spec fn min_timestamp_micros() -> int { -8_334_601_228_800_000_000 }

/// The latest instant `chrono::DateTime<Utc>` represents, in whole microseconds since
/// the Unix epoch: the last microsecond of December 31 of year 262142.
pub open spec fn max_timestamp_micros() -> int { 8_210_266_876_799_999_999 }

/// Whether a count of microseconds since the epoch names an instant of the calendar range.
pub open spec fn valid_timestamp_micros(micros: int) -> bool {
    min_timestamp_micros() <= micros <= max_timestamp_micros()
}

/// Trusted: `chrono::DateTime::<Utc>::from_timestamp_micros`, read back with
/// `timestamp_micros`. The source splits the count into whole seconds and a sub-second
/// part and fails exactly when the day falls outside the calendar range
/// (`NaiveDate::MIN` to `NaiveDate::MAX`); a value it accepts reads back unchanged.
#[verifier::external_body]
fn chrono_timestamp_from_micros(micros: i64) -> (r: Option<i64>)
    ensures
        r is Some <==> valid_timestamp_micros(micros as int),
        r matches Some(v) ==> v == micros,
{
    match chrono::DateTime::<chrono::Utc>::from_timestamp_micros(micros) {
        Some(instant) => Some(instant.timestamp_micros()),
        None => None,
    }
}

/// A point in time with nanosecond precision, within the calendar range of
/// `chrono::DateTime<Utc>`: whole microseconds since the epoch and the nanoseconds beyond.
#[derive(Clone, Copy, Debug, PartialEq, Eq, Structural)]
pub struct Timestamp {
    micros: i64,
    nanos: u16,
}

impl View for Timestamp {
    type V = int;

    /// Whole microseconds since the epoch, rounded down, as `timestamp_micros` reads them.
    closed spec fn view(&self) -> int {
        self.micros as int
    }
}

impl Timestamp {
    #[verifier::type_invariant]
    spec fn inv(self) -> bool {
        valid_timestamp_micros(self.micros as int) && self.nanos < 1000
    }

    /// Nanoseconds since the epoch.
    pub closed spec fn instant_nanos(&self) -> int {
        self.micros as int * 1000 + self.nanos as int
    }

    /// Whether the instant falls on a whole microsecond: no nanoseconds below it.
    pub open spec fn on_whole_micro(&self) -> bool {
        self.instant_nanos() == self@ * 1000
    }

    /// The instant `micros` microseconds after the epoch, where the calendar holds it.
    pub fn checked_from_micros(micros: i64) -> (r: Option<Timestamp>)
        ensures
            r is Some <==> valid_timestamp_micros(micros as int),
            r matches Some(t) ==> t@ == micros as int && t.instant_nanos() == micros as int * 1000,
    {
        match chrono_timestamp_from_micros(micros) {
            Some(v) => Some(Timestamp { micros: v, nanos: 0 }),
            None => None,
        }
    }

    /// The instant `micros` microseconds and `nanos` nanoseconds after the epoch, where the
    /// calendar holds it and `nanos` is less than a microsecond.
    pub fn checked_from_micros_nanos(micros: i64, nanos: u32) -> (r: Option<Timestamp>)
        ensures
            r is Some <==> valid_timestamp_micros(micros as int) && nanos < 1000,
            r matches Some(t) ==> t@ == micros as int && t.instant_nanos() == micros as int * 1000 + nanos as int,
    {
        if nanos >= 1000 {
            return None;
        }
        match chrono_timestamp_from_micros(micros) {
            Some(v) => Some(Timestamp { micros: v, nanos: nanos as u16 }),
            None => None,
        }
    }

    /// The Unix epoch.
    pub fn epoch() -> (t: Timestamp)
        ensures
            t@ == 0,
            t.instant_nanos() == 0,
    {
        Timestamp { micros: 0, nanos: 0 }
    }

    /// Microseconds since the epoch, rounded down.
    pub fn timestamp_micros(&self) -> (m: i64)
        ensures
            m as int == self@,
            valid_timestamp_micros(m as int),
    {
        proof {
            use_type_invariant(self);
        }
        self.micros
    }

    /// The nanoseconds beyond the whole microseconds.
    pub fn sub_micro_nanos(&self) -> (n: u32)
        ensures
            n < 1000,
            self.instant_nanos() == self@ * 1000 + n as int,
    {
        proof {
            use_type_invariant(self);
        }
        self.nanos as u32
    }

    /// Whether `self` is strictly later than `other`.
    pub fn is_after(&self, other: &Timestamp) -> (b: bool)
        ensures
            b == (self.instant_nanos() > other.instant_nanos()),
    {
        proof {
            use_type_invariant(self);
            use_type_invariant(other);
        }
        self.micros > other.micros || (self.micros == other.micros && self.nanos > other.nanos)
    }
}

/// Whether an optional instant, when there is one, falls on a whole microsecond.
pub open spec fn optional_on_whole_micro(t: Option<Timestamp>) -> bool {
    match t {
        Some(t) => t.on_whole_micro(),
        None => true,
    }
}

/// The span from `now` until `schedule_at`, both in nanoseconds since the epoch, when that
/// lies ahead, capped at `poll_delay`; `poll_delay` itself otherwise.
pub open spec fn sleep_duration_spec(now: int, poll_delay: nat, next_schedule_at: Option<int>) -> nat {
    match next_schedule_at {
        Some(at) if at > now => {
            let due_in = (at - now) as nat;
            if due_in <= poll_delay { due_in } else { poll_delay }
        },
        _ => poll_delay,
    }
}

/// How long an idle worker sleeps before polling again.
pub fn sleep_duration(now: Timestamp, poll_delay: Duration, next_schedule_at: Option<Timestamp>) -> (d: Duration)
    ensures
        d@ == sleep_duration_spec(
            now.instant_nanos(),
            poll_delay@,
            match next_schedule_at { Some(t) => Some(t.instant_nanos()), None => None },
        ),
{
    match next_schedule_at {
        Some(schedule_at) => {
            if schedule_at.is_after(&now) {
                let at_micros = schedule_at.timestamp_micros();
                let at_nanos = schedule_at.sub_micro_nanos();
                let from_micros = now.timestamp_micros();
                let from_nanos = now.sub_micro_nanos();
                let span: i128 = ((at_micros as i128) - (from_micros as i128)) * 1000
                    + (at_nanos as i128) - (from_nanos as i128);
                let due_in = Duration::from_nanos_saturating(span as u128);
                due_in.min(poll_delay)
            } else {
                poll_delay
            }
        },
        None => poll_delay,
    }
}

/// The next polling delay after an idle poll: doubled, but never beyond `max`.
pub fn next_poll_delay(current: Duration, max: Duration) -> (d: Duration)
    ensures
        d@ == if current@ * 2 <= max_duration_nanos() && current@ * 2 <= max@ {
            current@ * 2
        } else if current@ * 2 <= max_duration_nanos() {
            max@
        } else if max_duration_nanos() <= max@ {
            max_duration_nanos()
        } else {
            max@
        },
        d@ <= max@,
        current@ <= max@ ==> current@ <= d@,
{
    proof {
        use_type_invariant(&current);
        use_type_invariant(&max);
    }
    current.saturating_mul(2).min(max)
}

/// A duration in whole microseconds, capped at `i64::MAX`.
pub fn duration_micros(duration: Duration) -> (m: i64)
    ensures
        m >= 0,
        m as int == if duration@ / 1_000 <= i64::MAX { (duration@ / 1_000) as int } else { i64::MAX as int },
{
    let micros = duration.as_micros();
    if micros <= 0x7fff_ffff_ffff_ffff {
        micros as i64
    } else {
        0x7fff_ffff_ffff_ffff
    }
}

/// A reading of a monotonic clock, in nanoseconds since an arbitrary origin.
#[derive(Clone, Copy, Debug, PartialEq, Eq, Structural)]
pub struct Instant {
    pub nanos: u128,
}

impl Instant {
    /// `self` advanced by `duration`, or nothing where that exceeds the clock's range.
    pub fn checked_add(&self, duration: Duration) -> (r: Option<Instant>)
        ensures
            r == if self.nanos + duration@ <= u128::MAX {
                Some(Instant { nanos: (self.nanos + duration@) as u128 })
            } else {
                None
            },
    {
        let d = duration.as_nanos();
        if d <= u128::MAX - self.nanos {
            Some(Instant { nanos: self.nanos + d })
        } else {
            None
        }
    }
}

/// When a runtime backoff that starts at `now` ends; `now` itself where the clock cannot
/// represent the end.
pub fn runtime_backoff_deadline(now: Instant, duration: Duration) -> (deadline: Instant)
    ensures
        deadline == if now.nanos + duration@ <= u128::MAX {
            Instant { nanos: (now.nanos + duration@) as u128 }
        } else {
            now
        },
{
    match now.checked_add(duration) {
        Some(deadline) => deadline,
        None => now,
    }
}

/// Whether a runtime backoff is over at `now`; no backoff is always over.
pub fn runtime_backoff_ready(now: Instant, deadline: Option<Instant>) -> (ready: bool)
    ensures
        ready == match deadline { Some(d) => now.nanos >= d.nanos, None => true },
{
    match deadline {
        Some(deadline) => now.nanos >= deadline.nanos,
        None => true,
    }
}

/// How long a runtime backoff still lasts at `now`; nothing once it is over.
pub fn runtime_backoff_remaining(now: Instant, deadline: Option<Instant>) -> (remaining: Duration)
    ensures
        remaining@ == match deadline {
            Some(d) => if d.nanos > now.nanos {
                if d.nanos - now.nanos <= max_duration_nanos() { (d.nanos - now.nanos) as nat } else { max_duration_nanos() }
            } else {
                0
            },
            None => 0,
        },
{
    match deadline {
        Some(deadline) => {
            if deadline.nanos > now.nanos {
                Duration::from_nanos_saturating(deadline.nanos - now.nanos)
            } else {
                Duration::zero()
            }
        },
        None => Duration::zero(),
    }
}

} // verus!
