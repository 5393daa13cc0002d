//! Durations and points in time, both counted in nanoseconds within the
//! range of a signed 120-bit integer.

use vstd::prelude::*;
use vstd::arithmetic::div_mod::lemma_div_denominator;
use vstd::arithmetic::div_mod::lemma_div_multiples_vanish;

verus! {

/// The smallest number of nanoseconds a [`Duration`] can hold: `-2^119`.
pub open spec fn min_nanos() -> int {
    -664613997892457936451903530140172288
}

/// The largest number of nanoseconds a [`Duration`] can hold: `2^119 - 1`.
pub open spec fn max_nanos() -> int {
    664613997892457936451903530140172287
}

/// Clamps `n` into `[min_nanos(), max_nanos()]`.
pub open spec fn saturate(n: int) -> int {
    if n < min_nanos() {
        min_nanos()
    } else if n > max_nanos() {
        max_nanos()
    } else {
        n
    }
}

/// Division rounding toward zero, as integer division does in Rust.
pub open spec fn trunc_div(a: int, d: int) -> int {
    if a >= 0 {
        a / d
    } else {
        -((-a) / d)
    }
}

/// Nanoseconds per unit.
pub open spec fn nanos_per_micro() -> int { 1_000 }
pub open spec fn nanos_per_milli() -> int { 1_000_000 }
pub open spec fn nanos_per_sec() -> int { 1_000_000_000 }
pub open spec fn nanos_per_min() -> int { 60_000_000_000 }
pub open spec fn nanos_per_hour() -> int { 3_600_000_000_000 }
pub open spec fn nanos_per_day() -> int { 86_400_000_000_000 }
pub open spec fn nanos_per_week() -> int { 604_800_000_000_000 }

/// Whether `n` fits into an `i128`.
pub open spec fn fits_i128(n: int) -> bool {
    i128::MIN <= n <= i128::MAX
}

/// Rounding toward zero twice is rounding toward zero once by the product.
proof fn lemma_trunc_div_twice(a: int, b: int, c: int)
    requires
        0 < b,
        0 < c,
    ensures
        trunc_div(trunc_div(a, b), c) == trunc_div(a, b * c),
        b * c > 0,
{
    lemma_div_denominator(if a >= 0 { a } else { -a }, b, c);
    assert(b * c > 0) by (nonlinear_arith)
        requires
            0 < b,
            0 < c,
    ;
    if a >= 0 {
        assert(a / b >= 0);
    } else {
        assert((-a) / b >= 0);
        if (-a) / b == 0 {
            assert(-((-a) / b) == 0);
        }
    }
}

/// Multiplying by `k` and then rounding the division by `k` gives back `n`.
proof fn lemma_trunc_div_mul(n: int, k: int)
    requires
        0 < k,
    ensures
        trunc_div(n * k, k) == n,
{
    if n >= 0 {
        assert(n * k >= 0) by (nonlinear_arith)
            requires
                n >= 0,
                k > 0,
        ;
        lemma_div_multiples_vanish(n, k);
        assert(k * n == n * k) by (nonlinear_arith);
    } else {
        assert(n * k < 0) by (nonlinear_arith)
            requires
                n < 0,
                k > 0,
        ;
        lemma_div_multiples_vanish(-n, k);
        assert(k * (-n) == -(n * k)) by (nonlinear_arith);
    }
}

/// Returns the smaller of `a` and `b`.
pub fn const_min(a: i128, b: i128) -> (r: i128)
    ensures
        r == (if a < b { a } else { b }),
{
    if a < b {
        a
    } else {
        b
    }
}

/// Returns the larger of `a` and `b`.
pub fn const_max(a: i128, b: i128) -> (r: i128)
    ensures
        r == (if a > b { a } else { b }),
{
    if a > b {
        a
    } else {
        b
    }
}

/// A duration of time, measured in nanoseconds. **Maybe negative.**
///
/// It holds a signed 120-bit count: results beyond the boundary saturate
/// at [`Duration::min_value`] and [`Duration::max_value`].
#[derive(Copy, Clone, Debug, Hash, PartialEq, Eq, PartialOrd, Ord, Structural)]
pub struct Duration(i128);

impl View for Duration {
    type V = int;

    closed spec fn view(&self) -> int {
        self.0 as int
    }
}

impl Duration {
    #[verifier::type_invariant]
    spec fn in_range(self) -> bool {
        min_nanos() <= self.0 <= max_nanos()
    }

    /// The most negative duration, `-2^119` nanoseconds.
    pub fn min_value() -> (r: Duration)
        ensures
            r@ == min_nanos(),
    {
        Duration(-664613997892457936451903530140172288i128)
    }

    /// The empty duration.
    pub fn zero() -> (r: Duration)
        ensures
            r@ == 0,
    {
        Duration(0i128)
    }

    /// The largest duration, `2^119 - 1` nanoseconds.
    pub fn max_value() -> (r: Duration)
        ensures
            r@ == max_nanos(),
    {
        Duration(664613997892457936451903530140172287i128)
    }

    /// Builds a duration from a count that is already in range.
    fn new_in_range(nanos: i128) -> (r: Duration)
        requires
            min_nanos() <= nanos <= max_nanos(),
        ensures
            r@ == nanos,
    {
        Duration(nanos)
    }

    /// The number of whole nanoseconds.
    pub fn as_nanos(self) -> (r: i128)
        ensures
            r == self@,
            min_nanos() <= r <= max_nanos(),
    {
        proof {
            use_type_invariant(&self);
        }
        self.0
    }

    /// The number of whole microseconds, rounded toward zero.
    pub fn as_micros(self) -> (r: i128)
        ensures
            r == trunc_div(self@, nanos_per_micro()),
    {
        self.as_nanos() / 1_000
    }

    /// The number of whole milliseconds, rounded toward zero.
    pub fn as_millis(self) -> (r: i128)
        ensures
            r == trunc_div(self@, nanos_per_milli()),
    {
        proof {
            lemma_trunc_div_twice(self@, 1_000, 1_000);
        }
        self.as_micros() / 1_000
    }

    /// The number of whole seconds, rounded toward zero.
    pub fn as_secs(self) -> (r: i128)
        ensures
            r == trunc_div(self@, nanos_per_sec()),
    {
        proof {
            lemma_trunc_div_twice(self@, 1_000_000, 1_000);
        }
        self.as_millis() / 1_000
    }

    /// The number of whole minutes, rounded toward zero.
    pub fn as_mins(self) -> (r: i128)
        ensures
            r == trunc_div(self@, nanos_per_min()),
    {
        proof {
            lemma_trunc_div_twice(self@, 1_000_000_000, 60);
        }
        self.as_secs() / 60
    }

    /// The number of whole hours, rounded toward zero.
    pub fn as_hours(self) -> (r: i128)
        ensures
            r == trunc_div(self@, nanos_per_hour()),
    {
        proof {
            lemma_trunc_div_twice(self@, 60_000_000_000, 60);
        }
        self.as_mins() / 60
    }

    /// The number of whole days, rounded toward zero.
    pub fn as_days(self) -> (r: i128)
        ensures
            r == trunc_div(self@, nanos_per_day()),
    {
        proof {
            lemma_trunc_div_twice(self@, 3_600_000_000_000, 24);
        }
        self.as_hours() / 24
    }

    /// The number of whole weeks, rounded toward zero.
    pub fn as_weeks(self) -> (r: i128)
        ensures
            r == trunc_div(self@, nanos_per_week()),
    {
        proof {
            lemma_trunc_div_twice(self@, 86_400_000_000_000, 7);
        }
        self.as_days() / 7
    }

    /// A duration of `nanos` nanoseconds, saturating at the boundaries.
    pub fn from_nanos(nanos: i128) -> (r: Duration)
        ensures
            r@ == saturate(nanos as int),
    {
        if nanos < -664613997892457936451903530140172288i128 {
            Duration::min_value()
        } else if nanos > 664613997892457936451903530140172287i128 {
            Duration::max_value()
        } else {
            Duration(nanos)
        }
    }

    /// A duration of `count` units of `factor` nanoseconds each, saturating
    /// at the boundaries; `limit` is the count beyond which the product is
    /// out of range whatever its sign.
    fn scaled(count: i128, factor: i128, limit: i128) -> (r: Duration)
        requires
            0 < factor <= 1_000_000_000_000_000,
            limit == 664613997892457936451903530140172288int / (factor as int) + 1,
        ensures
            r@ == saturate(count * factor),
    {
        if count > limit {
            assert(count * factor > max_nanos()) by (nonlinear_arith)
                requires
                    0 < factor,
                    count > limit,
                    limit == 664613997892457936451903530140172288int / (factor as int) + 1,
            ;
            Duration::max_value()
        } else if count < -limit {
            assert(count * factor < min_nanos()) by (nonlinear_arith)
                requires
                    0 < factor,
                    count < -limit,
                    limit == 664613997892457936451903530140172288int / (factor as int) + 1,
            ;
            Duration::min_value()
        } else {
            assert(fits_i128(count * factor)) by (nonlinear_arith)
                requires
                    0 < factor <= 1_000_000_000_000_000,
                    -limit <= count <= limit,
                    limit == 664613997892457936451903530140172288int / (factor as int) + 1,
            ;
            Self::from_nanos(count * factor)
        }
    }

    /// A duration of `micros` microseconds, saturating at the boundaries.
    pub fn from_micros(micros: i128) -> (r: Duration)
        ensures
            r@ == saturate(micros * nanos_per_micro()),
    {
        Self::scaled(micros, 1000, 664613997892457936451903530140173)
    }

    /// A duration of `millis` milliseconds, saturating at the boundaries.
    pub fn from_millis(millis: i128) -> (r: Duration)
        ensures
            r@ == saturate(millis * nanos_per_milli()),
    {
        Self::scaled(millis, 1000000, 664613997892457936451903530141)
    }

    /// A duration of `secs` seconds, saturating at the boundaries.
    pub fn from_secs(secs: i128) -> (r: Duration)
        ensures
            r@ == saturate(secs * nanos_per_sec()),
    {
        Self::scaled(secs, 1000000000, 664613997892457936451903531)
    }

    /// A duration of `mins` minutes, saturating at the boundaries.
    pub fn from_mins(mins: i128) -> (r: Duration)
        ensures
            r@ == saturate(mins * nanos_per_min()),
    {
        Self::scaled(mins, 60000000000, 11076899964874298940865059)
    }

    /// A duration of `hours` hours, saturating at the boundaries.
    pub fn from_hours(hours: i128) -> (r: Duration)
        ensures
            r@ == saturate(hours * nanos_per_hour()),
    {
        Self::scaled(hours, 3600000000000, 184614999414571649014418)
    }

    /// A duration of `days` days, saturating at the boundaries.
    pub fn from_days(days: i128) -> (r: Duration)
        ensures
            r@ == saturate(days * nanos_per_day()),
    {
        Self::scaled(days, 86400000000000, 7692291642273818708935)
    }

    /// A duration of `weeks` weeks, saturating at the boundaries.
    pub fn from_weeks(weeks: i128) -> (r: Duration)
        ensures
            r@ == saturate(weeks * nanos_per_week()),
    {
        Self::scaled(weeks, 604800000000000, 1098898806039116958420)
    }

    /// The sum of two durations, saturating at the boundaries.
    pub fn const_add(self, other: Duration) -> (r: Duration)
        ensures
            r@ == saturate(self@ + other@),
    {
        let a = self.as_nanos();
        let b = other.as_nanos();
        Self::new_in_range(const_min(const_max(a + b, -664613997892457936451903530140172288i128), 664613997892457936451903530140172287i128))
    }

    /// The difference of two durations, saturating at the boundaries.
    pub fn const_sub(self, other: Duration) -> (r: Duration)
        ensures
            r@ == saturate(self@ - other@),
    {
        let a = self.as_nanos();
        let b = other.as_nanos();
        Self::new_in_range(const_max(const_min(a - b, 664613997892457936451903530140172287i128), -664613997892457936451903530140172288i128))
    }

    /// A duration of `nanos` nanoseconds, as a standard duration reports
    /// them, saturating at the upper boundary.
    pub fn from_unsigned_nanos(nanos: u128) -> (r: Duration)
        ensures
            r@ == saturate(nanos as int),
    {
        if nanos > 664613997892457936451903530140172287u128 {
            Duration::max_value()
        } else {
            Duration(nanos as i128)
        }
    }
}

/// Every duration lies within `[min_nanos(), max_nanos()]`, and reading its
/// nanoseconds and building a duration from them gives back the same value.
pub proof fn law_duration_nanos_roundtrip(n: int)
    requires
        min_nanos() <= n <= max_nanos(),
    ensures
        saturate(n) == n,
{
}

/// Building a duration from a whole number of units and reading it back in
/// the same unit gives the number back, when the duration does not saturate.
pub proof fn law_duration_unit_roundtrip(n: int, k: int)
    requires
        0 < k,
        min_nanos() <= n * k <= max_nanos(),
    ensures
        trunc_div(saturate(n * k), k) == n,
{
    lemma_trunc_div_mul(n, k);
}

/// Adding durations is commutative and has the empty duration as identity;
/// subtracting a duration from itself gives the empty duration.
pub proof fn law_duration_add_sub(a: int, b: int)
    requires
        min_nanos() <= a <= max_nanos(),
        min_nanos() <= b <= max_nanos(),
    ensures
        saturate(a + b) == saturate(b + a),
        saturate(a + 0) == a,
        saturate(a - a) == 0,
{
}

/// Adding and then subtracting the same duration gives back the original,
/// as long as the sum does not saturate.
pub proof fn law_duration_add_then_sub(a: int, b: int)
    requires
        min_nanos() <= a <= max_nanos(),
        min_nanos() <= b <= max_nanos(),
        min_nanos() <= a + b <= max_nanos(),
    ensures
        saturate(saturate(a + b) - b) == a,
{
}

/// Represents a particular moment in time: the number of nanoseconds after
/// January 1st, 1970 (UNIX epoch), as a [`Duration`].
#[derive(Copy, Clone, Debug, PartialEq, Eq, Hash, PartialOrd, Ord, Structural)]
pub struct DateTime(Duration);

impl View for DateTime {
    type V = int;

    closed spec fn view(&self) -> int {
        self.0@
    }
}

/// A reading of the system clock.
#[verifier::external_type_specification]
#[verifier::external_body]
pub struct ExSystemTime(std::time::SystemTime);

/// The error of a clock reading taken before the moment it is measured
/// from.
#[verifier::external_type_specification]
#[verifier::external_body]
pub struct ExSystemTimeError(std::time::SystemTimeError);

/// The current reading of the system clock.
///
/// Calls `std::time::SystemTime::now`; nothing is claimed of the result,
/// which depends on the machine's clock.
#[verifier::external_body]
fn clock_now() -> (r: std::time::SystemTime) {
    std::time::SystemTime::now()
}

/// The time from the UNIX epoch to `t`, or, when `t` is before the epoch,
/// an error that holds the time from `t` to the epoch.
///
/// Calls `std::time::SystemTime::duration_since` with the UNIX epoch;
/// nothing is claimed of the result, since the clock reading is opaque.
#[verifier::external_body]
fn time_since_epoch(t: &std::time::SystemTime) -> (r: Result<core::time::Duration, std::time::SystemTimeError>) {
    t.duration_since(std::time::SystemTime::UNIX_EPOCH)
}

/// The time from the clock reading to the moment it was measured from.
///
/// Calls `std::time::SystemTimeError::duration`; nothing is claimed of the
/// result, since the error is opaque.
#[verifier::external_body]
fn time_before(e: &std::time::SystemTimeError) -> (r: core::time::Duration) {
    e.duration()
}

/// The total number of nanoseconds in `d`.
///
/// Calls `core::time::Duration::as_nanos`; nothing is claimed of the
/// result, since the duration is opaque.
#[verifier::external_body]
fn total_nanos(d: &core::time::Duration) -> (r: u128) {
    d.as_nanos()
}

impl DateTime {
    /// The UNIX epoch, January 1st, 1970.
    pub fn unix() -> (r: DateTime)
        ensures
            r@ == 0,
    {
        DateTime(Duration::zero())
    }

    /// The moment `946_681_200_000` milliseconds after the UNIX epoch
    /// (around the 1st of January, year 2000).
    pub fn y2k() -> (r: DateTime)
        ensures
            r@ == 946_681_200_000 * nanos_per_milli(),
    {
        DateTime(Duration::from_millis(946_681_200_000))
    }

    /// The moment `since_epoch` after the UNIX epoch.
    pub fn from_duration(since_epoch: Duration) -> (r: DateTime)
        ensures
            r@ == since_epoch@,
    {
        DateTime(since_epoch)
    }

    /// The time since the UNIX epoch.
    pub fn since_epoch(self) -> (r: Duration)
        ensures
            r@ == self@,
    {
        self.0
    }

    /// The moment described by a reading of the system clock: `nanos`
    /// nanoseconds after the epoch when `after_epoch`, before it otherwise.
    pub fn from_clock_reading(after_epoch: bool, nanos: u128) -> (r: DateTime)
        ensures
            r@ == saturate(if after_epoch { nanos as int } else { -(nanos as int) }),
    {
        if after_epoch {
            DateTime(Duration::from_unsigned_nanos(nanos))
        } else if nanos > 664613997892457936451903530140172288u128 {
            DateTime(Duration::min_value())
        } else {
            DateTime(Duration::from_nanos(-(nanos as i128)))
        }
    }

    /// The current [`DateTime`], read from the system clock; a clock that
    /// stands before the UNIX epoch gives a moment as far before it.
    pub fn now() -> (r: DateTime) {
        let reading = clock_now();
        match time_since_epoch(&reading) {
            Ok(after) => Self::from_clock_reading(true, total_nanos(&after)),
            Err(before) => Self::from_clock_reading(false, total_nanos(&time_before(&before))),
        }
    }

    /// The moment `dur` after `self`, saturating at the boundaries.
    pub fn const_add(self, dur: Duration) -> (r: DateTime)
        ensures
            r@ == saturate(self@ + dur@),
    {
        DateTime(self.0.const_add(dur))
    }

    /// The moment `dur` before `self`, saturating at the boundaries.
    pub fn const_sub(self, dur: Duration) -> (r: DateTime)
        ensures
            r@ == saturate(self@ - dur@),
    {
        DateTime(self.0.const_sub(dur))
    }

    /// The duration from `other` to `self`, saturating at the boundaries.
    pub fn diff(self, other: DateTime) -> (r: Duration)
        ensures
            r@ == saturate(self@ - other@),
    {
        self.0.const_sub(other.0)
    }
}

/// The difference between a moment shifted by a duration and the moment
/// itself is that duration, when the shift does not saturate.
pub proof fn law_datetime_add_diff(t: int, d: int)
    requires
        min_nanos() <= t <= max_nanos(),
        min_nanos() <= d <= max_nanos(),
        min_nanos() <= t + d <= max_nanos(),
    ensures
        saturate(saturate(t + d) - t) == d,
{
}

impl std::ops::Add for Duration {
    type Output = Duration;

    /// The sum, saturating at the boundaries.
    fn add(self, rhs: Duration) -> (r: Duration)
        ensures
            r@ == saturate(self@ + rhs@),
    {
        self.const_add(rhs)
    }
}

impl vstd::std_specs::ops::AddSpecImpl for Duration {
    open spec fn obeys_add_spec() -> bool {
        true
    }

    open spec fn add_req(self, rhs: Duration) -> bool {
        true
    }

    closed spec fn add_spec(self, rhs: Duration) -> Duration {
        Duration(saturate(self@ + rhs@) as i128)
    }
}

impl std::ops::Sub for Duration {
    type Output = Duration;

    /// The difference, saturating at the boundaries.
    fn sub(self, rhs: Duration) -> (r: Duration)
        ensures
            r@ == saturate(self@ - rhs@),
    {
        self.const_sub(rhs)
    }
}

impl vstd::std_specs::ops::SubSpecImpl for Duration {
    open spec fn obeys_sub_spec() -> bool {
        true
    }

    open spec fn sub_req(self, rhs: Duration) -> bool {
        true
    }

    closed spec fn sub_spec(self, rhs: Duration) -> Duration {
        Duration(saturate(self@ - rhs@) as i128)
    }
}

impl std::ops::Add<Duration> for DateTime {
    type Output = DateTime;

    /// The moment `rhs` later, saturating at the boundaries.
    fn add(self, rhs: Duration) -> (r: DateTime)
        ensures
            r@ == saturate(self@ + rhs@),
    {
        self.const_add(rhs)
    }
}

impl vstd::std_specs::ops::AddSpecImpl<Duration> for DateTime {
    open spec fn obeys_add_spec() -> bool {
        true
    }

    open spec fn add_req(self, rhs: Duration) -> bool {
        true
    }

    closed spec fn add_spec(self, rhs: Duration) -> DateTime {
        DateTime(Duration(saturate(self@ + rhs@) as i128))
    }
}

impl std::ops::Sub<Duration> for DateTime {
    type Output = DateTime;

    /// The moment `rhs` earlier, saturating at the boundaries.
    fn sub(self, rhs: Duration) -> (r: DateTime)
        ensures
            r@ == saturate(self@ - rhs@),
    {
        self.const_sub(rhs)
    }
}

impl vstd::std_specs::ops::SubSpecImpl<Duration> for DateTime {
    open spec fn obeys_sub_spec() -> bool {
        true
    }

    open spec fn sub_req(self, rhs: Duration) -> bool {
        true
    }

    closed spec fn sub_spec(self, rhs: Duration) -> DateTime {
        DateTime(Duration(saturate(self@ - rhs@) as i128))
    }
}

impl std::ops::Sub for DateTime {
    type Output = Duration;

    /// The time from `rhs` to `self`, saturating at the boundaries.
    fn sub(self, rhs: DateTime) -> (r: Duration)
        ensures
            r@ == saturate(self@ - rhs@),
    {
        self.diff(rhs)
    }
}

impl vstd::std_specs::ops::SubSpecImpl for DateTime {
    open spec fn obeys_sub_spec() -> bool {
        true
    }

    open spec fn sub_req(self, rhs: DateTime) -> bool {
        true
    }

    closed spec fn sub_spec(self, rhs: DateTime) -> Duration {
        Duration(saturate(self@ - rhs@) as i128)
    }
}

} // verus!
