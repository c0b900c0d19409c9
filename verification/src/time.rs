//! Points in time, as held by a UTC `DateTime`: whole seconds since the Unix
//! epoch and the nanoseconds past them.
use vstd::prelude::*;

verus! {

/// A UTC point in time: `secs` seconds after 1970-01-01T00:00:00Z plus `nanos`
/// nanoseconds (a leap second carries `nanos` of a billion or more).
#[derive(Clone, Copy, Debug, PartialEq, Eq, Structural)]
pub struct Timestamp {
    pub secs: i64,
    pub nanos: u32,
}

/// Whether `a` comes strictly before `b`.
pub open spec fn ts_before(a: Timestamp, b: Timestamp) -> bool {
    a.secs < b.secs || (a.secs == b.secs && a.nanos < b.nanos)
}

impl Timestamp {
    /// The point in time `secs` seconds and `nanos` nanoseconds after the epoch.
    pub fn new(secs: i64, nanos: u32) -> (r: Timestamp)
        ensures
            r.secs == secs,
            r.nanos == nanos,
    {
        Timestamp { secs, nanos }
    }

    /// Whether `self` comes strictly before `other`.
    pub fn before(&self, other: &Timestamp) -> (r: bool)
        ensures
            r == ts_before(*self, *other),
    {
        self.secs < other.secs || (self.secs == other.secs && self.nanos < other.nanos)
    }
}

/// A length of time, as `std::time::Duration` holds it: whole seconds and the
/// nanoseconds past them.
#[derive(Clone, Copy, Debug, PartialEq, Eq, Structural)]
pub struct Span {
    pub secs: u64,
    pub nanos: u32,
}

/// Whether span `a` is shorter than span `b`.
pub open spec fn span_lt(a: Span, b: Span) -> bool {
    a.secs < b.secs || (a.secs == b.secs && a.nanos < b.nanos)
}

/// The difference `a - b` of two spans with `b` no longer than `a`, borrowing
/// a second where the nanoseconds would go negative.
pub open spec fn span_sub(a: Span, b: Span) -> Span {
    if a.nanos >= b.nanos {
        Span { secs: (a.secs - b.secs) as u64, nanos: (a.nanos - b.nanos) as u32 }
    } else {
        Span { secs: (a.secs - b.secs - 1) as u64, nanos: (a.nanos + 1_000_000_000 - b.nanos) as u32 }
    }
}

impl Span {
    /// The span of `secs` seconds.
    pub fn from_secs(secs: u64) -> (r: Span)
        ensures
            r == (Span { secs, nanos: 0 }),
    {
        Span { secs, nanos: 0 }
    }

    /// Whether `self` is shorter than `other`.
    pub fn lt(&self, other: &Span) -> (r: bool)
        ensures
            r == span_lt(*self, *other),
    {
        self.secs < other.secs || (self.secs == other.secs && self.nanos < other.nanos)
    }

    /// `self - other`, for `other` no longer than `self`.
    pub fn minus(&self, other: &Span) -> (r: Span)
        requires
            !span_lt(*self, *other),
            other.nanos < 1_000_000_000,
        ensures
            r == span_sub(*self, *other),
    {
        if self.nanos >= other.nanos {
            Span { secs: self.secs - other.secs, nanos: self.nanos - other.nanos }
        } else {
            Span { secs: self.secs - other.secs - 1, nanos: self.nanos + 1_000_000_000 - other.nanos }
        }
    }
}

/// The day since the epoch of a UTC second (days before it are negative).
pub open spec fn epoch_day(secs: int) -> int {
    secs / 86400
}

/// The second of its day of a UTC second.
pub open spec fn second_of_day(secs: int) -> int {
    secs % 86400
}

/// The day since the epoch and the second of the day of a UTC second, as
/// `DateTime::from_timestamp` splits it.
pub fn day_and_second(secs: i64) -> (r: (i64, i64))
    ensures
        r.0 == epoch_day(secs as int),
        r.1 == second_of_day(secs as int),
        0 <= r.1 < 86400,
{
    let q = secs / 86400;
    let m = secs % 86400;
    if m < 0 {
        (q - 1, m + 86400)
    } else {
        (q, m)
    }
}

/// The hour, 0 to 23, of a UTC instant.
pub open spec fn hour_of(t: Timestamp) -> int {
    second_of_day(t.secs as int) / 3600
}

/// The day of the week of a UTC instant, Monday as 0 through Sunday as 6
/// (the epoch fell on a Thursday).
pub open spec fn weekday_of(t: Timestamp) -> int {
    (epoch_day(t.secs as int) + 3) % 7
}

/// The signed time from `b` to `a` as a `TimeDelta` holds it: seconds and
/// nanoseconds in 0..10^9.  A leap second (nanoseconds of 10^9 or more) counts
/// once when the other instant lies on the far side of it.
pub open spec fn time_delta(a: Timestamp, b: Timestamp) -> (int, int) {
    let ta = second_of_day(a.secs as int);
    let tb = second_of_day(b.secs as int);
    let adjust = if ta > tb && b.nanos >= 1_000_000_000 {
        1int
    } else if ta < tb && a.nanos >= 1_000_000_000 {
        -1int
    } else {
        0int
    };
    let frac = a.nanos - b.nanos;
    (
        (epoch_day(a.secs as int) - epoch_day(b.secs as int)) * 86400 + (ta - tb) + adjust + frac
            / 1_000_000_000,
        frac % 1_000_000_000,
    )
}

/// `(a - b).to_std()`: the time from `b` to `a` as a span, `None` where `a`
/// is before `b` or either is no instant a `DateTime` can hold.
pub open spec fn elapsed(a: Timestamp, b: Timestamp) -> Option<Span> {
    let (s, n) = time_delta(a, b);
    if !valid_instant(a) || !valid_instant(b) || s < 0 || s > 0xFFFF_FFFF_FFFF_FFFF {
        None
    } else {
        Some(Span { secs: s as u64, nanos: n as u32 })
    }
}

/// `DateTime::from_timestamp` of both instants, then `(a - b).to_std()`:
/// the time from `b` to `a` as `elapsed` states it.
#[verifier::external_body]
fn chrono_elapsed(a: Timestamp, b: Timestamp) -> (r: Option<Span>)
    ensures
        r == elapsed(a, b),
{
    let (x, y) = match (chrono::DateTime::from_timestamp(a.secs, a.nanos), chrono::DateTime::from_timestamp(b.secs, b.nanos)) {
        (Some(x), Some(y)) => (x, y),
        _ => return None,
    };
    match (x - y).to_std() {
        Ok(d) => Some(Span { secs: d.as_secs(), nanos: d.subsec_nanos() }),
        Err(_) => None,
    }
}

/// The time from `b` to `a` as a span, `None` where `a` is before `b`.
pub fn elapsed_between(a: Timestamp, b: Timestamp) -> (r: Option<Span>)
    ensures
        r == elapsed(a, b),
{
    chrono_elapsed(a, b)
}

/// The earliest second that a UTC `DateTime` can hold (January 1, -262143).
pub open spec fn min_utc_secs() -> int {
    -8334601315200
}

/// Whether `t` is an instant that a UTC `DateTime` can hold: within its
/// range, with nanoseconds below two billion, and a billion or more only in
/// a leap second (the last second of a minute).
pub open spec fn valid_instant(t: Timestamp) -> bool {
    &&& min_utc_secs() <= t.secs <= max_utc_secs()
    &&& t.nanos < 2_000_000_000
    &&& (t.nanos >= 1_000_000_000 ==> second_of_day(t.secs as int) % 60 == 59)
}

/// The latest second that a UTC `DateTime` can hold (December 31, 262142).
pub open spec fn max_utc_secs() -> int {
    8210266876799
}

/// The instant one minute after `t`, as `DateTime + TimeDelta::minutes(1)`
/// computes it: a leap second leaves its extra second behind; `None` past the
/// latest representable instant, or for an instant no `DateTime` can hold.
pub open spec fn add_minute(t: Timestamp) -> Option<Timestamp> {
    if !valid_instant(t) || t.secs + 60 > max_utc_secs() {
        None
    } else {
        Some(
            Timestamp {
                secs: (t.secs + 60) as i64,
                nanos: if t.nanos >= 1_000_000_000 {
                    (t.nanos - 1_000_000_000) as u32
                } else {
                    t.nanos
                },
            },
        )
    }
}

/// `DateTime::from_timestamp` of the instant, then `checked_add_signed` of
/// one minute: the instant `add_minute` states.
#[verifier::external_body]
fn chrono_plus_minute(t: Timestamp) -> (r: Option<Timestamp>)
    ensures
        r == add_minute(t),
{
    let d = match chrono::DateTime::from_timestamp(t.secs, t.nanos) {
        Some(d) => d,
        None => return None,
    };
    match d.checked_add_signed(chrono::TimeDelta::minutes(1)) {
        Some(n) => Some(Timestamp { secs: n.timestamp(), nanos: n.timestamp_subsec_nanos() }),
        None => None,
    }
}

impl Timestamp {
    /// The instant one minute later; `None` past the latest representable instant.
    pub fn plus_minute(&self) -> (r: Option<Timestamp>)
        ensures
            r == add_minute(*self),
    {
        chrono_plus_minute(*self)
    }
}

/// `chrono::Utc::now()`: the current instant.  What it returns is the clock's
/// reading; nothing is stated of it.
#[verifier::external_body]
pub(crate) fn utc_now() -> (r: Timestamp) {
    let now = chrono::Utc::now();
    Timestamp { secs: now.timestamp(), nanos: now.timestamp_subsec_nanos() }
}

} // verus!
