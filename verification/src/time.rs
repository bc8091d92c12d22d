//! Instants in UTC, held as whole seconds and a sub-second nanosecond part.
use vstd::prelude::*;

verus! {

/// The largest magnitude of whole seconds a timestamp may hold: beyond every date a
/// `DateTime<Utc>` represents (years -262143 to 262142, within 8.4e12 seconds of the epoch), and
/// small enough that every difference and millisecond count below fits in an `i64`.
pub const MAX_ABS_SECS: i64 = 8_400_000_000_000;

/// A point in time: `secs` whole seconds since the Unix epoch plus `nanos` nanoseconds.
#[derive(Clone, Copy, Debug, PartialEq, Eq)]
pub struct Timestamp {
    pub secs: i64,
    pub nanos: u32,
}

impl Timestamp {
    /// Well-formed: the nanosecond part is below one second and the seconds are in range.
    pub open spec fn wf(self) -> bool {
        &&& self.nanos < 1_000_000_000
        &&& -MAX_ABS_SECS <= self.secs <= MAX_ABS_SECS
    }

    /// The instant as a count of nanoseconds since the epoch.
    pub open spec fn as_nanos(self) -> int {
        self.secs * 1_000_000_000 + self.nanos
    }

    pub fn new(secs: i64, nanos: u32) -> (t: Timestamp)
        ensures
            t.secs == secs,
            t.nanos == nanos,
    {
        Timestamp { secs, nanos }
    }

    /// Whether the timestamp is well-formed.
    pub fn is_wf(&self) -> (r: bool)
        ensures
            r == self.wf(),
    {
        self.nanos < 1_000_000_000 && -MAX_ABS_SECS <= self.secs && self.secs <= MAX_ABS_SECS
    }

    /// `self < other` in time.
    pub fn is_before(&self, other: &Timestamp) -> (b: bool)
        requires
            self.nanos < 1_000_000_000,
            other.nanos < 1_000_000_000,
        ensures
            b <==> self.as_nanos() < other.as_nanos(),
    {
        self.secs < other.secs || (self.secs == other.secs && self.nanos < other.nanos)
    }
}

/// Whether `chrono` can represent the instant `secs` seconds after the epoch.
pub uninterp spec fn chrono_secs_in_range(secs: i64) -> bool;

/// Calls `chrono::DateTime::from_timestamp(secs, 0)`, which gives the instant `secs` whole
/// seconds after the epoch, or `None` when that is outside the dates `chrono` represents
/// (years -262143 to 262142; the exact bounds are only named here: every instant within 8e12
/// seconds of the epoch lies inside them, and none beyond 8.4e12 seconds).
#[verifier::external_body]
pub(crate) fn timestamp_from_secs(secs: i64) -> (r: Option<Timestamp>)
    ensures
        r is Some <==> chrono_secs_in_range(secs),
        -8_000_000_000_000 <= secs <= 8_000_000_000_000 ==> r is Some,
        r is Some ==> -MAX_ABS_SECS <= secs <= MAX_ABS_SECS,
        r is Some ==> r->0 == (Timestamp { secs, nanos: 0 }),
{
    chrono::DateTime::from_timestamp(secs, 0).map(|d| Timestamp { secs: d.timestamp(), nanos: d.timestamp_subsec_nanos() })
}

/// `a / b` rounded toward zero, as Rust's integer division rounds (`b > 0`).
pub open spec fn trunc_div(a: int, b: int) -> int {
    if a >= 0 { a / b } else { -((-a) / b) }
}

/// Whole seconds from `earlier` to `later`, rounded toward zero: what
/// `later.signed_duration_since(earlier).num_seconds()` gives.
pub open spec fn seconds_between(later: Timestamp, earlier: Timestamp) -> int {
    trunc_div(later.as_nanos() - earlier.as_nanos(), 1_000_000_000)
}

pub proof fn lemma_trunc_seconds(ds: int, dn: int)
    requires
        -1_000_000_000 < dn < 1_000_000_000,
    ensures
        trunc_div(ds * 1_000_000_000 + dn, 1_000_000_000) == if ds > 0 && dn < 0 {
            ds - 1
        } else if ds < 0 && dn > 0 {
            ds + 1
        } else {
            ds
        },
{
    let total = ds * 1_000_000_000 + dn;
    if ds > 0 && dn < 0 {
        assert(total / 1_000_000_000 == ds - 1) by (nonlinear_arith)
            requires
                total == ds * 1_000_000_000 + dn,
                ds > 0,
                -1_000_000_000 < dn < 0;
    } else if ds < 0 && dn > 0 {
        assert((-total) / 1_000_000_000 == -ds - 1) by (nonlinear_arith)
            requires
                total == ds * 1_000_000_000 + dn,
                ds < 0,
                0 < dn < 1_000_000_000;
    } else if ds == 0 {
        if dn < 0 {
            assert((-total) / 1_000_000_000 == 0) by (nonlinear_arith)
                requires
                    total == dn,
                    -1_000_000_000 < dn < 0;
        } else {
            assert(total / 1_000_000_000 == 0) by (nonlinear_arith)
                requires
                    total == dn,
                    0 <= dn < 1_000_000_000;
        }
    } else if ds > 0 {
        assert(total >= 0 && total / 1_000_000_000 == ds) by (nonlinear_arith)
            requires
                total == ds * 1_000_000_000 + dn,
                ds > 0,
                0 <= dn < 1_000_000_000;
    } else {
        assert(total < 0 && (-total) / 1_000_000_000 == -ds) by (nonlinear_arith)
            requires
                total == ds * 1_000_000_000 + dn,
                ds < 0,
                -1_000_000_000 < dn <= 0;
    }
}

impl Timestamp {
    /// Whole seconds since `earlier` (negative when `earlier` is later), rounded toward zero.
    pub fn seconds_since(&self, earlier: &Timestamp) -> (s: i64)
        requires
            self.wf(),
            earlier.wf(),
        ensures
            s == seconds_between(*self, *earlier),
    {
        let ds = self.secs - earlier.secs;
        let dn = self.nanos as i64 - earlier.nanos as i64;
        proof {
            assert(self.as_nanos() - earlier.as_nanos() == ds as int * 1_000_000_000 + dn as int);
            lemma_trunc_seconds(ds as int, dn as int);
        }
        if ds > 0 && dn < 0 {
            ds - 1
        } else if ds < 0 && dn > 0 {
            ds + 1
        } else {
            ds
        }
    }

    /// Milliseconds since the epoch, as `timestamp_millis` counts them: whole seconds times
    /// a thousand plus the whole milliseconds of the sub-second part.
    pub fn millis(&self) -> (m: i64)
        requires
            self.wf(),
        ensures
            m == self.secs * 1000 + self.nanos / 1_000_000,
    {
        self.secs * 1000 + (self.nanos / 1_000_000) as i64
    }
}

#[verifier::external_type_specification]
#[verifier::external_body]
pub struct ExSystemTime(std::time::SystemTime);

/// Calls `std::time::SystemTime::now()`: the system clock's reading, of which nothing is
/// stated (it is whatever the clock says).
#[verifier::external_body]
fn clock_now() -> (t: std::time::SystemTime) {
    std::time::SystemTime::now()
}

/// Calls `SystemTime::duration_since(UNIX_EPOCH)` on `t` and converts the duration to whole
/// seconds and nanoseconds. The clock may read before the epoch (an error) or too far after it
/// for an `i64` of seconds; either gives `None`. A duration has fewer than a billion
/// nanoseconds beyond its whole seconds, and the seconds of one after the epoch are not
/// negative; what the seconds are depends on the clock, so nothing more is stated.
#[verifier::external_body]
fn since_epoch(t: &std::time::SystemTime) -> (r: Option<Timestamp>)
    ensures
        r matches Some(ts) ==> ts.nanos < 1_000_000_000 && ts.secs >= 0,
{
    match t.duration_since(std::time::UNIX_EPOCH) {
        Ok(d) => i64::try_from(d.as_secs()).ok().map(|secs| Timestamp { secs, nanos: d.subsec_nanos() }),
        Err(_) => None,
    }
}

/// The current instant by the system clock, when it reads at or after the epoch and within the
/// range of [`Timestamp::wf`]; `None` otherwise.
pub(crate) fn utc_now() -> (r: Option<Timestamp>)
    ensures
        r matches Some(t) ==> t.wf() && t.secs >= 0,
{
    let now = clock_now();
    match since_epoch(&now) {
        Some(t) => {
            if t.is_wf() {
                Some(t)
            } else {
                None
            }
        },
        None => None,
    }
}

/// `a - b` held within the bounds of an `i64`, as `i64::saturating_sub` computes it.
pub open spec fn sat_sub_i64(a: int, b: int) -> int {
    if a - b > i64::MAX { i64::MAX as int } else if a - b < i64::MIN { i64::MIN as int } else { a - b }
}

/// `a - b` held within the bounds of an `i64`.
pub fn saturating_sub_i64(a: i64, b: i64) -> (r: i64)
    ensures
        r == sat_sub_i64(a as int, b as int),
{
    let d: i128 = a as i128 - b as i128;
    if d > i64::MAX as i128 {
        i64::MAX
    } else if d < i64::MIN as i128 {
        i64::MIN
    } else {
        d as i64
    }
}

/// What chrono's `DateTime::parse_from_rfc3339` makes of `s`, as an instant in UTC.
pub uninterp spec fn rfc3339_instant(s: Seq<char>) -> Option<Timestamp>;

/// Calls chrono's `DateTime::parse_from_rfc3339(s)` and takes the instant it names (its UTC
/// seconds and sub-second nanoseconds); the result is named by [`rfc3339_instant`]. Any instant
/// chrono yields lies within its dates (so `DateTime::from_timestamp` takes its seconds back);
/// its sub-second part is below two seconds (a leap second `:60` is held as a second and more
/// of nanoseconds past `:59`).
#[verifier::external_body]
pub(crate) fn parse_rfc3339(s: &str) -> (r: Option<Timestamp>)
    ensures
        r == rfc3339_instant(s@),
        r matches Some(t) ==> t.nanos < 2_000_000_000 && chrono_secs_in_range(t.secs) && -MAX_ABS_SECS <= t.secs
            <= MAX_ABS_SECS,
{
    match chrono::DateTime::parse_from_rfc3339(s) {
        Ok(d) => Some(Timestamp { secs: d.timestamp(), nanos: d.timestamp_subsec_nanos() }),
        Err(_) => None,
    }
}

/// What chrono's `DateTime<Utc>::to_rfc3339` writes for the instant `secs`, `nanos`.
pub uninterp spec fn rfc3339_text(secs: i64, nanos: u32) -> Seq<char>;

/// Writes the instant `t` with chrono's `DateTime<Utc>::to_rfc3339`, after
/// `DateTime::from_timestamp(t.secs, t.nanos)`; the text is named by [`rfc3339_text`]. Only
/// instants chrono represents are accepted.
#[verifier::external_body]
pub(crate) fn format_rfc3339(t: Timestamp) -> (r: Option<String>)
    requires
        t.wf(),
    ensures
        r is Some <==> chrono_secs_in_range(t.secs),
        -8_000_000_000_000 <= t.secs <= 8_000_000_000_000 ==> r is Some,
        r matches Some(s) ==> s@ == rfc3339_text(t.secs, t.nanos),
{
    match chrono::DateTime::from_timestamp(t.secs, t.nanos) {
        Some(d) => Some(d.to_rfc3339()),
        None => None,
    }
}

/// What `DateTime<Utc>`'s `Display` writes for the instant `secs`, `nanos`.
pub uninterp spec fn utc_display_text(secs: i64, nanos: u32) -> Seq<char>;

/// Writes the instant `t` through `DateTime<Utc>`'s `Display` (`to_string`), after
/// `DateTime::from_timestamp(t.secs, t.nanos)`; the text is named by [`utc_display_text`].
#[verifier::external_body]
pub(crate) fn format_utc_display(t: Timestamp) -> (r: Option<String>)
    requires
        t.wf(),
    ensures
        r is Some <==> chrono_secs_in_range(t.secs),
        -8_000_000_000_000 <= t.secs <= 8_000_000_000_000 ==> r is Some,
        r matches Some(s) ==> s@ == utc_display_text(t.secs, t.nanos),
{
    match chrono::DateTime::from_timestamp(t.secs, t.nanos) {
        Some(d) => Some(d.to_string()),
        None => None,
    }
}

/// An instant with a leap second folded into the last nanosecond of the second before it: a
/// timestamp holds no leap seconds.
pub open spec fn settle(t: Timestamp) -> Timestamp {
    if t.nanos >= 1_000_000_000 { Timestamp { secs: t.secs, nanos: 999_999_999 } } else { t }
}

/// The instant an RFC 3339 text names, leap seconds folded (see [`settle`]).
pub open spec fn instant_of_rfc3339(s: Seq<char>) -> Option<Timestamp> {
    match rfc3339_instant(s) {
        Some(t) => Some(settle(t)),
        None => None,
    }
}

/// Parses an RFC 3339 timestamp into a well-formed instant (see [`instant_of_rfc3339`]).
pub fn parse_instant(s: &str) -> (r: Option<Timestamp>)
    ensures
        r == instant_of_rfc3339(s@),
        r matches Some(t) ==> t.wf() && chrono_secs_in_range(t.secs),
{
    match parse_rfc3339(s) {
        Some(t) => {
            if t.nanos >= 1_000_000_000 {
                Some(Timestamp { secs: t.secs, nanos: 999_999_999 })
            } else {
                Some(t)
            }
        },
        None => None,
    }
}

} // verus!
