//! Resolution of a wall-clock time in an IANA time zone to a UTC instant,
//! with explicit handling of DST folds (ambiguous) and gaps (non-existent).

use vstd::prelude::*;
use chrono::{Offset, TimeZone};
use crate::text::first_from;
use crate::time::naive::{NaiveLocal, UtcTime};

verus! {

/// How a local time was resolved to UTC.
#[derive(Debug, Clone, Copy, PartialEq, Eq, Hash)]
pub enum Resolution {
    /// The local time has exactly one UTC interpretation.
    Single,
    /// The local time is ambiguous; the earlier interpretation was taken.
    AmbiguousFirst,
    /// The local time is ambiguous; the later interpretation was taken.
    AmbiguousSecond,
    /// The local time does not exist; it was moved forward to the next valid minute.
    Gap,
}

pub open spec fn resolution_text(r: Resolution) -> Seq<char> {
    match r {
        Resolution::Single => "Single"@,
        Resolution::AmbiguousFirst => "AmbiguousFirst"@,
        Resolution::AmbiguousSecond => "AmbiguousSecond"@,
        Resolution::Gap => "Gap"@,
    }
}

impl Resolution {
    /// Stable text of the resolution, as stored in the database.
    pub fn as_str(self) -> (r: &'static str)
        ensures
            r@ == resolution_text(self),
    {
        match self {
            Resolution::Single => "Single",
            Resolution::AmbiguousFirst => "AmbiguousFirst",
            Resolution::AmbiguousSecond => "AmbiguousSecond",
            Resolution::Gap => "Gap",
        }
    }
}

/// Law: every resolution has its own non-empty text, so the stored text identifies it.
pub proof fn lemma_resolution_text_distinct(a: Resolution, b: Resolution)
    ensures
        resolution_text(a).len() > 0,
        resolution_text(a) == resolution_text(b) ==> a == b,
{
    reveal_strlit("Single");
    reveal_strlit("AmbiguousFirst");
    reveal_strlit("AmbiguousSecond");
    reveal_strlit("Gap");
    if resolution_text(a) == resolution_text(b) && a != b {
        assert(resolution_text(a).len() == resolution_text(b).len());
    }
}

/// The UTC offsets (local minus UTC, in seconds) under which a wall-clock time exists.
#[derive(Debug, Clone, Copy, PartialEq, Eq)]
pub enum LocalOffsets {
    /// The wall-clock time falls into a gap.
    Gap,
    Single(i32),
    /// Earliest interpretation first.
    Ambiguous(i32, i32),
}

/// The offsets that the named zone gives a wall-clock time, identified by its whole
/// seconds since 1970-01-01T00:00:00 local; `None` for an unknown zone name or a time
/// outside the supported range.
pub uninterp spec fn tz_local_offsets(zone: Seq<char>, local_secs: int) -> Option<LocalOffsets>;

/// The zone name is one of the IANA names known to the time-zone database.
pub uninterp spec fn tz_name_known(zone: Seq<char>) -> bool;

/// `zone.parse::<chrono_tz::Tz>()` succeeds.
#[verifier::external_body]
pub fn zone_known(zone: &str) -> (b: bool)
    ensures
        b == tz_name_known(zone@),
{
    zone.parse::<chrono_tz::Tz>().is_ok()
}

/// `chrono_tz::Tz::from_local_datetime` on the wall-clock time `local_secs` seconds after
/// 1970-01-01T00:00:00, read back as offsets. The result is named `tz_local_offsets`;
/// an unknown zone gives `None`, and, as the documentation states, an ambiguous time lists
/// its earliest interpretation (the larger offset) first.
#[verifier::external_body]
fn local_offsets(zone: &str, local_secs: i64) -> (r: Option<LocalOffsets>)
    ensures
        r == tz_local_offsets(zone@, local_secs as int),
        !tz_name_known(zone@) ==> r is None,
        r matches Some(LocalOffsets::Ambiguous(e, l)) ==> e > l,
{
    let tz: chrono_tz::Tz = zone.parse().ok()?;
    let naive = chrono::DateTime::from_timestamp(local_secs, 0)?.naive_utc();
    Some(
        match tz.from_local_datetime(&naive) {
            chrono::MappedLocalTime::Single(d) => LocalOffsets::Single(
                d.offset().fix().local_minus_utc(),
            ),
            chrono::MappedLocalTime::Ambiguous(a, b) => LocalOffsets::Ambiguous(
                a.offset().fix().local_minus_utc(),
                b.offset().fix().local_minus_utc(),
            ),
            chrono::MappedLocalTime::None => LocalOffsets::Gap,
        },
    )
}

/// `a` is strictly before `b`.
pub open spec fn utc_lt(a: UtcTime, b: UtcTime) -> bool {
    a.secs < b.secs || (a.secs == b.secs && a.nanos < b.nanos)
}

pub fn utc_before(a: UtcTime, b: UtcTime) -> (r: bool)
    ensures
        r == utc_lt(a, b),
{
    a.secs < b.secs || (a.secs == b.secs && a.nanos < b.nanos)
}

/// The minute step `i` (1..=240) of the first wall-clock time after a gap that exists.
pub open spec fn gap_step(zone: Seq<char>, local_secs: int) -> Option<int> {
    first_from(
        1,
        241,
        |i: int|
            tz_local_offsets(zone, local_secs + 60 * i) matches Some(o) && !(o is Gap),
    )
}

/// Fraction kept when a minute is added to a wall-clock time: a leap second loses its extra second.
pub open spec fn stepped_nanos(n: u32) -> u32 {
    if n >= 1_000_000_000 {
        (n - 1_000_000_000) as u32
    } else {
        n
    }
}

/// `(utc, offset, resolution)` for the wall-clock time `naive` in `zone`.
///
/// - one interpretation: that one;
/// - ambiguous: the earlier one if no previous instant is known or it lies strictly after
///   `prev_utc`, the later one otherwise;
/// - in a gap: the first existing minute step within four hours (its earliest
///   interpretation); if none exists, `naive` read as UTC with offset 0.
pub open spec fn resolve_spec(zone: Seq<char>, naive: NaiveLocal, prev_utc: Option<UtcTime>) -> (
    UtcTime,
    int,
    Resolution,
) {
    let s = naive.secs();
    let ns = naive.nanosecond;
    match tz_local_offsets(zone, s) {
        Some(LocalOffsets::Single(o)) => (UtcTime { secs: (s - o) as i64, nanos: ns }, o as int, Resolution::Single),
        Some(LocalOffsets::Ambiguous(e, l)) => {
            let ue = UtcTime { secs: (s - e) as i64, nanos: ns };
            let pick_earlier = match prev_utc {
                Some(p) => utc_lt(p, ue),
                None => true,
            };
            if pick_earlier {
                (ue, e as int, Resolution::AmbiguousFirst)
            } else {
                (UtcTime { secs: (s - l) as i64, nanos: ns }, l as int, Resolution::AmbiguousSecond)
            }
        },
        _ => match gap_step(zone, s) {
            Some(i) => {
                let ps = s + 60 * i;
                let o = match tz_local_offsets(zone, ps) {
                    Some(LocalOffsets::Single(o)) => o,
                    Some(LocalOffsets::Ambiguous(e, _)) => e,
                    _ => 0,
                };
                (UtcTime { secs: (ps - o) as i64, nanos: stepped_nanos(ns) }, o as int, Resolution::Gap)
            },
            None => (UtcTime { secs: s as i64, nanos: ns }, 0, Resolution::Gap),
        },
    }
}

/// Resolves the wall-clock time `naive` in the IANA zone `zone` to UTC.
///
/// `prev_utc` is the instant of the preceding log line; for an ambiguous time it
/// decides between the earlier and the later interpretation so that the result
/// comes strictly after it where possible.
///
/// Returns `(UTC instant, offset in seconds, how it was resolved)`.
pub fn resolve_local_to_utc(naive: &NaiveLocal, zone: &str, prev_utc: Option<UtcTime>) -> (r: (
    UtcTime,
    i32,
    Resolution,
))
    requires
        naive.valid(),
    ensures
        (r.0, r.1 as int, r.2) == resolve_spec(zone@, *naive, prev_utc),
{
    let s = naive.total_secs();
    let ns = naive.nanosecond;
    proof {
        naive_secs_bounds(*naive);
    }
    match local_offsets(zone, s) {
        Some(LocalOffsets::Single(o)) => (UtcTime { secs: s - o as i64, nanos: ns }, o, Resolution::Single),
        Some(LocalOffsets::Ambiguous(e, l)) => {
            let ue = UtcTime { secs: s - e as i64, nanos: ns };
            let pick_earlier = match prev_utc {
                Some(p) => utc_before(p, ue),
                None => true,
            };
            if pick_earlier {
                (ue, e, Resolution::AmbiguousFirst)
            } else {
                (UtcTime { secs: s - l as i64, nanos: ns }, l, Resolution::AmbiguousSecond)
            }
        },
        _ => {
            let mut i: i64 = 1;
            while i <= 240
                invariant
                    1 <= i <= 241,
                    s == naive.secs(),
                    ns == naive.nanosecond,
                    !(tz_local_offsets(zone@, s as int) matches Some(LocalOffsets::Single(_))),
                    !(tz_local_offsets(zone@, s as int) matches Some(LocalOffsets::Ambiguous(_, _))),
                    -10_000_000_000_000 < s < 10_000_000_000_000,
                    gap_step(zone@, s as int) == first_from(
                        i as int,
                        241,
                        |k: int|
                            tz_local_offsets(zone@, s + 60 * k) matches Some(o) && !(o is Gap),
                    ),
                decreases 241 - i,
            {
                let ps = s + 60 * i;
                match local_offsets(zone, ps) {
                    Some(LocalOffsets::Single(o)) => {
                        let nanos = if ns >= 1_000_000_000 { ns - 1_000_000_000 } else { ns };
                        return (UtcTime { secs: ps - o as i64, nanos }, o, Resolution::Gap);
                    },
                    Some(LocalOffsets::Ambiguous(e, _)) => {
                        let nanos = if ns >= 1_000_000_000 { ns - 1_000_000_000 } else { ns };
                        return (UtcTime { secs: ps - e as i64, nanos }, e, Resolution::Gap);
                    },
                    _ => {},
                }
                i = i + 1;
            }
            (UtcTime { secs: s, nanos: ns }, 0, Resolution::Gap)
        },
    }
}

proof fn naive_secs_bounds(n: NaiveLocal)
    requires
        n.valid(),
    ensures
        -10_000_000_000_000 < n.secs() < 10_000_000_000_000,
{
}

/// Law: resolving an ambiguous wall-clock time twice in a row, the second time with the
/// first result as the previous instant, gives the earlier interpretation first and then
/// the later one, strictly after it (provided no earlier previous instant already rules
/// out the earlier interpretation).
pub proof fn lemma_ambiguous_repeat_is_monotonic(
    zone: Seq<char>,
    naive: NaiveLocal,
    prev: Option<UtcTime>,
    e: i32,
    l: i32,
)
    requires
        naive.valid(),
        tz_local_offsets(zone, naive.secs()) == Some(LocalOffsets::Ambiguous(e, l)),
        e > l,
        prev matches Some(p) ==> utc_lt(
            p,
            UtcTime { secs: (naive.secs() - e) as i64, nanos: naive.nanosecond },
        ),
    ensures
        ({
            let r1 = resolve_spec(zone, naive, prev);
            let r2 = resolve_spec(zone, naive, Some(r1.0));
            r1.2 == Resolution::AmbiguousFirst && r2.2 == Resolution::AmbiguousSecond && utc_lt(
                r1.0,
                r2.0,
            )
        }),
{
    naive_secs_bounds(naive);
}

/// `i` minutes after the wall-clock second `s`.
pub open spec fn minutes_later(s: int, i: int) -> int {
    s + 60 * i
}

/// Law: the offset returned is the local time minus UTC. A time with one or two
/// interpretations keeps its wall-clock reading and fraction: UTC plus the offset is the
/// local time, and the offset is one the zone gives it (the one, the earlier or the
/// later). A time in a gap is moved forward by whole minutes, at most four hours, and
/// again UTC plus the offset is the moved wall-clock time.
pub proof fn lemma_offset_is_local_minus_utc(zone: Seq<char>, naive: NaiveLocal, prev: Option<UtcTime>)
    requires
        naive.valid(),
    ensures
        ({
            let r = resolve_spec(zone, naive, prev);
            &&& r.2 != Resolution::Gap ==> r.0.secs + r.1 == naive.secs() && r.0.nanos
                == naive.nanosecond
            &&& r.2 == Resolution::Single ==> tz_local_offsets(zone, naive.secs()) == Some(
                LocalOffsets::Single(r.1 as i32),
            )
            &&& r.2 == Resolution::AmbiguousFirst ==> (tz_local_offsets(zone, naive.secs()) matches Some(
                LocalOffsets::Ambiguous(e, _),
            ) && r.1 == e)
            &&& r.2 == Resolution::AmbiguousSecond ==> (tz_local_offsets(zone, naive.secs()) matches Some(
                LocalOffsets::Ambiguous(_, l),
            ) && r.1 == l)
            &&& r.2 == Resolution::Gap ==> exists|i: int|
                0 <= i <= 240 && r.0.secs + r.1 == #[trigger] minutes_later(naive.secs(), i)
        }),
{
    naive_secs_bounds(naive);
    let s = naive.secs();
    let r = resolve_spec(zone, naive, prev);
    match tz_local_offsets(zone, s) {
        Some(LocalOffsets::Single(o)) => {},
        Some(LocalOffsets::Ambiguous(e, l)) => {},
        _ => {
            crate::text::lemma_first_from(
                1,
                241,
                |i: int| tz_local_offsets(zone, s + 60 * i) matches Some(o) && !(o is Gap),
            );
            match gap_step(zone, s) {
                Some(i) => {
                    assert(r.0.secs + r.1 == minutes_later(s, i));
                },
                None => {
                    assert(r.0.secs + r.1 == minutes_later(s, 0));
                },
            }
        },
    }
}

} // verus!
