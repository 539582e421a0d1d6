//! Durations between instants and their `HH:MM:SS` text.

use vstd::prelude::*;
use crate::text::{decimal, push_padded, zero_pad};
use crate::time::naive::{push_two, two_digits, UtcTime};

verus! {

/// `HH:MM:SS` for a non-negative number of seconds, hours counted in total
/// (no wrap at 24, at least two digits); `--:--:--` for a negative one.
pub open spec fn hms_text(total_secs: int) -> Seq<char> {
    if total_secs < 0 {
        "--:--:--"@
    } else {
        zero_pad(decimal((total_secs / 3600) as nat), 2) + seq![':'] + two_digits(
            (total_secs % 3600) / 60,
        ) + seq![':'] + two_digits(total_secs % 60)
    }
}

/// Law: the text of a non-negative duration reads back as that duration: for
/// `t = 3600 h + 60 m + s` with `m` and `s` below 60, it is the hours `h` (at least two
/// digits), the minutes `m` and the seconds `s`, separated by `:`.
pub proof fn lemma_hms_components(t: int, h: int, m: int, s: int)
    requires
        t == 3600 * h + 60 * m + s,
        h >= 0,
        0 <= m < 60,
        0 <= s < 60,
    ensures
        hms_text(t) == zero_pad(decimal(h as nat), 2) + seq![':'] + two_digits(m) + seq![':']
            + two_digits(s),
{
    assert(t / 3600 == h && t % 3600 == 60 * m + s) by (nonlinear_arith)
        requires
            t == 3600 * h + 60 * m + s,
            h >= 0,
            0 <= m < 60,
            0 <= s < 60,
    ;
    assert((60 * m + s) / 60 == m && t % 60 == s) by (nonlinear_arith)
        requires
            t == 3600 * h + 60 * m + s,
            h >= 0,
            0 <= m < 60,
            0 <= s < 60,
    ;
}

/// Formats a duration given in whole seconds as `HH:MM:SS`.
///
/// Hours do not wrap at 24 and take as many digits as needed (`100:05:09`);
/// a negative duration (left before joined) gives the placeholder `--:--:--`.
pub fn format_duration_hms(total_secs: i64) -> (r: String)
    ensures
        r@ == hms_text(total_secs as int),
{
    if total_secs < 0 {
        return String::from_str("--:--:--");
    }
    let t = total_secs as u64;
    let mut s = String::new();
    push_padded(&mut s, t / 3600, 2);
    s.push(':');
    push_two(&mut s, ((t % 3600) / 60) as u32);
    s.push(':');
    push_two(&mut s, (t % 60) as u32);
    assert(s@ =~= hms_text(total_secs as int));
    s
}

/// The whole seconds of `later - earlier`, truncated toward zero, where each
/// instant splits into a day and a time of day, and a leap second on either side
/// counts as in `chrono`'s `signed_duration_since`.
pub open spec fn seconds_between_spec(later: UtcTime, earlier: UtcTime) -> int {
    let dl = later.secs / 86400;
    let de = earlier.secs / 86400;
    let tl = later.secs % 86400;
    let te = earlier.secs % 86400;
    let adj = if tl > te && earlier.nanos >= 1_000_000_000 {
        1
    } else if tl < te && later.nanos >= 1_000_000_000 {
        -1int
    } else {
        0
    };
    let frac = later.nanos - earlier.nanos;
    let secs = (dl - de) * 86400 + (tl - te) + adj + frac / 1_000_000_000;
    let nanos = frac % 1_000_000_000;
    if secs < 0 && nanos > 0 {
        secs + 1
    } else {
        secs
    }
}

/// The whole seconds of a signed number of nanoseconds, truncated toward zero.
pub open spec fn trunc_secs(nanos: int) -> int {
    if nanos >= 0 {
        nanos / 1_000_000_000
    } else {
        -((-nanos) / 1_000_000_000)
    }
}

/// Law: outside leap seconds, the seconds between two instants are their difference in
/// nanoseconds truncated toward zero; for whole-second instants, simply the difference of
/// their second counts. Nothing depends on where the days split.
pub proof fn lemma_seconds_between_is_difference(later: UtcTime, earlier: UtcTime)
    requires
        later.nanos < 1_000_000_000,
        earlier.nanos < 1_000_000_000,
    ensures
        seconds_between_spec(later, earlier) == trunc_secs(
            (later.secs - earlier.secs) * 1_000_000_000 + later.nanos - earlier.nanos,
        ),
        later.nanos == 0 && earlier.nanos == 0 ==> seconds_between_spec(later, earlier)
            == later.secs - earlier.secs,
{
    let ls = later.secs as int;
    let es = earlier.secs as int;
    vstd::arithmetic::div_mod::lemma_fundamental_div_mod(ls, 86400);
    vstd::arithmetic::div_mod::lemma_fundamental_div_mod(es, 86400);
    let delta = ls - es;
    assert((ls / 86400 - es / 86400) * 86400 + (ls % 86400 - es % 86400) == delta) by (nonlinear_arith)
        requires
            ls == 86400 * (ls / 86400) + ls % 86400,
            es == 86400 * (es / 86400) + es % 86400,
            delta == ls - es,
    ;
    let frac = later.nanos - earlier.nanos;
    let dn = delta * 1_000_000_000 + frac;
    if frac >= 0 {
        assert(frac / 1_000_000_000 == 0 && frac % 1_000_000_000 == frac);
        if delta >= 0 {
            assert(dn / 1_000_000_000 == delta) by (nonlinear_arith)
                requires
                    dn == delta * 1_000_000_000 + frac,
                    0 <= frac < 1_000_000_000,
            ;
        } else {
            if frac > 0 {
                assert((-dn) / 1_000_000_000 == -delta - 1) by (nonlinear_arith)
                    requires
                        dn == delta * 1_000_000_000 + frac,
                        0 < frac < 1_000_000_000,
                ;
            } else {
                assert((-dn) / 1_000_000_000 == -delta) by (nonlinear_arith)
                    requires
                        dn == delta * 1_000_000_000,
                ;
            }
        }
    } else {
        assert(frac / 1_000_000_000 == -1 && frac % 1_000_000_000 == frac + 1_000_000_000);
        if delta >= 1 {
            assert(dn / 1_000_000_000 == delta - 1) by (nonlinear_arith)
                requires
                    dn == delta * 1_000_000_000 + frac,
                    -1_000_000_000 < frac < 0,
            ;
        } else {
            assert((-dn) / 1_000_000_000 == -delta) by (nonlinear_arith)
                requires
                    dn == delta * 1_000_000_000 + frac,
                    -1_000_000_000 < frac < 0,
                    delta <= 0,
            ;
        }
    }
}

/// `(later - earlier).num_seconds()`.
pub fn seconds_between(later: UtcTime, earlier: UtcTime) -> (r: i64)
    requires
        later.nanos < 2_000_000_000,
        earlier.nanos < 2_000_000_000,
        -100_000_000_000_000 <= later.secs <= 100_000_000_000_000,
        -100_000_000_000_000 <= earlier.secs <= 100_000_000_000_000,
    ensures
        r == seconds_between_spec(later, earlier),
{
    let dl = later.secs.checked_div_euclid(86400).unwrap();
    let de = earlier.secs.checked_div_euclid(86400).unwrap();
    let tl = later.secs.checked_rem_euclid(86400).unwrap();
    let te = earlier.secs.checked_rem_euclid(86400).unwrap();
    let adj: i64 = if tl > te && earlier.nanos >= 1_000_000_000 {
        1
    } else if tl < te && later.nanos >= 1_000_000_000 {
        -1
    } else {
        0
    };
    let frac: i64 = later.nanos as i64 - earlier.nanos as i64;
    let fd = frac.checked_div_euclid(1_000_000_000).unwrap();
    let fm = frac.checked_rem_euclid(1_000_000_000).unwrap();
    let secs: i64 = (dl - de) * 86400 + (tl - te) + adj + fd;
    if secs < 0 && fm > 0 {
        secs + 1
    } else {
        secs
    }
}

} // verus!
