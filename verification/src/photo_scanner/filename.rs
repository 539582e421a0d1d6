//! The name VRChat gives a screenshot:
//!
//! `VRChat_YYYY-MM-DD_HH-MM-SS[.fff][_WIDTHxHEIGHT].(png|jpg|jpeg)`
//!
//! The whole name is matched without regard to ASCII letter case. Every
//! number is made of ASCII digits; the fraction may have any number of
//! digits, of which the first nine count. The date and time must exist on the
//! calendar (second 60 is a leap second) and each dimension must fit a `u32`;
//! any other name gives `None`.

use vstd::prelude::*;
use crate::text::{chars_of, digit_value, is_ascii_digit};
use crate::log_parser::parse::{ascii_digits_at, lemma_run_len, num2, num4, run_len, two_at};
use crate::time::naive::{date_valid, is_valid_date, NaiveLocal};

verus! {

/// The shooting time and, when the name holds it, the picture size.
#[derive(Debug, Clone, PartialEq, Eq)]
pub struct VRChatPhotoMeta {
    pub taken_naive_local: NaiveLocal,
    /// `(width, height)`; absent in names from old builds or renamed files.
    pub resolution: Option<(u32, u32)>,
}

/// `c` is `lower`, or its capital when `lower` is an ASCII lower-case letter.
pub open spec fn ci_char(c: char, lower: char) -> bool {
    c == lower || ('a' <= lower && lower <= 'z' && c as int == lower as int - 32)
}

/// `s` holds `lit` at `p`, ignoring ASCII letter case.
pub open spec fn ci_starts_at(s: Seq<char>, p: int, lit: Seq<char>) -> bool {
    &&& 0 <= p
    &&& p + lit.len() <= s.len()
    &&& forall|j: int| 0 <= j < lit.len() ==> ci_char(#[trigger] s[p + j], lit[j])
}

/// Length of the run of ASCII digits starting at `i`.
pub open spec fn digit_run(s: Seq<char>, i: int) -> nat {
    run_len(s, i, |c: char| is_ascii_digit(c))
}

/// The value of a string of decimal digits.
pub open spec fn digits_value(d: Seq<char>) -> nat
    decreases d.len(),
{
    if d.len() == 0 {
        0
    } else {
        (digits_value(d.drop_last()) * 10 + digit_value(d.last())) as nat
    }
}

pub open spec fn pow10(n: nat) -> nat
    decreases n,
{
    if n == 0 {
        1
    } else {
        10 * pow10((n - 1) as nat)
    }
}

/// `VRChat_YYYY-MM-DD_HH-MM-SS` at the start of `s`.
pub open spec fn stamp_layout(s: Seq<char>) -> bool {
    &&& s.len() >= 26
    &&& ci_starts_at(s, 0, "vrchat_"@)
    &&& ascii_digits_at(s, 7, 4)
    &&& s[11] == '-'
    &&& ascii_digits_at(s, 12, 2)
    &&& s[14] == '-'
    &&& ascii_digits_at(s, 15, 2)
    &&& s[17] == '_'
    &&& ascii_digits_at(s, 18, 2)
    &&& s[20] == '-'
    &&& ascii_digits_at(s, 21, 2)
    &&& s[23] == '-'
    &&& ascii_digits_at(s, 24, 2)
}

/// Where the optional `.digits` after the seconds ends (26 when there is none).
pub open spec fn fraction_end(s: Seq<char>) -> int {
    if 26 < s.len() && s[26] == '.' && digit_run(s, 27) > 0 {
        27 + digit_run(s, 27) as int
    } else {
        26
    }
}

/// The optional `_WIDTHxHEIGHT` at `q`: the bounds of the two numbers.
pub open spec fn resolution_bounds(s: Seq<char>, q: int) -> Option<(int, int, int, int)> {
    let wb = q + 1 + digit_run(s, q + 1);
    let hb = wb + 1 + digit_run(s, wb + 1);
    if 0 <= q < s.len() && s[q] == '_' && digit_run(s, q + 1) > 0 && wb < s.len() && ci_char(
        s[wb],
        'x',
    ) && digit_run(s, wb + 1) > 0 {
        Some((q + 1, wb, wb + 1, hb))
    } else {
        None
    }
}

/// `.png`, `.jpg` or `.jpeg` from `e` to the end of `s`.
pub open spec fn image_suffix_at(s: Seq<char>, e: int) -> bool {
    &&& 0 <= e < s.len()
    &&& s[e] == '.'
    &&& {
        ||| s.len() - e == 4 && (ci_starts_at(s, e + 1, "png"@) || ci_starts_at(s, e + 1, "jpg"@))
        ||| s.len() - e == 5 && ci_starts_at(s, e + 1, "jpeg"@)
    }
}

/// Nanoseconds denoted by the digits after the decimal point.
pub open spec fn fraction_nanos(f: Seq<char>) -> nat {
    let k: nat = if f.len() > 9 {
        9
    } else {
        f.len()
    };
    digits_value(f.take(k as int)) * pow10((9 - k) as nat)
}

/// The shooting time and picture size a screenshot name denotes.
pub open spec fn photo_meta_spec(s: Seq<char>) -> Option<(NaiveLocal, Option<(u32, u32)>)> {
    if !stamp_layout(s) {
        None
    } else {
        let q = fraction_end(s);
        let rb = resolution_bounds(s, q);
        let e = match rb {
            Some(b) => b.3,
            None => q,
        };
        let y = num4(s, 7);
        let mo = num2(s, 12);
        let d = num2(s, 15);
        let h = num2(s, 18);
        let mi = num2(s, 21);
        let sec = num2(s, 24);
        let nanos: int = if q > 26 {
            fraction_nanos(s.subrange(27, q)) as int
        } else {
            0
        };
        let dims_fit = match rb {
            Some(b) => digits_value(s.subrange(b.0, b.1)) <= u32::MAX && digits_value(
                s.subrange(b.2, b.3),
            ) <= u32::MAX,
            None => true,
        };
        if !image_suffix_at(s, e) || !date_valid(y, mo, d) || h > 23 || mi > 59 || sec > 60
            || !dims_fit {
            None
        } else {
            Some(
                (
                    NaiveLocal {
                        year: y as i32,
                        month: mo as u32,
                        day: d as u32,
                        hour: h as u32,
                        minute: mi as u32,
                        second: if sec == 60 {
                            59
                        } else {
                            sec as u32
                        },
                        nanosecond: if sec == 60 {
                            (1_000_000_000 + nanos) as u32
                        } else {
                            nanos as u32
                        },
                    },
                    match rb {
                        Some(b) => Some(
                            (
                                digits_value(s.subrange(b.0, b.1)) as u32,
                                digits_value(s.subrange(b.2, b.3)) as u32,
                            ),
                        ),
                        None => None,
                    },
                ),
            )
        }
    }
}

pub open spec fn meta_view(r: Option<VRChatPhotoMeta>) -> Option<(NaiveLocal, Option<(u32, u32)>)> {
    match r {
        Some(m) => Some((m.taken_naive_local, m.resolution)),
        None => None,
    }
}

proof fn lemma_digits_value_step(s: Seq<char>, a: int, i: int)
    requires
        0 <= a <= i < s.len(),
    ensures
        digits_value(s.subrange(a, i + 1)) == (digits_value(s.subrange(a, i)) * 10 + digit_value(
            s[i],
        )) as nat,
{
    assert(s.subrange(a, i + 1).drop_last() =~= s.subrange(a, i));
}

proof fn lemma_digits_value_prefix(d: Seq<char>, k: int)
    requires
        0 <= k <= d.len(),
        forall|j: int| 0 <= j < d.len() ==> is_ascii_digit(#[trigger] d[j]),
    ensures
        digits_value(d.take(k)) <= digits_value(d),
    decreases d.len(),
{
    if k < d.len() {
        let p = d.drop_last();
        assert(p.take(k) =~= d.take(k));
        assert forall|j: int| 0 <= j < p.len() implies is_ascii_digit(#[trigger] p[j]) by {
            assert(p[j] == d[j]);
        }
        lemma_digits_value_prefix(p, k);
        assert(is_ascii_digit(d[d.len() - 1]));
    } else {
        assert(d.take(k) =~= d);
    }
}

fn digit_char_at(c: char) -> (b: bool)
    ensures
        b == is_ascii_digit(c),
{
    '0' <= c && c <= '9'
}

fn scan_digits(s: &[char], i: usize) -> (r: usize)
    requires
        i <= s@.len(),
    ensures
        i <= r <= s@.len(),
        r - i == digit_run(s@, i as int),
        forall|j: int| i <= j < r ==> is_ascii_digit(#[trigger] s@[j]),
        r < s@.len() ==> !is_ascii_digit(s@[r as int]),
{
    proof {
        lemma_run_len(s@, i as int, |c: char| is_ascii_digit(c));
    }
    let mut k = i;
    while k < s.len() && digit_char_at(s[k])
        invariant
            i <= k <= s@.len(),
            digit_run(s@, i as int) == (k - i) + digit_run(s@, k as int),
        decreases s@.len() - k,
    {
        k = k + 1;
    }
    k
}

fn ci_char_exec(c: char, lower: char) -> (b: bool)
    ensures
        b == ci_char(c, lower),
{
    c == lower || ('a' <= lower && lower <= 'z' && (c as u32) + 32 == lower as u32)
}

pub(crate) fn ci_matches_at(s: &[char], p: usize, lit: &str) -> (b: bool)
    ensures
        b == ci_starts_at(s@, p as int, lit@),
{
    let l = chars_of(lit);
    if p > s.len() || l.len() > s.len() - p {
        return false;
    }
    let end = p + l.len();
    let mut i: usize = p;
    while i < end
        invariant
            end == p + l@.len(),
            end <= s@.len(),
            l@ == lit@,
            p <= i <= end,
            forall|t: int| 0 <= t < i - p ==> ci_char(#[trigger] s@[p + t], lit@[t]),
        decreases end - i,
    {
        if !ci_char_exec(s[i], l[i - p]) {
            assert(!ci_char(s@[p + (i - p) as int], lit@[(i - p) as int]));
            return false;
        }
        i = i + 1;
    }
    true
}

/// The number spelled by the ASCII digits `s[a..b]`, if it fits a `u32`.
fn digits_u32(s: &[char], a: usize, b: usize) -> (r: Option<u32>)
    requires
        a <= b <= s@.len(),
        forall|j: int| a <= j < b ==> is_ascii_digit(#[trigger] s@[j]),
    ensures
        match r {
            Some(v) => v == digits_value(s@.subrange(a as int, b as int)),
            None => digits_value(s@.subrange(a as int, b as int)) > u32::MAX,
        },
{
    let mut v: u64 = 0;
    let mut i = a;
    assert(s@.subrange(a as int, a as int).len() == 0);
    while i < b
        invariant
            a <= i <= b <= s@.len(),
            forall|j: int| a <= j < b ==> is_ascii_digit(#[trigger] s@[j]),
            v == digits_value(s@.subrange(a as int, i as int)),
            v <= u32::MAX,
        decreases b - i,
    {
        proof {
            lemma_digits_value_step(s@, a as int, i as int);
            assert(is_ascii_digit(s@[i as int]));
        }
        let d = (s[i] as u32 - 48) as u64;
        let nv = v * 10 + d;
        if nv > 0xFFFF_FFFF {
            proof {
                let whole = s@.subrange(a as int, b as int);
                assert(whole.take(i + 1 - a) =~= s@.subrange(a as int, i + 1));
                assert forall|j: int| 0 <= j < whole.len() implies is_ascii_digit(#[trigger] whole[j]) by {
                    assert(whole[j] == s@[a + j]);
                }
                lemma_digits_value_prefix(whole, i + 1 - a);
            }
            return None;
        }
        v = nv;
        i = i + 1;
    }
    Some(v as u32)
}

proof fn lemma_digits_value_bound(s: Seq<char>, a: int, i: int)
    requires
        0 <= a <= i <= s.len(),
        forall|j: int| a <= j < i ==> is_ascii_digit(#[trigger] s[j]),
    ensures
        digits_value(s.subrange(a, i)) < pow10((i - a) as nat),
    decreases i - a,
{
    if i > a {
        lemma_digits_value_bound(s, a, i - 1);
        lemma_digits_value_step(s, a, i - 1);
        assert(is_ascii_digit(s[i - 1]));
        let v = digits_value(s.subrange(a, i - 1));
        let p = pow10((i - 1 - a) as nat);
        assert(pow10((i - a) as nat) == 10 * p);
        assert(v * 10 + 9 < 10 * p) by (nonlinear_arith)
            requires
                v < p,
        ;
    } else {
        assert(s.subrange(a, i).len() == 0);
    }
}

/// Nanoseconds of the fraction digits `s[a..b]`.
fn fraction_value(s: &[char], a: usize, b: usize) -> (r: u32)
    requires
        a < b <= s@.len(),
        forall|j: int| a <= j < b ==> is_ascii_digit(#[trigger] s@[j]),
    ensures
        r == fraction_nanos(s@.subrange(a as int, b as int)),
        r < 1_000_000_000,
{
    let k: usize = if b - a > 9 {
        9
    } else {
        b - a
    };
    let mut v: u64 = 0;
    let mut i = a;
    while i < a + k
        invariant
            a <= i <= a + k <= b <= s@.len(),
            k <= 9,
            forall|j: int| a <= j < b ==> is_ascii_digit(#[trigger] s@[j]),
            v == digits_value(s@.subrange(a as int, i as int)),
            v < pow10((i - a) as nat),
            pow10((i - a) as nat) <= 1_000_000_000,
        decreases a + k - i,
    {
        proof {
            lemma_digits_value_step(s@, a as int, i as int);
            lemma_digits_value_bound(s@, a as int, i + 1);
            assert(is_ascii_digit(s@[i as int]));
            assert(pow10((i + 1 - a) as nat) == 10 * pow10((i - a) as nat));
            lemma_pow10_nine();
            lemma_pow10_mono((i + 1 - a) as nat, 9);
        }
        v = v * 10 + (s[i] as u32 - 48) as u64;
        i = i + 1;
    }
    let ghost head = v;
    let mut m: usize = k;
    assert(pow10(0) == 1);
    assert(head * 1 == head);
    while m < 9
        invariant
            k <= m <= 9,
            v == head * pow10((m - k) as nat),
            head < pow10(k as nat),
            v < pow10(m as nat),
        decreases 9 - m,
    {
        proof {
            lemma_pow10_nine();
            lemma_pow10_mono(m as nat, 8);
            assert(pow10((m + 1 - k) as nat) == 10 * pow10((m - k) as nat));
            assert(pow10((m + 1) as nat) == 10 * pow10(m as nat));
            assert(head * (10 * pow10((m - k) as nat)) == (head * pow10((m - k) as nat)) * 10)
                by (nonlinear_arith);
        }
        v = v * 10;
        m = m + 1;
    }
    proof {
        lemma_pow10_nine();
        let f = s@.subrange(a as int, b as int);
        assert(f.take(k as int) =~= s@.subrange(a as int, (a + k) as int));
    }
    v as u32
}

proof fn lemma_pow10_nine()
    ensures
        pow10(9) == 1_000_000_000,
        pow10(8) == 100_000_000,
{
    reveal_with_fuel(pow10, 10);
}

proof fn lemma_pow10_mono(i: nat, j: nat)
    requires
        i <= j,
    ensures
        pow10(i) <= pow10(j),
    decreases j,
{
    if i < j {
        lemma_pow10_mono(i, (j - 1) as nat);
    }
}

/// Reads a screenshot name (the file name alone, without directories).
pub fn parse_vrchat_filename(name: &str) -> (r: Option<VRChatPhotoMeta>)
    ensures
        meta_view(r) == photo_meta_spec(name@),
        r matches Some(m) ==> m.taken_naive_local.valid(),
{
    let s = chars_of(name);
    let sl = s.as_slice();
    if s.len() < 26 || !ci_matches_at(sl, 0, "vrchat_") || s[11] != '-' || s[14] != '-' || s[17]
        != '_' || s[20] != '-' || s[23] != '-' {
        proof {
            reveal_strlit("vrchat_");
        }
        return None;
    }
    proof {
        reveal_strlit("vrchat_");
    }
    let y1 = two_at(sl, 7);
    let y2 = two_at(sl, 9);
    let mo = two_at(sl, 12);
    let d = two_at(sl, 15);
    let h = two_at(sl, 18);
    let mi = two_at(sl, 21);
    let se = two_at(sl, 24);
    let (y1, y2, mo, d, h, mi, se) = match (y1, y2, mo, d, h, mi, se) {
        (Some(y1), Some(y2), Some(mo), Some(d), Some(h), Some(mi), Some(se)) => (
            y1,
            y2,
            mo,
            d,
            h,
            mi,
            se,
        ),
        _ => {
            proof {
                if y1 is None {
                    let j = choose|j: int| 7 <= j < 9 && !is_ascii_digit(#[trigger] s@[j]);
                    assert(!is_ascii_digit(s@[j]));
                } else if y2 is None {
                    let j = choose|j: int| 9 <= j < 11 && !is_ascii_digit(#[trigger] s@[j]);
                    assert(!is_ascii_digit(s@[j]));
                }
            }
            return None;
        },
    };
    proof {
        assert(ascii_digits_at(s@, 7, 4));
        assert(stamp_layout(s@));
    }
    // the fraction
    let mut q: usize = 26;
    let mut nanos: u32 = 0;
    if s.len() > 26 && s[26] == '.' {
        let fe = scan_digits(sl, 27);
        if fe > 27 {
            nanos = fraction_value(sl, 27, fe);
            q = fe;
        }
    }
    assert(q == fraction_end(s@));
    // the picture size
    let mut e = q;
    let mut bounds: Option<(usize, usize, usize, usize)> = None;
    if q < s.len() && s[q] == '_' {
        let wb = scan_digits(sl, q + 1);
        if wb > q + 1 && wb < s.len() && (s[wb] == 'x' || s[wb] == 'X') {
            let hb = scan_digits(sl, wb + 1);
            if hb > wb + 1 {
                bounds = Some((q + 1, wb, wb + 1, hb));
                e = hb;
            }
        }
    }
    assert(opt_bounds(bounds) == resolution_bounds(s@, q as int));
    // the extension
    let ext_ok = e < s.len() && s[e] == '.' && ((s.len() - e == 4 && (ci_matches_at(
        sl,
        e + 1,
        "png",
    ) || ci_matches_at(sl, e + 1, "jpg"))) || (s.len() - e == 5 && ci_matches_at(
        sl,
        e + 1,
        "jpeg",
    )));
    if !ext_ok {
        return None;
    }
    let year: i32 = (y1 * 100 + y2) as i32;
    if !is_valid_date(year, mo, d) || h > 23 || mi > 59 || se > 60 {
        return None;
    }
    let resolution = match bounds {
        Some((a, b, c, dd)) => {
            let w = digits_u32(sl, a, b);
            let hh = digits_u32(sl, c, dd);
            match (w, hh) {
                (Some(w), Some(hh)) => Some((w, hh)),
                _ => {
                    return None;
                },
            }
        },
        None => None,
    };
    let second: u32 = if se == 60 {
        59
    } else {
        se
    };
    let nanosecond: u32 = if se == 60 {
        1_000_000_000 + nanos
    } else {
        nanos
    };
    Some(
        VRChatPhotoMeta {
            taken_naive_local: NaiveLocal {
                year,
                month: mo,
                day: d,
                hour: h,
                minute: mi,
                second,
                nanosecond,
            },
            resolution,
        },
    )
}

spec fn opt_bounds(b: Option<(usize, usize, usize, usize)>) -> Option<(int, int, int, int)> {
    match b {
        Some(t) => Some((t.0 as int, t.1 as int, t.2 as int, t.3 as int)),
        None => None,
    }
}

} // verus!
