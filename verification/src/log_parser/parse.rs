//! The grammar of a VRChat log line.
//!
//! A line is `yyyy.MM.dd HH:mm:ss <body>`. The body is matched against the
//! known patterns in a fixed order; each pattern is described below by a spec
//! function that states which characters it captures. The patterns are those of
//! the upstream log format:
//!
//! | event              | pattern                                                             |
//! |--------------------|---------------------------------------------------------------------|
//! | RoomEntering       | `\[Behaviour\] Entering Room: (.+?)\s*$`                            |
//! | RoomJoining        | `\[Behaviour\] Joining (wrld_[0-9a-fA-F\-]+):(.+?)\s*$`             |
//! | UserAuthenticated  | `User Authenticated: (.+?)\s*$`                                     |
//! | PlayerJoined       | `\[Behaviour\] OnPlayerJoined (.+?)\s*$`                            |
//! | PlayerLeft         | `\[Behaviour\] OnPlayerLeft (.+?)\s*$`                              |
//! | Notification       | `Received Notification:.*?from username:([^,]+).*?type:(\w+)`       |
//! | VideoUrl           | `\[Video Playback\].*?Attempting to resolve URL '(.+?)'`            |
//!
//! with leftmost-first match semantics, `.` not matching a line feed, and
//! `\s`/`\w` taken in their Unicode sense.

use vstd::prelude::*;
use crate::text::{
    chars_of, digit_value, opt_int, first_down, first_from, lemma_first_down, lemma_first_from, is_ascii_digit, matches_at, no_newline,
    starts_at, substring, trim, trim_end_index, trim_end_len, trimmed_string,
};
use crate::time::naive::{date_valid, is_valid_date, NaiveLocal};
use super::event::{opt_view, EventView, LogEvent, ParsedLine};

verus! {

// ------------------------------------------------------------------ characters

/// Unicode `\w`: `Alphabetic`, `Join_Control`, `Decimal_Number`, `Mark` or
/// `Connector_Punctuation`.
pub uninterp spec fn unicode_word_char(c: char) -> bool;

/// `regex_syntax::is_word_character`. Its result is named `unicode_word_char`;
/// for ASCII the contract also states the documented class `[_0-9a-zA-Z]`.
#[verifier::external_body]
fn word_char(c: char) -> (b: bool)
    ensures
        b == unicode_word_char(c),
        (c as u32) < 128 ==> (b <==> (c == '_' || is_ascii_digit(c) || ('a' <= c && c <= 'z')
            || ('A' <= c && c <= 'Z'))),
{
    regex_syntax::is_word_character(c)
}

/// `[0-9a-fA-F\-]`
pub open spec fn is_hex_dash(c: char) -> bool {
    ('0' <= c && c <= '9') || ('a' <= c && c <= 'f') || ('A' <= c && c <= 'F') || c == '-'
}

fn hex_dash(c: char) -> (b: bool)
    ensures
        b == is_hex_dash(c),
{
    ('0' <= c && c <= '9') || ('a' <= c && c <= 'f') || ('A' <= c && c <= 'F') || c == '-'
}

/// Length of the run of characters satisfying `pred` that starts at `i`.
pub open spec fn run_len(s: Seq<char>, i: int, pred: spec_fn(char) -> bool) -> nat
    decreases s.len() - i,
{
    if i < 0 || i >= s.len() || !pred(s[i]) {
        0
    } else {
        1 + run_len(s, i + 1, pred)
    }
}

pub open spec fn hex_run(s: Seq<char>, i: int) -> nat {
    run_len(s, i, |c: char| is_hex_dash(c))
}

pub open spec fn word_run(s: Seq<char>, i: int) -> nat {
    run_len(s, i, |c: char| unicode_word_char(c))
}

pub open spec fn no_comma_run(s: Seq<char>, i: int) -> nat {
    run_len(s, i, |c: char| c != ',')
}

pub proof fn lemma_run_len(s: Seq<char>, i: int, pred: spec_fn(char) -> bool)
    requires
        0 <= i <= s.len(),
    ensures
        i + run_len(s, i, pred) <= s.len(),
        forall|j: int| i <= j < i + run_len(s, i, pred) ==> pred(#[trigger] s[j]),
        i + run_len(s, i, pred) < s.len() ==> !pred(s[i + run_len(s, i, pred)]),
    decreases s.len() - i,
{
    if i < s.len() && pred(s[i]) {
        lemma_run_len(s, i + 1, pred);
    }
}

fn scan_hex_run(s: &[char], i: usize) -> (r: usize)
    requires
        i <= s@.len(),
    ensures
        i <= r <= s@.len(),
        r - i == hex_run(s@, i as int),
{
    let mut k = i;
    while k < s.len() && hex_dash(s[k])
        invariant
            i <= k <= s@.len(),
            hex_run(s@, i as int) == (k - i) + hex_run(s@, k as int),
        decreases s@.len() - k,
    {
        k = k + 1;
    }
    k
}

fn scan_word_run(s: &[char], i: usize) -> (r: usize)
    requires
        i <= s@.len(),
    ensures
        i <= r <= s@.len(),
        r - i == word_run(s@, i as int),
{
    let mut k = i;
    while k < s.len() && word_char(s[k])
        invariant
            i <= k <= s@.len(),
            word_run(s@, i as int) == (k - i) + word_run(s@, k as int),
        decreases s@.len() - k,
    {
        k = k + 1;
    }
    k
}

fn scan_no_comma_run(s: &[char], i: usize) -> (r: usize)
    requires
        i <= s@.len(),
    ensures
        i <= r <= s@.len(),
        r - i == no_comma_run(s@, i as int),
{
    let mut k = i;
    while k < s.len() && s[k] != ','
        invariant
            i <= k <= s@.len(),
            no_comma_run(s@, i as int) == (k - i) + no_comma_run(s@, k as int),
        decreases s@.len() - k,
    {
        k = k + 1;
    }
    k
}

/// No line feed in `s[a..b]`.
fn newline_free(s: &[char], a: usize, b: usize) -> (r: bool)
    requires
        a <= b <= s@.len(),
    ensures
        r == no_newline(s@.subrange(a as int, b as int)),
{
    let mut i = a;
    while i < b
        invariant
            a <= i <= b <= s@.len(),
            forall|j: int| a <= j < i ==> s@[j] != '\n',
        decreases b - i,
    {
        if s[i] == '\n' {
            assert(s@.subrange(a as int, b as int)[i - a] == '\n');
            return false;
        }
        i = i + 1;
    }
    assert forall|j: int| 0 <= j < s@.subrange(a as int, b as int).len() implies #[trigger] s@.subrange(
        a as int,
        b as int,
    )[j] != '\n' by {
        assert(s@.subrange(a as int, b as int)[j] == s@[a + j]);
    }
    true
}

// ------------------------------------------------------------------ line end

/// Length of `s` once trailing `\r` and `\n` are removed.
pub open spec fn crlf_trim_len(s: Seq<char>) -> nat
    decreases s.len(),
{
    if s.len() == 0 {
        0
    } else if s.last() == '\r' || s.last() == '\n' {
        crlf_trim_len(s.drop_last())
    } else {
        s.len()
    }
}

/// `str::trim_end_matches(['\r', '\n'])`
pub open spec fn strip_line_end(s: Seq<char>) -> Seq<char> {
    s.take(crlf_trim_len(s) as int)
}

fn crlf_trim_index(s: &[char]) -> (r: usize)
    ensures
        r == crlf_trim_len(s@),
        r <= s@.len(),
{
    let mut k = s.len();
    assert(s@.take(s@.len() as int) =~= s@);
    while k > 0 && (s[k - 1] == '\r' || s[k - 1] == '\n')
        invariant
            k <= s@.len(),
            crlf_trim_len(s@) == crlf_trim_len(s@.take(k as int)),
        decreases k,
    {
        assert(s@.take(k as int).drop_last() =~= s@.take(k - 1));
        k = k - 1;
    }
    k
}

// ------------------------------------------------------------------ timestamp

pub open spec fn ascii_digits_at(s: Seq<char>, i: int, n: int) -> bool {
    forall|j: int| i <= j < i + n ==> is_ascii_digit(#[trigger] s[j])
}

pub open spec fn num2(s: Seq<char>, i: int) -> int {
    digit_value(s[i]) * 10 + digit_value(s[i + 1])
}

pub open spec fn num4(s: Seq<char>, i: int) -> int {
    num2(s, i) * 100 + num2(s, i + 2)
}

/// `dddd.dd.dd dd:dd:dd` with ASCII digits at the start of `s`.
pub open spec fn timestamp_layout(s: Seq<char>) -> bool {
    &&& s.len() >= 19
    &&& ascii_digits_at(s, 0, 4)
    &&& s[4] == '.'
    &&& ascii_digits_at(s, 5, 2)
    &&& s[7] == '.'
    &&& ascii_digits_at(s, 8, 2)
    &&& s[10] == ' '
    &&& ascii_digits_at(s, 11, 2)
    &&& s[13] == ':'
    &&& ascii_digits_at(s, 14, 2)
    &&& s[16] == ':'
    &&& ascii_digits_at(s, 17, 2)
}

/// The `yyyy.MM.dd HH:mm:ss` timestamp at the start of a line, if it is present and
/// denotes a real calendar date and time; second 60 is a leap second.
pub open spec fn log_timestamp(s: Seq<char>) -> Option<NaiveLocal> {
    if timestamp_layout(s) && date_valid(num4(s, 0), num2(s, 5), num2(s, 8)) && num2(s, 11) <= 23
        && num2(s, 14) <= 59 && num2(s, 17) <= 60 {
        let sec = num2(s, 17);
        Some(
            NaiveLocal {
                year: num4(s, 0) as i32,
                month: num2(s, 5) as u32,
                day: num2(s, 8) as u32,
                hour: num2(s, 11) as u32,
                minute: num2(s, 14) as u32,
                second: if sec == 60 {
                    59
                } else {
                    sec as u32
                },
                nanosecond: if sec == 60 {
                    1_000_000_000
                } else {
                    0
                },
            },
        )
    } else {
        None
    }
}

fn ascii_digit(c: char) -> (r: Option<u32>)
    ensures
        r is Some <==> is_ascii_digit(c),
        r matches Some(v) ==> v == digit_value(c) && v < 10,
{
    if '0' <= c && c <= '9' {
        Some(c as u32 - 48)
    } else {
        None
    }
}

pub(crate) fn two_at(s: &[char], i: usize) -> (r: Option<u32>)
    requires
        i + 2 <= s@.len(),
    ensures
        r is Some <==> ascii_digits_at(s@, i as int, 2),
        r matches Some(v) ==> v == num2(s@, i as int) && v < 100,
{
    let a = ascii_digit(s[i]);
    let b = ascii_digit(s[i + 1]);
    match (a, b) {
        (Some(x), Some(y)) => Some(x * 10 + y),
        _ => {
            proof {
                if a is None {
                    assert(!is_ascii_digit(s@[i as int]));
                } else {
                    assert(!is_ascii_digit(s@[i + 1]));
                }
            }
            None
        },
    }
}

fn parse_timestamp(s: &[char]) -> (r: Option<NaiveLocal>)
    ensures
        r == log_timestamp(s@),
        r matches Some(n) ==> n.valid(),
{
    if s.len() < 19 || s[4] != '.' || s[7] != '.' || s[10] != ' ' || s[13] != ':' || s[16]
        != ':' {
        return None;
    }
    let y1 = two_at(s, 0);
    let y2 = two_at(s, 2);
    let mo = two_at(s, 5);
    let d = two_at(s, 8);
    let h = two_at(s, 11);
    let mi = two_at(s, 14);
    let se = two_at(s, 17);
    match (y1, y2, mo, d, h, mi, se) {
        (Some(y1), Some(y2), Some(mo), Some(d), Some(h), Some(mi), Some(se)) => {
            proof {
                assert(ascii_digits_at(s@, 0, 4));
            }
            let year: i32 = (y1 * 100 + y2) as i32;
            if !is_valid_date(year, mo, d) || h > 23 || mi > 59 || se > 60 {
                return None;
            }
            let second: u32 = if se == 60 {
                59
            } else {
                se
            };
            let nanosecond: u32 = if se == 60 {
                1_000_000_000
            } else {
                0
            };
            Some(
                NaiveLocal {
                    year,
                    month: mo,
                    day: d,
                    hour: h,
                    minute: mi,
                    second,
                    nanosecond,
                },
            )
        },
        _ => {
            proof {
                if y1 is None || y2 is None {
                    if y1 is None {
                        let j = choose|j: int| 0 <= j < 2 && !is_ascii_digit(#[trigger] s@[j]);
                        assert(!is_ascii_digit(s@[j]));
                    } else {
                        let j = choose|j: int| 2 <= j < 4 && !is_ascii_digit(#[trigger] s@[j]);
                        assert(!is_ascii_digit(s@[j]));
                    }
                }
            }
            None
        },
    }
}

// ------------------------------------------------------------------ `(.+?)\s*$`

/// Length of the capture of `(.+?)\s*$` on `r`: up to the last non-white-space
/// character, and at least one character.
pub open spec fn lazy_tail_len(r: Seq<char>) -> int {
    if trim_end_len(r) >= 1 {
        trim_end_len(r) as int
    } else {
        1
    }
}

/// What `(.+?)\s*$` captures when matched at the start of `r`.
pub open spec fn lazy_tail(r: Seq<char>) -> Option<Seq<char>> {
    if r.len() >= 1 && no_newline(r.take(lazy_tail_len(r))) {
        Some(r.take(lazy_tail_len(r)))
    } else {
        None
    }
}

/// End of the `(.+?)\s*$` capture that starts at `start`.
fn lazy_tail_end(s: &[char], start: usize) -> (r: Option<usize>)
    requires
        start <= s@.len(),
    ensures
        match r {
            Some(e) => start < e <= s@.len() && lazy_tail(s@.skip(start as int)) == Some(
                s@.subrange(start as int, e as int),
            ),
            None => lazy_tail(s@.skip(start as int)) is None,
        },
{
    let n = s.len();
    if start >= n {
        return None;
    }
    let e = trim_end_index(s, start, n);
    let k = if e > start {
        e
    } else {
        start + 1
    };
    proof {
        assert(s@.skip(start as int) =~= s@.subrange(start as int, n as int));
        assert(s@.skip(start as int).take(k - start) =~= s@.subrange(start as int, k as int));
    }
    if newline_free(s, start, k) {
        Some(k)
    } else {
        None
    }
}

/// `lit(.+?)\s*$` matches at `p`.
pub open spec fn tail_match_at(s: Seq<char>, lit: Seq<char>, p: int) -> bool {
    starts_at(s, p, lit) && lazy_tail(s.skip(p + lit.len())) is Some
}

pub open spec fn first_tail_match(s: Seq<char>, lit: Seq<char>, from: int) -> Option<int> {
    first_from(from, s.len() as int, |p: int| tail_match_at(s, lit, p))
}

/// What `lit(.+?)\s*$` captures on `s` (leftmost match).
pub open spec fn tail_capture(s: Seq<char>, lit: Seq<char>) -> Option<Seq<char>> {
    match first_tail_match(s, lit, 0) {
        Some(p) => lazy_tail(s.skip(p + lit.len())),
        None => None,
    }
}

fn find_tail_capture(s: &[char], lit: &[char]) -> (r: Option<(usize, usize)>)
    ensures
        match r {
            Some(ab) => ab.0 < ab.1 <= s@.len() && tail_capture(s@, lit@) == Some(
                s@.subrange(ab.0 as int, ab.1 as int),
            ),
            None => tail_capture(s@, lit@) is None,
        },
{
    let n = s.len();
    let mut p: usize = 0;
    while p < n
        invariant
            p <= n == s@.len(),
            first_tail_match(s@, lit@, 0) == first_tail_match(s@, lit@, p as int),
        decreases n - p,
    {
        if matches_at(s, p, lit) {
            let start = p + lit.len();
            match lazy_tail_end(s, start) {
                Some(e) => {
                    return Some((start, e));
                },
                None => {},
            }
        }
        p = p + 1;
    }
    None
}


// ------------------------------------------------------------------ RoomJoining

/// `\[Behaviour\] Joining (wrld_[0-9a-fA-F\-]+):(.+?)\s*$` matches at `p`.
pub open spec fn joining_at(s: Seq<char>, p: int) -> bool {
    let lit = "[Behaviour] Joining "@;
    let q = p + lit.len() + "wrld_"@.len();
    let r = hex_run(s, q);
    &&& starts_at(s, p, lit)
    &&& starts_at(s, p + lit.len(), "wrld_"@)
    &&& r >= 1
    &&& q + r < s.len()
    &&& s[q + r] == ':'
    &&& lazy_tail(s.skip(q + r + 1)) is Some
}

pub open spec fn first_joining(s: Seq<char>, from: int) -> Option<int> {
    first_from(from, s.len() as int, |p: int| joining_at(s, p))
}

/// `(world_id, instance_id)` captured by the joining pattern.
pub open spec fn joining_capture(s: Seq<char>) -> Option<(Seq<char>, Seq<char>)> {
    match first_joining(s, 0) {
        Some(p) => {
            let lit = "[Behaviour] Joining "@;
            let q = p + lit.len() + "wrld_"@.len();
            let r = hex_run(s, q);
            Some((s.subrange(p + lit.len(), q + r), lazy_tail(s.skip(q + r + 1))->0))
        },
        None => None,
    }
}

fn find_joining(s: &[char], lit: &[char], wrld: &[char]) -> (r: Option<(usize, usize, usize, usize)>)
    requires
        lit@ == "[Behaviour] Joining "@,
        wrld@ == "wrld_"@,
    ensures
        match r {
            Some(x) => x.0 <= x.1 <= s@.len() && x.2 <= x.3 <= s@.len() && joining_capture(s@)
                == Some((s@.subrange(x.0 as int, x.1 as int), s@.subrange(x.2 as int, x.3 as int))),
            None => joining_capture(s@) is None,
        },
{
    let n = s.len();
    let mut p: usize = 0;
    while p < n
        invariant
            p <= n == s@.len(),
            lit@ == "[Behaviour] Joining "@,
            wrld@ == "wrld_"@,
            first_joining(s@, 0) == first_joining(s@, p as int),
        decreases n - p,
    {
        if matches_at(s, p, lit) && matches_at(s, p + lit.len(), wrld) {
            let q = p + lit.len() + wrld.len();
            let e = scan_hex_run(s, q);
            if e > q && e < n && s[e] == ':' {
                match lazy_tail_end(s, e + 1) {
                    Some(t) => {
                        return Some((p + lit.len(), e, e + 1, t));
                    },
                    None => {},
                }
            }
        }
        p = p + 1;
    }
    None
}

// ------------------------------------------------------------------ Notification

/// `type:(\w+)` matches at `b`.
pub open spec fn type_at(s: Seq<char>, b: int) -> bool {
    starts_at(s, b, "type:"@) && word_run(s, b + "type:"@.len()) >= 1
}

/// `.*?type:(\w+)` from `e`: the first `type:` reachable without crossing a line feed.
pub open spec fn type_from(s: Seq<char>, e: int) -> Option<int> {
    first_from(e, s.len() as int, |b: int| no_newline(s.subrange(e, b)) && type_at(s, b))
}

/// `([^,]+).*?type:(\w+)` from `q`: the end of the sender capture, tried longest first.
pub open spec fn sender_end(s: Seq<char>, q: int) -> Option<int> {
    first_down(q + 1, q + no_comma_run(s, q), |e: int| type_from(s, e) is Some)
}

pub open spec fn from_at(s: Seq<char>, a0: int, a: int) -> bool {
    &&& no_newline(s.subrange(a0, a))
    &&& starts_at(s, a, "from username:"@)
    &&& sender_end(s, a + "from username:"@.len()) is Some
}

/// `.*?from username:...` from `a0`.
pub open spec fn from_search(s: Seq<char>, a0: int) -> Option<int> {
    first_from(a0, s.len() as int, |a: int| from_at(s, a0, a))
}

pub open spec fn notification_at(s: Seq<char>, p: int) -> bool {
    starts_at(s, p, "Received Notification:"@) && from_search(
        s,
        p + "Received Notification:"@.len(),
    ) is Some
}

pub open spec fn first_notification(s: Seq<char>, from: int) -> Option<int> {
    first_from(from, s.len() as int, |p: int| notification_at(s, p))
}

/// `(trimmed sender, type)` captured by the notification pattern.
pub open spec fn notification_capture(s: Seq<char>) -> Option<(Seq<char>, Seq<char>)> {
    match first_notification(s, 0) {
        Some(p) => {
            let a = from_search(s, p + "Received Notification:"@.len())->0;
            let q = a + "from username:"@.len();
            let e = sender_end(s, q)->0;
            let b = type_from(s, e)->0;
            let t = b + "type:"@.len();
            Some((trim(s.subrange(q, e)), s.subrange(t, t + word_run(s, t))))
        },
        None => None,
    }
}

fn find_type(s: &[char], e: usize, ty: &[char]) -> (r: Option<usize>)
    requires
        e <= s@.len(),
        ty@ == "type:"@,
    ensures
        opt_int(r) == type_from(s@, e as int),
        r matches Some(b) ==> b + ty@.len() <= s@.len(),
{
    let n = s.len();
    let mut b = e;
    while b < n
        invariant
            e <= b <= n == s@.len(),
            ty@ == "type:"@,
            type_from(s@, e as int) == first_from(
                b as int,
                n as int,
                |x: int| no_newline(s@.subrange(e as int, x)) && type_at(s@, x),
            ),
        decreases n - b,
    {
        if newline_free(s, e, b) && matches_at(s, b, ty) {
            let t = b + ty.len();
            let w = scan_word_run(s, t);
            if w > t {
                return Some(b);
            }
        }
        b = b + 1;
    }
    None
}

fn find_sender_end(s: &[char], q: usize, ty: &[char]) -> (r: Option<usize>)
    requires
        q <= s@.len(),
        ty@ == "type:"@,
    ensures
        opt_int(r) == sender_end(s@, q as int),
        r matches Some(e) ==> q < e <= s@.len(),
{
    let big_e = scan_no_comma_run(s, q);
    let mut e = big_e;
    while e > q
        invariant
            q <= e <= big_e <= s@.len(),
            big_e - q == no_comma_run(s@, q as int),
            ty@ == "type:"@,
            sender_end(s@, q as int) == first_down(
                q + 1,
                e as int,
                |x: int| type_from(s@, x) is Some,
            ),
        decreases e,
    {
        match find_type(s, e, ty) {
            Some(_) => {
                return Some(e);
            },
            None => {},
        }
        e = e - 1;
    }
    None
}

fn find_from_username(s: &[char], a0: usize, from_lit: &[char], ty: &[char]) -> (r: Option<usize>)
    requires
        a0 <= s@.len(),
        from_lit@ == "from username:"@,
        ty@ == "type:"@,
    ensures
        opt_int(r) == from_search(s@, a0 as int),
        r matches Some(a) ==> a + from_lit@.len() <= s@.len(),
{
    let n = s.len();
    let mut a = a0;
    while a < n
        invariant
            a0 <= a <= n == s@.len(),
            from_lit@ == "from username:"@,
            ty@ == "type:"@,
            from_search(s@, a0 as int) == first_from(
                a as int,
                n as int,
                |x: int| from_at(s@, a0 as int, x),
            ),
        decreases n - a,
    {
        if newline_free(s, a0, a) && matches_at(s, a, from_lit) {
            match find_sender_end(s, a + from_lit.len(), ty) {
                Some(_) => {
                    return Some(a);
                },
                None => {},
            }
        }
        a = a + 1;
    }
    None
}

fn find_notification(s: &[char]) -> (r: Option<(usize, usize, usize, usize)>)
    ensures
        match r {
            Some(x) => x.0 <= x.1 <= s@.len() && x.2 <= x.3 <= s@.len() && notification_capture(
                s@,
            ) == Some((trim(s@.subrange(x.0 as int, x.1 as int)), s@.subrange(x.2 as int, x.3 as int))),
            None => notification_capture(s@) is None,
        },
{
    let recv = chars_of("Received Notification:");
    let from_lit = chars_of("from username:");
    let ty = chars_of("type:");
    let n = s.len();
    let mut p: usize = 0;
    while p < n
        invariant
            p <= n == s@.len(),
            recv@ == "Received Notification:"@,
            from_lit@ == "from username:"@,
            ty@ == "type:"@,
            first_notification(s@, 0) == first_notification(s@, p as int),
        decreases n - p,
    {
        if matches_at(s, p, recv.as_slice()) {
            match find_from_username(s, p + recv.len(), from_lit.as_slice(), ty.as_slice()) {
                Some(a) => {
                    let ghost a0 = (p + recv@.len()) as int;
                    proof {
                        lemma_first_from(a0, n as int, |x: int| from_at(s@, a0, x));
                    }
                    let q = a + from_lit.len();
                    let e = find_sender_end(s, q, ty.as_slice()).unwrap();
                    proof {
                        lemma_first_down(
                            q + 1,
                            q + no_comma_run(s@, q as int),
                            |x: int| type_from(s@, x) is Some,
                        );
                    }
                    let b = find_type(s, e, ty.as_slice()).unwrap();
                    let t = b + ty.len();
                    let w = scan_word_run(s, t);
                    return Some((q, e, t, w));
                },
                None => {},
            }
        }
        p = p + 1;
    }
    None
}

// ------------------------------------------------------------------ VideoUrl

/// `(.+?)'` from `st`: the first quote after at least one character, without a line feed.
pub open spec fn quote_end(s: Seq<char>, st: int) -> Option<int> {
    first_from(st + 1, s.len() as int, |j: int| no_newline(s.subrange(st, j)) && s[j] == '\'')
}

pub open spec fn attempt_at(s: Seq<char>, a0: int, a: int) -> bool {
    &&& no_newline(s.subrange(a0, a))
    &&& starts_at(s, a, "Attempting to resolve URL '"@)
    &&& quote_end(s, a + "Attempting to resolve URL '"@.len()) is Some
}

pub open spec fn attempt_search(s: Seq<char>, a0: int) -> Option<int> {
    first_from(a0, s.len() as int, |a: int| attempt_at(s, a0, a))
}

pub open spec fn video_at(s: Seq<char>, p: int) -> bool {
    starts_at(s, p, "[Video Playback]"@) && attempt_search(s, p + "[Video Playback]"@.len()) is Some
}

pub open spec fn first_video(s: Seq<char>, from: int) -> Option<int> {
    first_from(from, s.len() as int, |p: int| video_at(s, p))
}

/// The URL captured by the video pattern.
pub open spec fn video_capture(s: Seq<char>) -> Option<Seq<char>> {
    match first_video(s, 0) {
        Some(p) => {
            let a = attempt_search(s, p + "[Video Playback]"@.len())->0;
            let st = a + "Attempting to resolve URL '"@.len();
            Some(s.subrange(st, quote_end(s, st)->0))
        },
        None => None,
    }
}

fn find_quote(s: &[char], st: usize) -> (r: Option<usize>)
    requires
        st <= s@.len(),
    ensures
        opt_int(r) == quote_end(s@, st as int),
        r matches Some(j) ==> st < j < s@.len(),
{
    let n = s.len();
    if st >= n {
        return None;
    }
    let mut j = st + 1;
    while j < n
        invariant
            st < j <= n == s@.len(),
            quote_end(s@, st as int) == first_from(
                j as int,
                n as int,
                |x: int| no_newline(s@.subrange(st as int, x)) && s@[x] == '\'',
            ),
        decreases n - j,
    {
        if s[j] == '\'' && newline_free(s, st, j) {
            return Some(j);
        }
        j = j + 1;
    }
    None
}

fn find_attempt(s: &[char], a0: usize, att: &[char]) -> (r: Option<usize>)
    requires
        a0 <= s@.len(),
        att@ == "Attempting to resolve URL '"@,
    ensures
        opt_int(r) == attempt_search(s@, a0 as int),
        r matches Some(a) ==> a + att@.len() <= s@.len(),
{
    let n = s.len();
    let mut a = a0;
    while a < n
        invariant
            a0 <= a <= n == s@.len(),
            att@ == "Attempting to resolve URL '"@,
            attempt_search(s@, a0 as int) == first_from(
                a as int,
                n as int,
                |x: int| attempt_at(s@, a0 as int, x),
            ),
        decreases n - a,
    {
        if newline_free(s, a0, a) && matches_at(s, a, att) {
            match find_quote(s, a + att.len()) {
                Some(_) => {
                    return Some(a);
                },
                None => {},
            }
        }
        a = a + 1;
    }
    None
}

fn find_video(s: &[char]) -> (r: Option<(usize, usize)>)
    ensures
        match r {
            Some(x) => x.0 <= x.1 <= s@.len() && video_capture(s@) == Some(
                s@.subrange(x.0 as int, x.1 as int),
            ),
            None => video_capture(s@) is None,
        },
{
    let vp = chars_of("[Video Playback]");
    let att = chars_of("Attempting to resolve URL '");
    let n = s.len();
    let mut p: usize = 0;
    while p < n
        invariant
            p <= n == s@.len(),
            vp@ == "[Video Playback]"@,
            att@ == "Attempting to resolve URL '"@,
            first_video(s@, 0) == first_video(s@, p as int),
        decreases n - p,
    {
        if matches_at(s, p, vp.as_slice()) {
            match find_attempt(s, p + vp.len(), att.as_slice()) {
                Some(a) => {
                    let ghost a0 = (p + vp@.len()) as int;
                    proof {
                        lemma_first_from(a0, n as int, |x: int| attempt_at(s@, a0, x));
                    }
                    let st = a + att.len();
                    let j = find_quote(s, st).unwrap();
                    return Some((st, j));
                },
                None => {},
            }
        }
        p = p + 1;
    }
    None
}

// ------------------------------------------------------------------ `(usr_xxx)` suffix

/// Length of the run of `[0-9a-fA-F\-]` characters that ends just before `end`.
pub open spec fn hex_run_back(s: Seq<char>, end: int) -> nat
    decreases end,
{
    if end <= 0 || end > s.len() || !is_hex_dash(s[end - 1]) {
        0
    } else {
        1 + hex_run_back(s, end - 1)
    }
}

/// Where `\s*\((usr_[0-9a-fA-F\-]+)\)\s*$` matches in `raw`: `(start, open paren, end of
/// the trimmed text)`.
pub open spec fn user_id_suffix(raw: Seq<char>) -> Option<(int, int, int)> {
    let t = trim_end_len(raw) as int;
    let r = hex_run_back(raw, t - 1) as int;
    let c = t - 1 - r - "(usr_"@.len();
    if t >= 1 && raw[t - 1] == ')' && r >= 1 && c >= 0 && starts_at(raw, c, "(usr_"@) {
        Some((trim_end_len(raw.take(c)) as int, c, t))
    } else {
        None
    }
}

/// `<DisplayName> (usr_xxx)` split into the trimmed name and the user id; without
/// such a suffix, the trimmed input and no id.
pub open spec fn split_user_id_spec(raw: Seq<char>) -> (Seq<char>, Option<Seq<char>>) {
    match user_id_suffix(raw) {
        Some((p, c, t)) => (trim(raw.take(p)), Some(raw.subrange(c + 1, t - 1))),
        None => (trim(raw), None),
    }
}

/// The hex run that ends at `start + k`, over `k` characters of `[0-9a-fA-F-]` that
/// follow a character outside the class, is `k` long.
proof fn lemma_hex_run_over(raw: Seq<char>, start: int, k: int)
    requires
        1 <= start,
        0 <= k,
        start + k <= raw.len(),
        !(('0' <= raw[start - 1] && raw[start - 1] <= '9') || ('a' <= raw[start - 1] && raw[start
            - 1] <= 'f') || ('A' <= raw[start - 1] && raw[start - 1] <= 'F') || raw[start - 1]
            == '-'),
        forall|j: int|
            start <= j < start + k ==> ('0' <= #[trigger] raw[j] && raw[j] <= '9') || ('a' <= raw[j]
                && raw[j] <= 'f') || ('A' <= raw[j] && raw[j] <= 'F') || raw[j] == '-',
    ensures
        hex_run_back(raw, start + k) == k,
    decreases k,
{
    if k > 0 {
        lemma_hex_run_over(raw, start, k - 1);
    }
}

/// Law: a display name followed by ` (usr_<id>)`, where the id is a non-empty run of
/// `[0-9a-fA-F-]` and the name has no trailing white space, splits into the trimmed name
/// and the user id `usr_<id>`, whatever hex letters or digits the id holds.
pub proof fn lemma_split_user_id_suffix(name: Seq<char>, h: Seq<char>)
    requires
        h.len() > 0,
        forall|j: int|
            0 <= j < h.len() ==> ('0' <= #[trigger] h[j] && h[j] <= '9') || ('a' <= h[j] && h[j]
                <= 'f') || ('A' <= h[j] && h[j] <= 'F') || h[j] == '-',
        name.len() == 0 || !crate::text::is_ws(name.last()),
    ensures
        split_user_id_spec(name + " (usr_"@ + h + ")"@) == (trim(name), Some("usr_"@ + h)),
{
    reveal_strlit(" (usr_");
    reveal_strlit("(usr_");
    reveal_strlit("usr_");
    reveal_strlit(")");
    let raw = name + " (usr_"@ + h + ")"@;
    let nl = name.len() as int;
    let t = raw.len() as int;
    assert(t == nl + 7 + h.len());
    assert(raw[t - 1] == ')');
    assert(trim_end_len(raw) == t);
    let start = nl + 6;
    assert(raw[start - 1] == '_');
    assert forall|j: int| start <= j < start + h.len() implies ('0' <= #[trigger] raw[j] && raw[j]
        <= '9') || ('a' <= raw[j] && raw[j] <= 'f') || ('A' <= raw[j] && raw[j] <= 'F') || raw[j]
        == '-' by {
        assert(raw[j] == h[j - start]);
    }
    lemma_hex_run_over(raw, start, h.len() as int);
    let c = nl + 1;
    assert(raw.subrange(c, c + 5) =~= "(usr_"@);
    assert(starts_at(raw, c, "(usr_"@));
    assert(raw.take(c) =~= name.push(' '));
    assert(trim_end_len(name.push(' ')) == trim_end_len(name)) by {
        assert(name.push(' ').drop_last() =~= name);
    }
    assert(trim_end_len(name) == nl);
    assert(raw.take(nl) =~= name);
    assert(raw.subrange(c + 1, t - 1) =~= "usr_"@ + h);
}

/// Start of the `[0-9a-fA-F\-]` run ending just before `end`, inside the window `s[lo..hi]`.
fn scan_hex_run_back(s: &[char], lo: usize, hi: usize, end: usize) -> (r: usize)
    requires
        lo <= end <= hi <= s@.len(),
    ensures
        lo <= r <= end,
        end - r == hex_run_back(s@.subrange(lo as int, hi as int), end - lo),
{
    let ghost w = s@.subrange(lo as int, hi as int);
    let mut k = end;
    while k > lo && hex_dash(s[k - 1])
        invariant
            lo <= k <= end <= hi <= s@.len(),
            w == s@.subrange(lo as int, hi as int),
            hex_run_back(w, end - lo) == (end - k) + hex_run_back(w, k - lo),
        decreases k,
    {
        assert(w[k - lo - 1] == s@[k - 1]);
        k = k - 1;
    }
    if k > lo {
        assert(w[k - lo - 1] == s@[k - 1]);
    }
    k
}

/// Splits `s[a..b]` as `split_user_id_spec` does.
fn split_user_id(s: &[char], a: usize, b: usize, usr: &[char]) -> (r: (String, Option<String>))
    requires
        a <= b <= s@.len(),
        usr@ == "(usr_"@,
    ensures
        r.0@ == split_user_id_spec(s@.subrange(a as int, b as int)).0,
        opt_view(r.1) == split_user_id_spec(s@.subrange(a as int, b as int)).1,
{
    let ghost raw = s@.subrange(a as int, b as int);
    let t = trim_end_index(s, a, b);
    if t > a && s[t - 1] == ')' {
        let k = scan_hex_run_back(s, a, b, t - 1);
        if k < t - 1 && k >= a && k - a >= usr.len() {
            let c = k - usr.len();
            if matches_at(s, c, usr) {
                let p = trim_end_index(s, a, c);
                proof {
                    assert(raw[t - 1 - a] == ')');
                    assert(raw.subrange(c - a, c - a + usr@.len()) =~= s@.subrange(
                        c as int,
                        c + usr@.len(),
                    ));
                    assert(raw.take(c - a) =~= s@.subrange(a as int, c as int));
                    assert(raw.take(p - a) =~= s@.subrange(a as int, p as int));
                    assert(raw.subrange(c - a + 1, t - 1 - a) =~= s@.subrange(c + 1, t - 1));
                }
                let name = trimmed_string(s, a, p);
                let id = substring(s, c + 1, t - 1);
                return (name, Some(id));
            } else {
                proof {
                    if starts_at(raw, c - a, "(usr_"@) {
                        assert(raw.subrange(c - a, c - a + usr@.len()) =~= s@.subrange(
                            c as int,
                            c + usr@.len(),
                        ));
                    }
                }
            }
        }
    } else {
        proof {
            if t > a {
                assert(raw[t - 1 - a] == s@[t - 1]);
            }
        }
    }
    (trimmed_string(s, a, b), None)
}

// ------------------------------------------------------------------ classification

/// The event of a (line-end-stripped) line: the first pattern that matches, in order.
pub open spec fn classify_spec(s: Seq<char>) -> EventView {
    if tail_capture(s, "[Behaviour] Entering Room: "@) is Some {
        EventView::RoomEntering { world_name: tail_capture(s, "[Behaviour] Entering Room: "@)->0 }
    } else if joining_capture(s) is Some {
        let jc = joining_capture(s)->0;
        EventView::RoomJoining { world_id: jc.0, instance_id: jc.1 }
    } else if tail_capture(s, "User Authenticated: "@) is Some {
        EventView::UserAuthenticated { display_name: tail_capture(s, "User Authenticated: "@)->0 }
    } else if tail_capture(s, "[Behaviour] OnPlayerJoined "@) is Some {
        let sp = split_user_id_spec(tail_capture(s, "[Behaviour] OnPlayerJoined "@)->0);
        EventView::PlayerJoined { display_name: sp.0, user_id: sp.1 }
    } else if tail_capture(s, "[Behaviour] OnPlayerLeft "@) is Some {
        let sp = split_user_id_spec(tail_capture(s, "[Behaviour] OnPlayerLeft "@)->0);
        EventView::PlayerLeft { display_name: sp.0, user_id: sp.1 }
    } else if notification_capture(s) is Some {
        let nc = notification_capture(s)->0;
        EventView::Notification { sender: nc.0, ntype: nc.1 }
    } else if video_capture(s) is Some {
        EventView::VideoUrl { url: video_capture(s)->0 }
    } else {
        EventView::UnparsableLine { reason: "no_pattern_match"@ }
    }
}

/// A log line: its end-of-line characters dropped, it must be non-empty and start with a
/// valid timestamp; its event is then `classify_spec` of the stripped line.
pub open spec fn parse_line_spec(line: Seq<char>) -> Option<(NaiveLocal, EventView)> {
    let l = strip_line_end(line);
    if l.len() == 0 {
        None
    } else {
        match log_timestamp(l) {
            Some(n) => Some((n, classify_spec(l))),
            None => None,
        }
    }
}

/// A literal starting with `[` that follows a text holding no `[` is first matched right
/// after that text, and captures the rest (one line, not ending in white space).
proof fn lemma_tail_capture_after(pre: Seq<char>, lit: Seq<char>, w: Seq<char>)
    requires
        lit.len() > 0,
        lit[0] == '[',
        forall|j: int| 0 <= j < pre.len() ==> #[trigger] pre[j] != '[',
        w.len() > 0,
        no_newline(w),
        !crate::text::is_ws(w.last()),
    ensures
        tail_capture(pre + lit + w, lit) == Some(w),
{
    let s = pre + lit + w;
    let k = pre.len() as int;
    assert forall|p: int| 0 <= p < k implies !#[trigger] tail_match_at(s, lit, p) by {
        if starts_at(s, p, lit) {
            assert(s.subrange(p, p + lit.len())[0] == s[p]);
            assert(s[p] == pre[p]);
        }
    }
    assert(s.subrange(k, k + lit.len()) =~= lit);
    assert(s.skip(k + lit.len()) =~= w);
    assert(trim_end_len(w) == w.len());
    assert(w.take(w.len() as int) =~= w);
    assert(tail_match_at(s, lit, k));
    crate::text::lemma_first_from_at(0, s.len() as int, |p: int| tail_match_at(s, lit, p), k);
}

/// Law: a line whose text before `[Behaviour] Entering Room: ` holds no `[` (such as the
/// timestamp and level of a VRChat log line) is classified as entering the room named by
/// the rest of the line, whatever that name holds (one line, not ending in white space).
pub proof fn lemma_entering_room_is_classified(pre: Seq<char>, w: Seq<char>)
    requires
        forall|j: int| 0 <= j < pre.len() ==> #[trigger] pre[j] != '[',
        w.len() > 0,
        no_newline(w),
        !crate::text::is_ws(w.last()),
    ensures
        classify_spec(pre + "[Behaviour] Entering Room: "@ + w) == (EventView::RoomEntering {
            world_name: w,
        }),
{
    reveal_strlit("[Behaviour] Entering Room: ");
    lemma_tail_capture_after(pre, "[Behaviour] Entering Room: "@, w);
}

/// Law: a line whose text before `[Behaviour] OnPlayerJoined ` holds no `[` and that
/// neither enters a room nor joins a world, nor holds `User Authenticated: `, is a player
/// joining; the display name and user id are the split of the rest of the line.
pub proof fn lemma_player_joined_is_classified(pre: Seq<char>, w: Seq<char>)
    requires
        forall|j: int| 0 <= j < pre.len() ==> #[trigger] pre[j] != '[',
        w.len() > 0,
        no_newline(w),
        !crate::text::is_ws(w.last()),
        tail_capture(pre + "[Behaviour] OnPlayerJoined "@ + w, "[Behaviour] Entering Room: "@) is None,
        joining_capture(pre + "[Behaviour] OnPlayerJoined "@ + w) is None,
        tail_capture(pre + "[Behaviour] OnPlayerJoined "@ + w, "User Authenticated: "@) is None,
    ensures
        classify_spec(pre + "[Behaviour] OnPlayerJoined "@ + w) == (EventView::PlayerJoined {
            display_name: split_user_id_spec(w).0,
            user_id: split_user_id_spec(w).1,
        }),
{
    reveal_strlit("[Behaviour] OnPlayerJoined ");
    lemma_tail_capture_after(pre, "[Behaviour] OnPlayerJoined "@, w);
}

fn classify(s: &[char]) -> (r: LogEvent)
    ensures
        r@ == classify_spec(s@),
{
    let entering = chars_of("[Behaviour] Entering Room: ");
    match find_tail_capture(s, entering.as_slice()) {
        Some((a, b)) => {
            return LogEvent::RoomEntering { world_name: substring(s, a, b) };
        },
        None => {},
    }
    let joining = chars_of("[Behaviour] Joining ");
    let wrld = chars_of("wrld_");
    match find_joining(s, joining.as_slice(), wrld.as_slice()) {
        Some((a, b, c, d)) => {
            return LogEvent::RoomJoining {
                world_id: substring(s, a, b),
                instance_id: substring(s, c, d),
            };
        },
        None => {},
    }
    let auth = chars_of("User Authenticated: ");
    match find_tail_capture(s, auth.as_slice()) {
        Some((a, b)) => {
            return LogEvent::UserAuthenticated { display_name: substring(s, a, b) };
        },
        None => {},
    }
    let usr = chars_of("(usr_");
    let joined = chars_of("[Behaviour] OnPlayerJoined ");
    match find_tail_capture(s, joined.as_slice()) {
        Some((a, b)) => {
            let (display_name, user_id) = split_user_id(s, a, b, usr.as_slice());
            return LogEvent::PlayerJoined { display_name, user_id };
        },
        None => {},
    }
    let left = chars_of("[Behaviour] OnPlayerLeft ");
    match find_tail_capture(s, left.as_slice()) {
        Some((a, b)) => {
            let (display_name, user_id) = split_user_id(s, a, b, usr.as_slice());
            return LogEvent::PlayerLeft { display_name, user_id };
        },
        None => {},
    }
    match find_notification(s) {
        Some((q, e, t, w)) => {
            return LogEvent::Notification {
                sender: trimmed_string(s, q, e),
                ntype: substring(s, t, w),
            };
        },
        None => {},
    }
    match find_video(s) {
        Some((a, b)) => {
            return LogEvent::VideoUrl { url: substring(s, a, b) };
        },
        None => {},
    }
    LogEvent::UnparsableLine { reason: String::from_str("no_pattern_match") }
}

impl ParsedLine {
    pub open spec fn view(self) -> (NaiveLocal, EventView) {
        (self.naive_local, self.event@)
    }
}

pub open spec fn parsed_view(r: Option<ParsedLine>) -> Option<(NaiveLocal, EventView)> {
    match r {
        Some(p) => Some(p.view()),
        None => None,
    }
}

/// Parses one VRChat log line.
///
/// Lines without a leading timestamp (headers, blank lines) give `None`; a
/// timestamped line whose body matches no pattern gives
/// [`LogEvent::UnparsableLine`].
pub fn parse_line(line: &str) -> (r: Option<ParsedLine>)
    ensures
        parsed_view(r) == parse_line_spec(line@),
        r matches Some(p) ==> p.naive_local.valid(),
{
    let mut chars = chars_of(line);
    let n = crlf_trim_index(chars.as_slice());
    chars.truncate(n);
    if chars.len() == 0 {
        return None;
    }
    match parse_timestamp(chars.as_slice()) {
        Some(naive_local) => {
            let event = classify(chars.as_slice());
            Some(ParsedLine { naive_local, event })
        },
        None => None,
    }
}

} // verus!
