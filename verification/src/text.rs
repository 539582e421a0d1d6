//! Character-sequence helpers shared by the parsers and formatters.

use vstd::prelude::*;

verus! {

/// `String::push` appends one character.
pub assume_specification[ String::push ](s: &mut String, ch: char)
    ensures
        final(s)@ == old(s)@.push(ch),
;

/// The first index `i` in `[from, n)` at which `pred` holds, if any.
pub open spec fn first_from(from: int, n: int, pred: spec_fn(int) -> bool) -> Option<int>
    decreases n - from,
{
    if from >= n {
        None
    } else if pred(from) {
        Some(from)
    } else {
        first_from(from + 1, n, pred)
    }
}

/// What `first_from` returns: an index where `pred` holds and before which it never does.
pub proof fn lemma_first_from(from: int, n: int, pred: spec_fn(int) -> bool)
    ensures
        match first_from(from, n, pred) {
            Some(i) => from <= i < n && pred(i) && forall|j: int| from <= j < i ==> !#[trigger] pred(j),
            None => forall|j: int| from <= j < n ==> !#[trigger] pred(j),
        },
    decreases n - from,
{
    if from < n && !pred(from) {
        lemma_first_from(from + 1, n, pred);
    }
}

/// `first_from` finds `i` when `pred` holds there and nowhere before it.
pub proof fn lemma_first_from_at(from: int, n: int, pred: spec_fn(int) -> bool, i: int)
    requires
        from <= i < n,
        pred(i),
        forall|j: int| from <= j < i ==> !#[trigger] pred(j),
    ensures
        first_from(from, n, pred) == Some(i),
    decreases i - from,
{
    if from < i {
        lemma_first_from_at(from + 1, n, pred, i);
    }
}

/// `first_from` finds nothing when `pred` holds nowhere in the range.
pub proof fn lemma_first_from_none(from: int, n: int, pred: spec_fn(int) -> bool)
    requires
        forall|j: int| from <= j < n ==> !#[trigger] pred(j),
    ensures
        first_from(from, n, pred) is None,
    decreases n - from,
{
    if from < n {
        lemma_first_from_none(from + 1, n, pred);
    }
}

/// The largest index `i` in `[lo, hi]` at which `pred` holds, searching downward.
pub open spec fn first_down(lo: int, hi: int, pred: spec_fn(int) -> bool) -> Option<int>
    decreases hi - lo + 1,
{
    if hi < lo {
        None
    } else if pred(hi) {
        Some(hi)
    } else {
        first_down(lo, hi - 1, pred)
    }
}

pub proof fn lemma_first_down(lo: int, hi: int, pred: spec_fn(int) -> bool)
    ensures
        match first_down(lo, hi, pred) {
            Some(i) => lo <= i <= hi && pred(i) && forall|j: int| i < j <= hi ==> !#[trigger] pred(j),
            None => forall|j: int| lo <= j <= hi ==> !#[trigger] pred(j),
        },
    decreases hi - lo + 1,
{
    if hi >= lo && !pred(hi) {
        lemma_first_down(lo, hi - 1, pred);
    }
}

pub open spec fn opt_int(o: Option<usize>) -> Option<int> {
    match o {
        Some(x) => Some(x as int),
        None => None,
    }
}

/// `s` holds `lit` starting at index `p`.
pub open spec fn starts_at(s: Seq<char>, p: int, lit: Seq<char>) -> bool {
    0 <= p && p + lit.len() <= s.len() && s.subrange(p, p + lit.len()) == lit
}

/// `char::is_whitespace`: the character carries the Unicode `White_Space` property.
pub uninterp spec fn unicode_white_space(c: char) -> bool;

/// White space as `str::trim` sees it: in ASCII, tab, line feed, vertical tab, form feed,
/// carriage return and space; beyond ASCII, the Unicode `White_Space` property.
pub open spec fn is_ws(c: char) -> bool {
    if (c as u32) < 128 {
        c == '\t' || c == '\n' || c == '\u{0B}' || c == '\u{0C}' || c == '\r' || c == ' '
    } else {
        unicode_white_space(c)
    }
}

/// `char::is_whitespace`. Its result is named `unicode_white_space`; as documented, the
/// ASCII white space is tab, line feed, vertical tab, form feed, carriage return and space.
#[verifier::external_body]
fn is_ws_char(c: char) -> (b: bool)
    ensures
        b == unicode_white_space(c),
        (c as u32) < 128 ==> (b <==> (c == '\t' || c == '\n' || c == '\u{0B}' || c == '\u{0C}'
            || c == '\r' || c == ' ')),
{
    c.is_whitespace()
}

/// White space as `is_ws` states it.
fn ws_char(c: char) -> (b: bool)
    ensures
        b == is_ws(c),
{
    is_ws_char(c)
}

pub open spec fn all_ws(s: Seq<char>) -> bool {
    forall|i: int| 0 <= i < s.len() ==> is_ws(#[trigger] s[i])
}

pub open spec fn no_newline(s: Seq<char>) -> bool {
    forall|i: int| 0 <= i < s.len() ==> #[trigger] s[i] != '\n'
}

/// Length of `s` once trailing white space is removed.
pub open spec fn trim_end_len(s: Seq<char>) -> nat
    decreases s.len(),
{
    if s.len() == 0 {
        0
    } else if is_ws(s.last()) {
        trim_end_len(s.drop_last())
    } else {
        s.len()
    }
}

/// Number of leading white-space characters of `s`.
pub open spec fn ws_prefix_len(s: Seq<char>) -> nat
    decreases s.len(),
{
    if s.len() == 0 {
        0
    } else if is_ws(s[0]) {
        1 + ws_prefix_len(s.drop_first())
    } else {
        0
    }
}

/// `str::trim_end`: drop trailing white space.
pub open spec fn trim_end(s: Seq<char>) -> Seq<char> {
    s.take(trim_end_len(s) as int)
}

/// `str::trim_start`: drop leading white space.
pub open spec fn trim_start(s: Seq<char>) -> Seq<char> {
    s.skip(ws_prefix_len(s) as int)
}

/// `str::trim`: drop white space at both ends.
pub open spec fn trim(s: Seq<char>) -> Seq<char> {
    trim_start(trim_end(s))
}

pub proof fn lemma_trim_end_len(s: Seq<char>)
    ensures
        trim_end_len(s) <= s.len(),
        all_ws(s.skip(trim_end_len(s) as int)),
        trim_end_len(s) > 0 ==> !is_ws(s[trim_end_len(s) - 1]),
    decreases s.len(),
{
    if s.len() > 0 && is_ws(s.last()) {
        lemma_trim_end_len(s.drop_last());
        let k = trim_end_len(s) as int;
        assert forall|i: int| 0 <= i < s.skip(k).len() implies is_ws(#[trigger] s.skip(k)[i]) by {
            if k + i < s.len() - 1 {
                assert(s.skip(k)[i] == s.drop_last().skip(k)[i]);
            }
        }
    }
}

pub proof fn lemma_ws_prefix_len(s: Seq<char>)
    ensures
        ws_prefix_len(s) <= s.len(),
        all_ws(s.take(ws_prefix_len(s) as int)),
        ws_prefix_len(s) < s.len() ==> !is_ws(s[ws_prefix_len(s) as int]),
    decreases s.len(),
{
    if s.len() > 0 && is_ws(s[0]) {
        lemma_ws_prefix_len(s.drop_first());
        let k = ws_prefix_len(s) as int;
        assert forall|i: int| 0 <= i < k implies is_ws(#[trigger] s.take(k)[i]) by {
            if i > 0 {
                assert(s.take(k)[i] == s.drop_first().take(k - 1)[i - 1]);
            }
        }
    }
}

/// Index one past the last non-white-space character in `s[start..end]` (or `start`).
pub fn trim_end_index(s: &[char], start: usize, end: usize) -> (r: usize)
    requires
        start <= end <= s@.len(),
    ensures
        start <= r <= end,
        r - start == trim_end_len(s@.subrange(start as int, end as int)),
{
    let mut k = end;
    while k > start && ws_char(s[k - 1])
        invariant
            start <= k <= end <= s@.len(),
            trim_end_len(s@.subrange(start as int, end as int)) == trim_end_len(
                s@.subrange(start as int, k as int),
            ),
        decreases k,
    {
        assert(s@.subrange(start as int, k as int).drop_last() =~= s@.subrange(
            start as int,
            k - 1,
        ));
        k = k - 1;
    }
    k
}

/// Index of the first non-white-space character in `s[start..end]` (or `end`).
pub fn trim_start_index(s: &[char], start: usize, end: usize) -> (r: usize)
    requires
        start <= end <= s@.len(),
    ensures
        start <= r <= end,
        r - start == ws_prefix_len(s@.subrange(start as int, end as int)),
{
    let mut k = start;
    while k < end && ws_char(s[k])
        invariant
            start <= k <= end <= s@.len(),
            ws_prefix_len(s@.subrange(start as int, end as int)) == (k - start)
                + ws_prefix_len(s@.subrange(k as int, end as int)),
        decreases end - k,
    {
        assert(s@.subrange(k as int, end as int).drop_first() =~= s@.subrange(
            k + 1,
            end as int,
        ));
        k = k + 1;
    }
    k
}

/// Bounds `(b, e)` such that `s[b..e]` is `s[start..end]` trimmed at both ends.
pub fn trim_bounds(s: &[char], start: usize, end: usize) -> (r: (usize, usize))
    requires
        start <= end <= s@.len(),
    ensures
        start <= r.0 <= r.1 <= end,
        s@.subrange(r.0 as int, r.1 as int) == trim(s@.subrange(start as int, end as int)),
{
    let ghost sub = s@.subrange(start as int, end as int);
    let e = trim_end_index(s, start, end);
    let b = trim_start_index(s, start, e);
    proof {
        assert(trim_end(sub) =~= s@.subrange(start as int, e as int));
        assert(trim(sub) =~= s@.subrange(b as int, e as int));
    }
    (b, e)
}

/// `s[start..end]` with white space trimmed at both ends, as a `String`.
pub fn trimmed_string(s: &[char], start: usize, end: usize) -> (r: String)
    requires
        start <= end <= s@.len(),
    ensures
        r@ == trim(s@.subrange(start as int, end as int)),
{
    let (b, e) = trim_bounds(s, start, end);
    substring(s, b, e)
}

/// `s[from..to]` as a `String`.
pub fn substring(s: &[char], from: usize, to: usize) -> (r: String)
    requires
        from <= to <= s@.len(),
    ensures
        r@ == s@.subrange(from as int, to as int),
{
    let mut r = String::new();
    let mut i = from;
    while i < to
        invariant
            from <= i <= to <= s@.len(),
            r@ == s@.subrange(from as int, i as int),
        decreases to - i,
    {
        r.push(s[i]);
        i = i + 1;
        assert(r@ =~= s@.subrange(from as int, i as int));
    }
    r
}

/// Collects the characters of `s` into a vector.
pub fn chars_of(s: &str) -> (v: Vec<char>)
    ensures
        v@ == s@,
{
    let mut v: Vec<char> = Vec::new();
    for c in it: s.chars()
        invariant
            v@ == it.seq().take(it.index() as int),
    {
        v.push(c);
    }
    v
}

/// Builds a `String` holding exactly the characters of `v`.
pub fn string_from_chars(v: &[char]) -> (s: String)
    ensures
        s@ == v@,
{
    let s = substring(v, 0, v.len());
    assert(v@.subrange(0, v@.len() as int) =~= v@);
    s
}

/// `s` holds `lit` at index `p` (executable check).
pub fn matches_at(s: &[char], p: usize, lit: &[char]) -> (b: bool)
    ensures
        b == starts_at(s@, p as int, lit@),
{
    if lit.len() > s.len() || p > s.len() - lit.len() {
        return false;
    }
    let mut i: usize = 0;
    while i < lit.len()
        invariant
            i <= lit@.len(),
            p + lit.len() <= s.len(),
            forall|j: int| 0 <= j < i ==> s@[p + j] == lit@[j],
        decreases lit.len() - i,
    {
        if s[p + i] != lit[i] {
            assert(s@.subrange(p as int, p + lit@.len())[i as int] != lit@[i as int]);
            return false;
        }
        i = i + 1;
    }
    assert(s@.subrange(p as int, p + lit@.len()) =~= lit@);
    true
}

/// `a` and `b` hold the same characters.
pub fn chars_equal(a: &[char], b: &[char]) -> (r: bool)
    ensures
        r == (a@ == b@),
{
    if a.len() != b.len() {
        return false;
    }
    let mut i: usize = 0;
    while i < a.len()
        invariant
            i <= a@.len(),
            a@.len() == b@.len(),
            forall|j: int| 0 <= j < i ==> a@[j] == b@[j],
        decreases a@.len() - i,
    {
        if a[i] != b[i] {
            return false;
        }
        i = i + 1;
    }
    assert(a@ =~= b@);
    true
}

/// `a` and `b` are the same text.
pub fn str_eq(a: &str, b: &str) -> (r: bool)
    ensures
        r == (a@ == b@),
{
    let x = chars_of(a);
    let y = chars_of(b);
    chars_equal(x.as_slice(), y.as_slice())
}

/// The decimal digit character for `d < 10`.
pub open spec fn digit_char(d: int) -> char {
    (d + 48) as char
}

pub open spec fn is_ascii_digit(c: char) -> bool {
    '0' <= c && c <= '9'
}

pub open spec fn digit_value(c: char) -> int {
    c as int - 48
}

/// Decimal representation of `n` without leading zeros.
pub open spec fn decimal(n: nat) -> Seq<char>
    decreases n,
{
    if n < 10 {
        seq![digit_char(n as int)]
    } else {
        decimal(n / 10).push(digit_char((n % 10) as int))
    }
}

/// `s` left-padded with `'0'` to at least `width` characters.
pub open spec fn zero_pad(s: Seq<char>, width: nat) -> Seq<char> {
    if s.len() >= width {
        s
    } else {
        Seq::new((width - s.len()) as nat, |i: int| '0') + s
    }
}

pub fn digit(d: u64) -> (c: char)
    requires
        d < 10,
    ensures
        c == digit_char(d as int),
{
    let b: u8 = 48u8 + d as u8;
    b as char
}

/// Appends the decimal representation of `n`.
pub fn push_decimal(s: &mut String, n: u64)
    ensures
        final(s)@ == old(s)@ + decimal(n as nat),
    decreases n,
{
    if n >= 10 {
        push_decimal(s, n / 10);
    }
    let c = digit(n % 10);
    s.push(c);
    proof {
        if n >= 10 {
            assert(final(s)@ =~= old(s)@ + decimal(n as nat));
        } else {
            assert(final(s)@ =~= old(s)@ + decimal(n as nat));
        }
    }
}

pub proof fn lemma_decimal_len(n: nat)
    ensures
        decimal(n).len() >= 1,
        n < 10 ==> decimal(n).len() == 1,
        10 <= n < 100 ==> decimal(n).len() == 2,
        100 <= n < 1000 ==> decimal(n).len() == 3,
        1000 <= n < 10000 ==> decimal(n).len() == 4,
    decreases n,
{
    if n >= 10 {
        lemma_decimal_len(n / 10);
    }
}

/// Appends `n` in decimal, left-padded with zeros to at least `width` digits.
pub fn push_padded(s: &mut String, n: u64, width: usize)
    ensures
        final(s)@ == old(s)@ + zero_pad(decimal(n as nat), width as nat),
{
    let mut t = String::new();
    push_decimal(&mut t, n);
    assert(t@ =~= decimal(n as nat));
    let len = t.as_str().unicode_len();
    let ghost before = s@;
    let mut k = len;
    while k < width
        invariant
            len <= k,
            len == decimal(n as nat).len(),
            k <= width || k == len,
            s@ == before + Seq::new((k - len) as nat, |i: int| '0'),
        decreases width - k,
    {
        s.push('0');
        k = k + 1;
        assert(s@ =~= before + Seq::new((k - len) as nat, |i: int| '0'));
    }
    s.append(t.as_str());
    assert(s@ =~= before + zero_pad(decimal(n as nat), width as nat));
}

} // verus!
